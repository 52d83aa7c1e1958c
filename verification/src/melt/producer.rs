//! Producers: where MELT takes its pictures from.

use vstd::prelude::*;

use crate::melt::xml::{
    views, well_nested, well_nested_in_tag, well_nested_single, Tag, TagView, XmlEvent, XmlView,
};

verus! {

/// The events of a producer named `id` that plays `resource`.
pub open spec fn producer_events(resource: Seq<char>, id: Seq<char>) -> Seq<XmlView> {
    seq![
        XmlView::Start(TagView::named("producer"@).with("id"@, id)),
        XmlView::Start(TagView::named("property"@).with("name"@, "resource"@)),
        XmlView::Text(resource),
        XmlView::End("property"@),
        XmlView::End("producer"@),
    ]
}

/// The events of a producer named `id` that plays `resource`.
pub fn producer_xml(resource: &str, id: &str) -> (r: Vec<XmlEvent>)
    ensures
        views(r@) == producer_events(resource@, id@),
{
    let mut out: Vec<XmlEvent> = Vec::new();
    out.push(XmlEvent::Start(Tag::named("producer").with("id", id)));
    out.push(XmlEvent::Start(Tag::named("property").with("name", "resource")));
    out.push(XmlEvent::Text(resource.to_owned()));
    out.push(XmlEvent::End("property".to_owned()));
    out.push(XmlEvent::End("producer".to_owned()));
    assert(views(out@) =~= producer_events(resource@, id@));
    out
}

/// A producer closes every tag that it opens.
pub proof fn producer_is_well_nested(resource: Seq<char>, id: Seq<char>)
    ensures
        well_nested(producer_events(resource, id)),
{
    let property = TagView::named("property"@).with("name"@, "resource"@);
    let producer = TagView::named("producer"@).with("id"@, id);
    well_nested_single(XmlView::Text(resource));
    well_nested_in_tag(property, seq![XmlView::Text(resource)]);
    let inner = seq![XmlView::Start(property)] + seq![XmlView::Text(resource)] + seq![
        XmlView::End(property.name),
    ];
    well_nested_in_tag(producer, inner);
    assert(producer_events(resource, id) =~= seq![XmlView::Start(producer)] + inner + seq![
        XmlView::End(producer.name),
    ]);
}

/// A producer has its name in its opening tag, and its resource, unchanged, as the only text.
pub proof fn a_producer_plays_its_resource(resource: Seq<char>, id: Seq<char>)
    ensures
        ({
            let events = producer_events(resource, id);
            &&& events.len() == 5
            &&& events[0] == XmlView::Start(
                TagView { name: "producer"@, attributes: seq![("id"@, id)] },
            )
            &&& events[1] == XmlView::Start(
                TagView { name: "property"@, attributes: seq![("name"@, "resource"@)] },
            )
            &&& forall|i: int|
                0 <= i < 5 ==> ((#[trigger] events[i]) is Text <==> i == 2)
            &&& events[2] == XmlView::Text(resource)
        }),
{
    assert(TagView::named("producer"@).with("id"@, id).attributes =~= seq![("id"@, id)]);
    assert(TagView::named("property"@).with("name"@, "resource"@).attributes =~= seq![
        ("name"@, "resource"@),
    ]);
}

/// What [`producer_xml`] returns: five events, and the resource is the text of the one in the middle.
pub proof fn the_resource_is_in_the_middle(resource: &str, id: &str, r: Vec<XmlEvent>)
    requires
        call_ensures(producer_xml, (resource, id), r),
    ensures
        r@.len() == 5,
        r@[0]@ == XmlView::Start(TagView { name: "producer"@, attributes: seq![("id"@, id@)] }),
        r@[2]@ == XmlView::Text(resource@),
{
    a_producer_plays_its_resource(resource@, id@);
    assert(views(r@).len() == r@.len());
    assert(views(r@)[0] == r@[0]@ && views(r@)[2] == r@[2]@);
}

} // verus!
