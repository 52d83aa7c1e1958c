//! Playlists: clips of producers, one after the other.

use vstd::prelude::*;

use crate::melt::xml::{
    views, well_nested, well_nested_in_tag, Tag, TagView, XmlEvent, XmlView,
};
use crate::text::{decimal, decimal_reads_back, decimal_text, signed_number};

verus! {

/// An entry in a playlist, as text and numbers.
pub enum PlaylistItemView {
    /// An entry that plays a part of a producer.
    Entry { id: Seq<char>, start: int, end: int },
    /// A blank entry.
    Blank(int),
}

/// An entry in a playlist. Times are counted in frames.
#[derive(Debug)]
pub enum PlaylistItem {
    /// An entry that plays a part of the producer named `id`.
    Entry { id: String, start: i64, end: i64 },
    /// A blank entry.
    Blank(i64),
}

impl View for PlaylistItem {
    type V = PlaylistItemView;

    open spec fn view(&self) -> PlaylistItemView {
        match self {
            PlaylistItem::Entry { id, start, end } => PlaylistItemView::Entry {
                id: id@,
                start: *start as int,
                end: *end as int,
            },
            PlaylistItem::Blank(length) => PlaylistItemView::Blank(*length as int),
        }
    }
}

/// The event of an entry.
pub open spec fn item_event(item: PlaylistItemView) -> XmlView {
    match item {
        PlaylistItemView::Entry { id, start, end } => XmlView::Empty(
            TagView::named("entry"@).with("producer"@, id).with("in"@, decimal(start)).with(
                "out"@,
                decimal(end),
            ),
        ),
        PlaylistItemView::Blank(length) => XmlView::Empty(
            TagView::named("blank"@).with("length"@, decimal(length)),
        ),
    }
}

/// The events of a playlist named `id`.
pub open spec fn playlist_events(items: Seq<PlaylistItemView>, id: Seq<char>) -> Seq<XmlView> {
    seq![XmlView::Start(TagView::named("playlist"@).with("id"@, id))] + items.map_values(
        |i: PlaylistItemView| item_event(i),
    ) + seq![XmlView::End("playlist"@)]
}

/// The event of an entry.
fn item_xml(item: &PlaylistItem) -> (r: XmlEvent)
    ensures
        r@ == item_event(item@),
{
    match item {
        PlaylistItem::Entry { id, start, end } => {
            let first = decimal_text(*start);
            let last = decimal_text(*end);
            XmlEvent::Empty(
                Tag::named("entry").with("producer", id.as_str()).with("in", first.as_str()).with(
                    "out",
                    last.as_str(),
                ),
            )
        },
        PlaylistItem::Blank(length) => {
            let length = decimal_text(*length);
            XmlEvent::Empty(Tag::named("blank").with("length", length.as_str()))
        },
    }
}

/// The events of a playlist named `id`.
pub fn playlist_xml(items: &Vec<PlaylistItem>, id: &str) -> (r: Vec<XmlEvent>)
    ensures
        views(r@) == playlist_events(items@.map_values(|i: PlaylistItem| i@), id@),
{
    let ghost all = items@.map_values(|i: PlaylistItem| i@);
    let ghost want = playlist_events(all, id@);
    let mut out: Vec<XmlEvent> = Vec::new();
    out.push(XmlEvent::Start(Tag::named("playlist").with("id", id)));
    assert(views(out@) =~= want.take(1));
    for i in 0..items.len()
        invariant
            all == items@.map_values(|i: PlaylistItem| i@),
            want == playlist_events(all, id@),
            views(out@) == want.take(i + 1),
    {
        let event = item_xml(&items[i]);
        assert(want[i + 1] == item_event(all[i as int]));
        let ghost before = views(out@);
        out.push(event);
        assert(views(out@) =~= before.push(event@));
        assert(before.push(event@) =~= want.take(i + 2));
    }
    let ghost before = views(out@);
    out.push(XmlEvent::End("playlist".to_owned()));
    assert(views(out@) =~= before.push(XmlView::End("playlist"@)));
    assert(views(out@) =~= want);
    out
}

proof fn lemma_items_are_well_nested(items: Seq<PlaylistItemView>)
    ensures
        well_nested(items.map_values(|i: PlaylistItemView| item_event(i))),
    decreases items.len(),
{
    let events = items.map_values(|i: PlaylistItemView| item_event(i));
    if items.len() > 0 {
        lemma_items_are_well_nested(items.drop_last());
        assert(events.drop_last() =~= items.drop_last().map_values(
            |i: PlaylistItemView| item_event(i),
        ));
    }
}

/// A playlist closes every tag that it opens.
pub proof fn playlist_is_well_nested(items: Seq<PlaylistItemView>, id: Seq<char>)
    ensures
        well_nested(playlist_events(items, id)),
{
    lemma_items_are_well_nested(items);
    well_nested_in_tag(
        TagView::named("playlist"@).with("id"@, id),
        items.map_values(|i: PlaylistItemView| item_event(i)),
    );
}

/// A playlist has its entries between its opening and its closing tag, each once and in order.
pub proof fn entries_stand_in_order(items: Seq<PlaylistItemView>, id: Seq<char>)
    ensures
        ({
            let events = playlist_events(items, id);
            &&& events.len() == items.len() + 2
            &&& events[0] == XmlView::Start(
                TagView { name: "playlist"@, attributes: seq![("id"@, id)] },
            )
            &&& forall|i: int| 0 <= i < items.len() ==> events[i + 1] == item_event(#[trigger] items[i])
            &&& events.last() == XmlView::End("playlist"@)
        }),
{
    let tag = TagView::named("playlist"@).with("id"@, id);
    assert(tag.attributes =~= seq![("id"@, id)]);
}

/// An entry names its producer, and its first and its last frame read back from its attributes. A
/// blank tells its length.
pub proof fn an_entry_tells_its_frames(id: Seq<char>, start: int, end: int, length: int)
    ensures
        ({
            let entry = item_event(PlaylistItemView::Entry { id, start, end });
            &&& entry is Empty
            &&& entry->Empty_0.name == "entry"@
            &&& entry->Empty_0.attributes.len() == 3
            &&& entry->Empty_0.attributes[0] == ("producer"@, id)
            &&& entry->Empty_0.attributes[1].0 == "in"@
            &&& signed_number(entry->Empty_0.attributes[1].1) == start
            &&& entry->Empty_0.attributes[2].0 == "out"@
            &&& signed_number(entry->Empty_0.attributes[2].1) == end
        }),
        ({
            let blank = item_event(PlaylistItemView::Blank(length));
            &&& blank is Empty
            &&& blank->Empty_0.name == "blank"@
            &&& blank->Empty_0.attributes.len() == 1
            &&& blank->Empty_0.attributes[0].0 == "length"@
            &&& signed_number(blank->Empty_0.attributes[0].1) == length
        }),
{
    decimal_reads_back(start);
    decimal_reads_back(end);
    decimal_reads_back(length);
}

/// What [`playlist_xml`] returns: one event for each item, in order, between those of the opening and
/// the closing tag, and the frames of an entry read back from its attributes.
pub proof fn a_playlist_tells_its_frames(
    items: Vec<PlaylistItem>,
    id: &str,
    r: Vec<XmlEvent>,
    i: int,
    name: Seq<char>,
    start: int,
    end: int,
)
    requires
        call_ensures(playlist_xml, (&items, id), r),
    ensures
        r@.len() == items@.len() + 2,
        0 <= i < items@.len() && items@[i]@ == (PlaylistItemView::Entry { id: name, start, end })
            ==> {
            let entry = r@[i + 1]@;
            &&& entry is Empty
            &&& entry->Empty_0.attributes.len() == 3
            &&& entry->Empty_0.attributes[0] == ("producer"@, name)
            &&& signed_number(entry->Empty_0.attributes[1].1) == start
            &&& signed_number(entry->Empty_0.attributes[2].1) == end
        },
{
    let all = items@.map_values(|i: PlaylistItem| i@);
    entries_stand_in_order(all, id@);
    an_entry_tells_its_frames(name, start, end, 0);
    assert(views(r@).len() == r@.len());
    if 0 <= i < items@.len() {
        assert(all[i] == items@[i]@);
        assert(views(r@)[i + 1] == r@[i + 1]@);
    }
}

} // verus!
