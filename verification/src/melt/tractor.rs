//! Tractors: tracks, played together.

use vstd::prelude::*;

use crate::melt::xml::{
    views, well_nested, well_nested_in_tag, Tag, TagView, XmlEvent, XmlView,
};

verus! {

/// The event of a track that plays `producer`.
pub open spec fn track_event(producer: Seq<char>) -> XmlView {
    XmlView::Empty(TagView::named("track"@).with("producer"@, producer))
}

/// The events of the multitrack inside a tractor named `id`.
pub open spec fn multitrack_events(tracks: Seq<Seq<char>>, id: Seq<char>) -> Seq<XmlView> {
    seq![XmlView::Start(TagView::named("multitrack"@).with("id"@, id))] + tracks.map_values(
        |t: Seq<char>| track_event(t),
    ) + seq![XmlView::End("multitrack"@)]
}

/// The events of a tractor named `id`.
pub open spec fn tractor_events(tracks: Seq<Seq<char>>, id: Seq<char>) -> Seq<XmlView> {
    seq![XmlView::Start(TagView::named("tractor"@).with("id"@, id))] + multitrack_events(
        tracks,
        id,
    ) + seq![XmlView::End("tractor"@)]
}

/// The events of a tractor named `id`, with a track for each of the given producers.
pub fn tractor_xml(tracks: &Vec<String>, id: &str) -> (r: Vec<XmlEvent>)
    ensures
        views(r@) == tractor_events(tracks@.map_values(|t: String| t@), id@),
{
    let ghost all = tracks@.map_values(|t: String| t@);
    let ghost want = tractor_events(all, id@);
    let mut out: Vec<XmlEvent> = Vec::new();
    out.push(XmlEvent::Start(Tag::named("tractor").with("id", id)));
    out.push(XmlEvent::Start(Tag::named("multitrack").with("id", id)));
    assert(views(out@) =~= want.take(2));
    for i in 0..tracks.len()
        invariant
            all == tracks@.map_values(|t: String| t@),
            want == tractor_events(all, id@),
            views(out@) == want.take(i + 2),
    {
        let event = XmlEvent::Empty(Tag::named("track").with("producer", tracks[i].as_str()));
        assert(want[i + 2] == multitrack_events(all, id@)[i + 1]);
        assert(want[i + 2] == track_event(all[i as int]));
        let ghost before = views(out@);
        out.push(event);
        assert(views(out@) =~= before.push(event@));
        assert(before.push(event@) =~= want.take(i + 3));
    }
    let ghost before = views(out@);
    out.push(XmlEvent::End("multitrack".to_owned()));
    out.push(XmlEvent::End("tractor".to_owned()));
    assert(views(out@) =~= before.push(XmlView::End("multitrack"@)).push(
        XmlView::End("tractor"@),
    ));
    assert(views(out@) =~= want);
    out
}

proof fn lemma_tracks_are_well_nested(tracks: Seq<Seq<char>>)
    ensures
        well_nested(tracks.map_values(|t: Seq<char>| track_event(t))),
    decreases tracks.len(),
{
    let events = tracks.map_values(|t: Seq<char>| track_event(t));
    if tracks.len() > 0 {
        lemma_tracks_are_well_nested(tracks.drop_last());
        assert(events.drop_last() =~= tracks.drop_last().map_values(
            |t: Seq<char>| track_event(t),
        ));
    }
}

/// A tractor closes every tag that it opens.
pub proof fn tractor_is_well_nested(tracks: Seq<Seq<char>>, id: Seq<char>)
    ensures
        well_nested(tractor_events(tracks, id)),
{
    lemma_tracks_are_well_nested(tracks);
    well_nested_in_tag(
        TagView::named("multitrack"@).with("id"@, id),
        tracks.map_values(|t: Seq<char>| track_event(t)),
    );
    well_nested_in_tag(
        TagView::named("tractor"@).with("id"@, id),
        multitrack_events(tracks, id),
    );
}

/// A tractor has its tracks inside a multitrack of the same name, each once and in order.
pub proof fn tracks_stand_in_order(tracks: Seq<Seq<char>>, id: Seq<char>)
    ensures
        ({
            let events = tractor_events(tracks, id);
            &&& events.len() == tracks.len() + 4
            &&& events[0] == XmlView::Start(
                TagView { name: "tractor"@, attributes: seq![("id"@, id)] },
            )
            &&& events[1] == XmlView::Start(
                TagView { name: "multitrack"@, attributes: seq![("id"@, id)] },
            )
            &&& forall|i: int|
                0 <= i < tracks.len() ==> events[i + 2] == XmlView::Empty(
                    TagView {
                        name: "track"@,
                        attributes: seq![("producer"@, #[trigger] tracks[i])],
                    },
                )
            &&& events[tracks.len() as int + 2] == XmlView::End("multitrack"@)
            &&& events[tracks.len() as int + 3] == XmlView::End("tractor"@)
        }),
{
    let events = tractor_events(tracks, id);
    assert(TagView::named("tractor"@).with("id"@, id).attributes =~= seq![("id"@, id)]);
    assert(TagView::named("multitrack"@).with("id"@, id).attributes =~= seq![("id"@, id)]);
    assert forall|i: int| 0 <= i < tracks.len() implies events[i + 2] == XmlView::Empty(
        TagView { name: "track"@, attributes: seq![("producer"@, #[trigger] tracks[i])] },
    ) by {
        assert(events[i + 2] == multitrack_events(tracks, id)[i + 1]);
        assert(TagView::named("track"@).with("producer"@, tracks[i]).attributes =~= seq![
            ("producer"@, tracks[i]),
        ]);
    }
}

/// What [`tractor_xml`] returns: one event for each track, in order, that names it.
pub proof fn a_tractor_names_its_tracks(tracks: Vec<String>, id: &str, r: Vec<XmlEvent>, i: int)
    requires
        call_ensures(tractor_xml, (&tracks, id), r),
    ensures
        r@.len() == tracks@.len() + 4,
        0 <= i < tracks@.len() ==> r@[i + 2]@ == XmlView::Empty(
            TagView { name: "track"@, attributes: seq![("producer"@, tracks@[i]@)] },
        ),
{
    let all = tracks@.map_values(|t: String| t@);
    tracks_stand_in_order(all, id@);
    assert(views(r@).len() == r@.len());
    if 0 <= i < tracks@.len() {
        assert(all[i] == tracks@[i]@);
        assert(views(r@)[i + 2] == r@[i + 2]@);
    }
}

} // verus!
