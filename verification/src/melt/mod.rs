//! The input file of MELT, the program that renders the finished video.

pub mod playlist;
pub mod producer;
pub mod tractor;
pub mod xml;

use std::path::PathBuf;
use vstd::prelude::*;
use vstd::utf8::encode_utf8;

use crate::paths::{
    extension_text, parent_text, path_text, text_of, utf8_extension, utf8_parent, utf8_path,
};
use crate::melt::playlist::{playlist_events, playlist_xml, PlaylistItem};
use crate::melt::producer::{producer_events, producer_xml};
use crate::melt::tractor::{tractor_events, tractor_xml};
use crate::melt::xml::{
    document_text, views, well_nested, well_nested_concat, well_nested_in_tag, well_nested_single,
    write_events, Tag, TagView, XmlEvent, XmlView,
};
use crate::text::{
    decimal, decimal_reads_back, decimal_text, number, signed_number, unsigned_text,
};
use crate::video::Video;

verus! {

/// Why an input file could not be made.
#[derive(Debug, Clone, Copy, PartialEq, Eq, Structural)]
pub enum MeltError {
    /// A path is not valid UTF-8.
    NotUtf8,
}

/// An in-progress MELT input file.
#[derive(Debug)]
pub struct Melt {
    /// Where the file will be.
    pub path: String,
    /// Where MELT will put the finished video.
    pub output_path: String,
    /// What was added so far.
    pub events: Vec<XmlEvent>,
    /// Width and height of a picture.
    pub video_size: (u32, u32),
    /// Pictures in a million seconds.
    pub frame_rate_num: u64,
    /// Length of the finished video, in frames.
    pub duration: i64,
}

impl Melt {
    /// The opening tag of the file.
    pub open spec fn opener(self, main_tractor: Seq<char>, root: Seq<char>) -> TagView {
        TagView::named("mlt"@).with("title"@, "King of the Internet"@).with(
            "producer"@,
            main_tractor,
        ).with("root"@, root)
    }

    /// The description of the pictures.
    pub open spec fn profile(self) -> TagView {
        TagView::named("profile"@).with("width"@, decimal(self.video_size.0 as int)).with(
            "height"@,
            decimal(self.video_size.1 as int),
        ).with("frame_rate_num"@, decimal(self.frame_rate_num as int)).with(
            "frame_rate_den"@,
            "1000000"@,
        )
    }

    /// What takes the finished video. Its format is named by the extension of the output path.
    pub open spec fn consumer(self, extension: Option<Seq<char>>) -> TagView {
        TagView::named("consumer"@).with(
            "f"@,
            match extension {
                Some(e) => e,
                None => "webm"@,
            },
        ).with("target"@, self.output_path@).with("in"@, "0"@).with(
            "out"@,
            decimal(self.duration as int),
        ).with("mlt_service"@, "avformat"@)
    }

    /// The events of the finished file, where `root` is the directory it lies in and `extension`
    /// that of the output path.
    pub open spec fn document(
        self,
        main_tractor: Seq<char>,
        root: Seq<char>,
        extension: Option<Seq<char>>,
    ) -> Seq<XmlView> {
        seq![
            XmlView::Decl { version: "1.0"@, encoding: "utf-8"@ },
            XmlView::Start(self.opener(main_tractor, root)),
            XmlView::Empty(self.profile()),
            XmlView::Empty(self.consumer(extension)),
        ] + views(self.events@) + seq![XmlView::End("mlt"@)]
    }

    /// Creates a new input file, without any producer, playlist or tractor. `frame_rate_num` is
    /// how many pictures there are in a million seconds, `duration` the length of the finished
    /// video in frames.
    pub fn new(
        path: &PathBuf,
        output_path: &PathBuf,
        video: &Video,
        frame_rate_num: u64,
        duration: i64,
    ) -> (r: Result<Melt, MeltError>)
        ensures
            match r {
                Ok(m) => {
                    &&& path_text(*path) == Some(m.path@)
                    &&& path_text(*output_path) == Some(m.output_path@)
                    &&& m.events@.len() == 0
                    &&& m.video_size == (video.width, video.height)
                    &&& m.frame_rate_num == frame_rate_num
                    &&& m.duration == duration
                },
                Err(e) => e == MeltError::NotUtf8 && (path_text(*path) is None || path_text(
                    *output_path,
                ) is None),
            },
            r is Ok <==> path_text(*path) is Some && path_text(*output_path) is Some,
    {
        let path = match utf8_path(path) {
            Some(p) => p,
            None => {
                return Err(MeltError::NotUtf8);
            },
        };
        let output_path = match utf8_path(output_path) {
            Some(p) => p,
            None => {
                return Err(MeltError::NotUtf8);
            },
        };
        Ok(
            Melt {
                path,
                output_path,
                events: Vec::new(),
                video_size: (video.width, video.height),
                frame_rate_num,
                duration,
            },
        )
    }

    /// Adds events to the end.
    fn extend(&mut self, events: Vec<XmlEvent>)
        ensures
            *final(self) == (Melt { events: final(self).events, ..*old(self) }),
            views(final(self).events@) == views(old(self).events@) + views(events@),
    {
        let mut events = events;
        let ghost before = self.events@;
        let ghost added = events@;
        self.events.append(&mut events);
        assert(views(before + added) =~= views(before) + views(added));
    }

    /// Adds a new producer to the file.
    pub fn producer(&mut self, resource: &PathBuf, id: &str) -> (r: Result<(), MeltError>)
        ensures
            match path_text(*resource) {
                Some(text) => {
                    &&& r is Ok
                    &&& *final(self) == (Melt { events: final(self).events, ..*old(self) })
                    &&& views(final(self).events@) == views(old(self).events@) + producer_events(
                        text,
                        id@,
                    )
                },
                None => r == Err::<(), MeltError>(MeltError::NotUtf8) && *final(self)
                    == *old(self),
            },
    {
        match utf8_path(resource) {
            Some(text) => {
                self.extend(producer_xml(text.as_str(), id));
                Ok(())
            },
            None => Err(MeltError::NotUtf8),
        }
    }

    /// Adds a new playlist to the file.
    pub fn playlist(&mut self, entries: &Vec<PlaylistItem>, id: &str) -> (r: Result<
        (),
        MeltError,
    >)
        ensures
            r is Ok,
            *final(self) == (Melt { events: final(self).events, ..*old(self) }),
            views(final(self).events@) == views(old(self).events@) + playlist_events(
                entries@.map_values(|i: PlaylistItem| i@),
                id@,
            ),
    {
        self.extend(playlist_xml(entries, id));
        Ok(())
    }

    /// Adds a new tractor to the file.
    pub fn tractor(&mut self, multitrack: &Vec<String>, id: &str) -> (r: Result<(), MeltError>)
        ensures
            r is Ok,
            *final(self) == (Melt { events: final(self).events, ..*old(self) }),
            views(final(self).events@) == views(old(self).events@) + tractor_events(
                multitrack@.map_values(|t: String| t@),
                id@,
            ),
    {
        self.extend(tractor_xml(multitrack, id));
        Ok(())
    }

    /// Converts the file to the final XML events, where `root` is the directory it lies in and
    /// `extension` that of the output path.
    pub fn into_events_at(self, main_tractor: &str, root: &str, extension: Option<String>) -> (r:
        Vec<XmlEvent>)
        ensures
            views(r@) == self.document(main_tractor@, root@, text_of(extension)),
    {
        let opener = Tag::named("mlt").with("title", "King of the Internet").with(
            "producer",
            main_tractor,
        ).with("root", root);
        let width = unsigned_text(self.video_size.0 as u64);
        let height = unsigned_text(self.video_size.1 as u64);
        let numerator = unsigned_text(self.frame_rate_num);
        let profile = Tag::named("profile").with("width", width.as_str()).with(
            "height",
            height.as_str(),
        ).with("frame_rate_num", numerator.as_str()).with("frame_rate_den", "1000000");
        let format = match extension {
            Some(e) => e,
            None => "webm".to_owned(),
        };
        let duration = decimal_text(self.duration);
        let consumer = Tag::named("consumer").with("f", format.as_str()).with(
            "target",
            self.output_path.as_str(),
        ).with("in", "0").with("out", duration.as_str()).with("mlt_service", "avformat");

        let mut out: Vec<XmlEvent> = Vec::new();
        out.push(XmlEvent::Decl { version: "1.0".to_owned(), encoding: "utf-8".to_owned() });
        out.push(XmlEvent::Start(opener));
        out.push(XmlEvent::Empty(profile));
        out.push(XmlEvent::Empty(consumer));
        let ghost front = out@;
        let mut body = self.events;
        let ghost middle = body@;
        out.append(&mut body);
        out.push(XmlEvent::End("mlt".to_owned()));
        proof {
            let want = self.document(main_tractor@, root@, text_of(extension));
            assert(middle == self.events@);
            assert(views(front) =~= want.take(4));
            assert(views(out@) =~= views(front) + views(middle) + seq![XmlView::End("mlt"@)]);
            assert(views(out@) =~= want);
        }
        out
    }

    /// Converts the file to the final XML events.
    pub fn into_events(self, main_tractor: &str) -> (r: Vec<XmlEvent>)
        requires
            parent_text(self.path@) is Some,
        ensures
            views(r@) == self.document(
                main_tractor@,
                parent_text(self.path@)->Some_0,
                extension_text(self.output_path@),
            ),
    {
        let extension = utf8_extension(self.output_path.as_str());
        match utf8_parent(self.path.as_str()) {
            Some(root) => self.into_events_at(main_tractor, root.as_str(), extension),
            None => Vec::new(),
        }
    }

    /// The bytes of the finished file, or `None` if its path has no directory to lie in.
    pub fn write_file(self, main_tractor: &str) -> (r: Option<Vec<u8>>)
        ensures
            match parent_text(self.path@) {
                Some(root) => {
                    &&& r is Some
                    &&& r->Some_0@ == encode_utf8(
                        document_text(
                            self.document(main_tractor@, root, extension_text(self.output_path@)),
                        ),
                    )
                },
                None => r is None,
            },
    {
        match utf8_parent(self.path.as_str()) {
            Some(_) => {
                let events = self.into_events(main_tractor);
                Some(write_events(&events))
            },
            None => None,
        }
    }
}

/// If what was added to a file closes every tag that it opens, so does the finished file.
pub proof fn document_is_well_nested(
    melt: Melt,
    main_tractor: Seq<char>,
    root: Seq<char>,
    extension: Option<Seq<char>>,
)
    requires
        well_nested(views(melt.events@)),
    ensures
        well_nested(melt.document(main_tractor, root, extension)),
{
    let opener = melt.opener(main_tractor, root);
    let profile = XmlView::Empty(melt.profile());
    let consumer = XmlView::Empty(melt.consumer(extension));
    let decl = XmlView::Decl { version: "1.0"@, encoding: "utf-8"@ };
    let body = views(melt.events@);
    well_nested_single(profile);
    well_nested_single(consumer);
    well_nested_single(decl);
    well_nested_concat(seq![profile], seq![consumer]);
    well_nested_concat(seq![profile] + seq![consumer], body);
    let inner = seq![profile] + seq![consumer] + body;
    well_nested_in_tag(opener, inner);
    let whole = seq![XmlView::Start(opener)] + inner + seq![XmlView::End(opener.name)];
    well_nested_concat(seq![decl], whole);
    assert(melt.document(main_tractor, root, extension) =~= seq![decl] + whole);
}

/// The profile of a file tells the recording: its width, its height and its frame rate, over a
/// million, read back from the attributes.
pub proof fn the_profile_tells_the_recording(
    melt: Melt,
    main_tractor: Seq<char>,
    root: Seq<char>,
    extension: Option<Seq<char>>,
)
    ensures
        ({
            let events = melt.document(main_tractor, root, extension);
            let profile = events[2]->Empty_0;
            &&& events.len() == melt.events@.len() + 5
            &&& events[2] is Empty
            &&& profile.name == "profile"@
            &&& profile.attributes.len() == 4
            &&& profile.attributes[0].0 == "width"@
            &&& signed_number(profile.attributes[0].1) == melt.video_size.0
            &&& profile.attributes[1].0 == "height"@
            &&& signed_number(profile.attributes[1].1) == melt.video_size.1
            &&& profile.attributes[2].0 == "frame_rate_num"@
            &&& signed_number(profile.attributes[2].1) == melt.frame_rate_num
            &&& profile.attributes[3].0 == "frame_rate_den"@
            &&& signed_number(profile.attributes[3].1) == 1_000_000
        }),
{
    decimal_reads_back(melt.video_size.0 as int);
    decimal_reads_back(melt.video_size.1 as int);
    decimal_reads_back(melt.frame_rate_num as int);
    reveal_strlit("1000000");
    reveal_with_fuel(number, 8);
}

/// The consumer of a file tells where the video goes and when it ends: its target is the output
/// path, its format the extension of that path or else `webm`, and the duration reads back from the
/// attribute that says where it ends.
pub proof fn the_consumer_tells_the_output(
    melt: Melt,
    main_tractor: Seq<char>,
    root: Seq<char>,
    extension: Option<Seq<char>>,
)
    ensures
        ({
            let events = melt.document(main_tractor, root, extension);
            let consumer = events[3]->Empty_0;
            &&& events[3] is Empty
            &&& consumer.name == "consumer"@
            &&& consumer.attributes.len() == 5
            &&& consumer.attributes[0].0 == "f"@
            &&& extension is Some ==> consumer.attributes[0].1 == extension->Some_0
            &&& extension is None ==> consumer.attributes[0].1 == "webm"@
            &&& consumer.attributes[1] == ("target"@, melt.output_path@)
            &&& consumer.attributes[2].0 == "in"@
            &&& signed_number(consumer.attributes[2].1) == 0
            &&& consumer.attributes[3].0 == "out"@
            &&& signed_number(consumer.attributes[3].1) == melt.duration
            &&& consumer.attributes[4] == ("mlt_service"@, "avformat"@)
        }),
{
    decimal_reads_back(melt.duration as int);
    reveal_strlit("0");
    reveal_with_fuel(number, 2);
}

/// A file opens with the tag that names the tractor to play and the directory it lies in, closes it
/// at the end, and holds in between, behind profile and consumer, what was added to it: all of it,
/// unchanged and in order.
pub proof fn a_file_holds_what_was_added(
    melt: Melt,
    main_tractor: Seq<char>,
    root: Seq<char>,
    extension: Option<Seq<char>>,
)
    ensures
        ({
            let events = melt.document(main_tractor, root, extension);
            let opener = events[1]->Start_0;
            &&& events.len() == melt.events@.len() + 5
            &&& events[0] == (XmlView::Decl { version: "1.0"@, encoding: "utf-8"@ })
            &&& events[1] is Start
            &&& opener.name == "mlt"@
            &&& opener.attributes.len() == 3
            &&& opener.attributes[0] == ("title"@, "King of the Internet"@)
            &&& opener.attributes[1] == ("producer"@, main_tractor)
            &&& opener.attributes[2] == ("root"@, root)
            &&& forall|i: int|
                0 <= i < melt.events@.len() ==> events[i + 4] == (#[trigger] melt.events@[i])@
            &&& events.last() == XmlView::End("mlt"@)
        }),
{
    let events = melt.document(main_tractor, root, extension);
    assert forall|i: int| 0 <= i < melt.events@.len() implies events[i + 4] == (
    #[trigger] melt.events@[i])@ by {
        assert(views(melt.events@)[i] == melt.events@[i]@);
    }
}

/// What [`Melt::into_events_at`] returns tells the recording: in the profile, the third event, width,
/// height and frame rate read back, and in the consumer, the fourth, the duration does.
pub proof fn the_events_tell_the_recording(
    melt: Melt,
    main_tractor: &str,
    root: &str,
    extension: Option<String>,
    r: Vec<XmlEvent>,
)
    requires
        call_ensures(Melt::into_events_at, (melt, main_tractor, root, extension), r),
    ensures
        r@.len() == melt.events@.len() + 5,
        ({
            let profile = r@[2]@->Empty_0.attributes;
            let consumer = r@[3]@->Empty_0.attributes;
            &&& r@[2]@ is Empty && r@[2]@->Empty_0.name == "profile"@
            &&& profile[0].0 == "width"@ && signed_number(profile[0].1) == melt.video_size.0
            &&& profile[1].0 == "height"@ && signed_number(profile[1].1) == melt.video_size.1
            &&& profile[2].0 == "frame_rate_num"@ && signed_number(profile[2].1)
                == melt.frame_rate_num
            &&& r@[3]@ is Empty && r@[3]@->Empty_0.name == "consumer"@
            &&& consumer[1] == ("target"@, melt.output_path@)
            &&& consumer[3].0 == "out"@ && signed_number(consumer[3].1) == melt.duration
        }),
{
    let e = text_of(extension);
    the_profile_tells_the_recording(melt, main_tractor@, root@, e);
    the_consumer_tells_the_output(melt, main_tractor@, root@, e);
    assert(views(r@).len() == r@.len());
    assert(views(r@)[2] == r@[2]@);
    assert(views(r@)[3] == r@[3]@);
}

/// What [`Melt::new`] returns, if it succeeds, holds what it was given.
pub proof fn a_new_file_holds_what_it_was_given(
    path: PathBuf,
    output_path: PathBuf,
    video: Video,
    frame_rate_num: u64,
    duration: i64,
    r: Result<Melt, MeltError>,
)
    requires
        call_ensures(Melt::new, (&path, &output_path, &video, frame_rate_num, duration), r),
        r is Ok,
    ensures
        r->Ok_0.video_size.0 == video.width && r->Ok_0.video_size.1 == video.height,
        r->Ok_0.frame_rate_num == frame_rate_num,
        r->Ok_0.duration == duration,
        r->Ok_0.events@.len() == 0,
        path_text(path) == Some(r->Ok_0.path@),
        path_text(output_path) == Some(r->Ok_0.output_path@),
{
}

/// What [`Melt::write_file`] returns is what [`write_events`] makes of the events of the file, whose
/// profile and consumer tell the recording and the output.
pub proof fn the_file_is_written_as_it_is(
    melt: Melt,
    main_tractor: &str,
    root: Seq<char>,
    r: Option<Vec<u8>>,
    events: Vec<XmlEvent>,
    bytes: Vec<u8>,
)
    requires
        parent_text(melt.path@) == Some(root),
        views(events@) == melt.document(main_tractor@, root, extension_text(melt.output_path@)),
        call_ensures(Melt::write_file, (melt, main_tractor), r),
        call_ensures(write_events, (&events,), bytes),
    ensures
        r is Some && r->Some_0@ == bytes@,
{
}

/// What [`Melt::playlist`] and [`Melt::tractor`] do: what was in the file stays in front, what
/// [`playlist_xml`] or [`tractor_xml`] returns comes behind it, and nothing else changes.
pub proof fn parts_are_added_behind(
    first: &mut Melt,
    entries: Vec<PlaylistItem>,
    second: &mut Melt,
    tracks: Vec<String>,
    id: &str,
    r: Result<(), MeltError>,
    s: Result<(), MeltError>,
    list: Vec<XmlEvent>,
    group: Vec<XmlEvent>,
)
    requires
        call_ensures(Melt::playlist, (first, &entries, id), r),
        call_ensures(Melt::tractor, (second, &tracks, id), s),
        call_ensures(playlist_xml, (&entries, id), list),
        call_ensures(tractor_xml, (&tracks, id), group),
    ensures
        r is Ok && s is Ok,
        views(final(first).events@) == views(old(first).events@) + views(list@),
        views(final(second).events@) == views(old(second).events@) + views(group@),
        *final(first) == (Melt { events: final(first).events, ..*old(first) }),
        *final(second) == (Melt { events: final(second).events, ..*old(second) }),
{
}

/// What [`Melt::producer`] does: a resource whose path is not text is refused, and leaves the file as
/// it was. Any other is added behind what was there, with its path as the only text.
pub proof fn a_resource_is_added(
    melt: &mut Melt,
    resource: PathBuf,
    id: &str,
    r: Result<(), MeltError>,
)
    requires
        call_ensures(Melt::producer, (melt, &resource, id), r),
    ensures
        r is Ok <==> path_text(resource) is Some,
        r is Err ==> *final(melt) == *old(melt),
        r is Ok ==> {
            let before = views(old(melt).events@);
            let after = views(final(melt).events@);
            &&& after.len() == before.len() + 5
            &&& after.take(before.len() as int) == before
            &&& after[before.len() as int + 2] == XmlView::Text(path_text(resource)->Some_0)
            &&& after[before.len() as int] == XmlView::Start(
                TagView { name: "producer"@, attributes: seq![("id"@, id@)] },
            )
        },
{
    if r is Ok {
        let text = path_text(resource)->Some_0;
        crate::melt::producer::a_producer_plays_its_resource(text, id@);
        let before = views(old(melt).events@);
        assert(views(final(melt).events@).take(before.len() as int) =~= before);
        assert(views(final(melt).events@)[before.len() as int + 2] == producer_events(text, id@)[2]);
        assert(views(final(melt).events@)[before.len() as int] == producer_events(text, id@)[0]);
    }
}

} // verus!
