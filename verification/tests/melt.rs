use carcetti::assembly::{active_duration, assemble, can_count, main_tractor};
use carcetti::binary64::Binary64;
use carcetti::melt::playlist::{playlist_xml, PlaylistItem};
use carcetti::melt::producer::producer_xml;
use carcetti::melt::tractor::tractor_xml;
use carcetti::melt::xml::{write_event, write_events, Tag, XmlEvent};
use carcetti::melt::Melt;
use carcetti::video::clips::Clip;
use carcetti::video::Video;
use std::collections::HashSet;
use std::path::PathBuf;

fn video() -> Video {
    Video {
        volumes: vec![],
        frames: vec![],
        width: 1920,
        height: 1080,
        fps: Binary64::from_bits(30f64.to_bits()),
    }
}

fn text(events: Vec<XmlEvent>) -> String {
    String::from_utf8(write_events(&events)).unwrap()
}

fn clip(start: i64, end: i64) -> Clip {
    Clip { start, end, priority: Binary64::zero() }
}

/// Whether every tag that is opened is closed again.
fn balanced(events: &[XmlEvent]) -> bool {
    let mut open: Vec<&str> = vec![];
    for e in events {
        match e {
            XmlEvent::Start(t) => open.push(&t.name),
            XmlEvent::End(n) => {
                if open.pop() != Some(n.as_str()) {
                    return false;
                }
            }
            _ => {}
        }
    }
    open.is_empty()
}

#[test]
fn events_are_written_one_after_the_other() {
    let start = XmlEvent::Start(Tag::named("a").with("k", "v").with("l", "<&\">"));
    let out = write_event(b"x".to_vec(), &start);
    assert_eq!(out, b"x<a k=\"v\" l=\"<&\">\">".to_vec());
    let out = write_event(out, &XmlEvent::Text("1 < 2".to_string()));
    let out = write_event(out, &XmlEvent::Empty(Tag::named("b").with("i", "\u{e9}")));
    let out = write_event(out, &XmlEvent::End("a".to_string()));
    assert_eq!(
        String::from_utf8(out).unwrap(),
        "x<a k=\"v\" l=\"<&\">\">1 < 2<b i=\"\u{e9}\"/></a>"
    );
    let decl = XmlEvent::Decl { version: "1.0".to_string(), encoding: "utf-8".to_string() };
    assert_eq!(text(vec![decl]), "<?xml version=\"1.0\" encoding=\"utf-8\"?>");
    assert_eq!(text(vec![XmlEvent::Start(Tag::named("a"))]), "<a>");
    assert_eq!(text(vec![]), "");
}

#[test]
fn producers_name_their_resource() {
    let events = producer_xml("/v/in.mp4", "source");
    assert!(balanced(&events));
    assert_eq!(
        text(events),
        "<producer id=\"source\"><property name=\"resource\">/v/in.mp4</property></producer>"
    );
}

#[test]
fn playlists_list_entries_and_blanks() {
    let items = vec![
        PlaylistItem::Entry { id: "source".to_string(), start: 0, end: 89 },
        PlaylistItem::Blank(30),
        PlaylistItem::Entry { id: "other".to_string(), start: -3, end: 120 },
    ];
    let events = playlist_xml(&items, "p");
    assert!(balanced(&events));
    assert_eq!(
        text(events),
        "<playlist id=\"p\"><entry producer=\"source\" in=\"0\" out=\"89\"/>\
         <blank length=\"30\"/><entry producer=\"other\" in=\"-3\" out=\"120\"/></playlist>"
    );
    assert_eq!(text(playlist_xml(&vec![], "p")), "<playlist id=\"p\"></playlist>");
}

#[test]
fn tractors_have_tracks() {
    let events = tractor_xml(&vec!["a".to_string(), "b".to_string()], "t");
    assert!(balanced(&events));
    assert_eq!(
        text(events),
        "<tractor id=\"t\"><multitrack id=\"t\"><track producer=\"a\"/><track producer=\"b\"/>\
         </multitrack></tractor>"
    );
}

#[test]
fn an_assembly_is_a_complete_file() {
    let frames = vec![(0, 29), (30, 59), (60, 89)];
    let active: HashSet<usize> = [0, 2].into_iter().collect();
    let melt = assemble(
        &video(),
        &PathBuf::from("/v/in.mp4"),
        &PathBuf::from("/tmp/carcetti-7/assembly.xml"),
        &PathBuf::from("/v/out.mkv"),
        &frames,
        &active,
        30_000_000,
        60,
    )
    .unwrap();
    let bytes = melt.write_file(main_tractor()).unwrap();
    assert_eq!(
        String::from_utf8(bytes).unwrap(),
        "<?xml version=\"1.0\" encoding=\"utf-8\"?>\
         <mlt title=\"King of the Internet\" producer=\"main_tractor\" root=\"/tmp/carcetti-7\">\
         <profile width=\"1920\" height=\"1080\" frame_rate_num=\"30000000\" \
         frame_rate_den=\"1000000\"/>\
         <consumer f=\"mkv\" target=\"/v/out.mkv\" in=\"0\" out=\"60\" mlt_service=\"avformat\"/>\
         <producer id=\"source\"><property name=\"resource\">/v/in.mp4</property></producer>\
         <playlist id=\"main_video\"><entry producer=\"source\" in=\"0\" out=\"29\"/>\
         <entry producer=\"source\" in=\"60\" out=\"89\"/></playlist>\
         <tractor id=\"main_tractor\"><multitrack id=\"main_tractor\">\
         <track producer=\"main_video\"/></multitrack></tractor></mlt>"
    );
}

#[test]
fn a_file_is_balanced() {
    let mut melt = Melt::new(
        &PathBuf::from("/tmp/a.xml"),
        &PathBuf::from("out"),
        &video(),
        25_000_000,
        -1,
    )
    .unwrap();
    melt.producer(&PathBuf::from("in"), "p").unwrap();
    melt.playlist(&vec![PlaylistItem::Blank(1)], "q").unwrap();
    melt.tractor(&vec![], "t").unwrap();
    let events = melt.into_events("t");
    assert_eq!(events.len(), 4 + 5 + 3 + 4 + 1);
    assert!(balanced(&events));
}

#[test]
fn the_format_is_webm_without_an_extension() {
    let at = |p: &str| Melt::new(&PathBuf::from("/t/a"), &PathBuf::from(p), &video(), 1, 2).unwrap();
    let file = |m: Melt| String::from_utf8(m.write_file("t").unwrap()).unwrap();
    assert!(file(at("out")).contains("<consumer f=\"webm\" target=\"out\" in=\"0\" out=\"2\""));
    assert!(file(at("/x/.hidden")).contains("f=\"webm\""));
    assert!(file(at("a.tar.mp4")).contains("f=\"mp4\""));
    let events = at("out.x").into_events_at("t", "/root", Some("mov".to_string()));
    assert!(text(events).contains("root=\"/root\"><profile"));
    let events = at("out.x").into_events_at("t", "/root", None);
    assert!(text(events).contains("f=\"webm\" target=\"out.x\""));
}

#[test]
fn a_file_without_a_directory_cannot_be_written() {
    let melt = Melt::new(&PathBuf::from("/"), &PathBuf::from("o"), &video(), 1, 1).unwrap();
    assert!(melt.write_file("t").is_none());
    let melt = Melt::new(&PathBuf::from("a.xml"), &PathBuf::from("o"), &video(), 1, 1).unwrap();
    let bytes = melt.write_file("t").unwrap();
    assert!(String::from_utf8(bytes).unwrap().contains(" root=\"\">"));
}

#[test]
fn paths_are_written_as_they_are() {
    let path = PathBuf::from("/t/\u{e9} b.xml");
    let mut melt = Melt::new(&path, &PathBuf::from("/o/\u{1f600}"), &video(), 1, 1).unwrap();
    assert_eq!(melt.path, "/t/\u{e9} b.xml");
    assert_eq!(melt.output_path, "/o/\u{1f600}");
    assert_eq!(melt.producer(&PathBuf::from("/v/\u{e9}"), "p"), Ok(()));
    assert_eq!(melt.events.len(), 5);
}

#[test]
fn the_active_clips_are_added_up() {
    let clips = vec![clip(0, 9), clip(10, 29), clip(30, 69)];
    let active: HashSet<usize> = [0, 2, 7].into_iter().collect();
    assert_eq!(active_duration(&clips, &active), 50);
    assert_eq!(active_duration(&clips, &HashSet::new()), 0);
    let all: HashSet<usize> = [0, 1, 2].into_iter().collect();
    assert_eq!(active_duration(&clips, &all), 70);
}

#[test]
fn lengths_that_cannot_be_added_up_are_noticed() {
    let all: HashSet<usize> = [0, 1].into_iter().collect();
    let first: HashSet<usize> = [0].into_iter().collect();
    assert!(can_count(&vec![clip(0, 9), clip(10, 29)], &all));
    assert!(can_count(&vec![clip(0, i64::MAX - 1)], &all));
    assert!(!can_count(&vec![clip(0, i64::MAX - 1), clip(0, 0)], &all));
    // only the active clips count, and a clip may end before it starts
    assert!(can_count(&vec![clip(0, i64::MAX - 1), clip(0, 0)], &first));
    assert!(can_count(&vec![clip(5, 0)], &first));
    assert!(!can_count(&vec![clip(i64::MIN, i64::MAX)], &first));
    assert!(can_count(&vec![clip(0, 9), clip(i64::MIN, i64::MAX)], &first));
    assert_eq!(active_duration(&vec![clip(5, 0), clip(0, 9)], &all), 6);
}
