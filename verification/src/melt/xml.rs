//! XML, event by event.

use quick_xml::events::{BytesDecl, BytesEnd, BytesStart, BytesText, Event};
use quick_xml::Writer;
use vstd::prelude::*;
use vstd::utf8::encode_utf8;

verus! {

/// An attribute of a tag.
#[derive(Debug)]
pub struct Attribute {
    /// What stands before the equals sign.
    pub key: String,
    /// What stands between the quotes.
    pub value: String,
}

impl View for Attribute {
    type V = (Seq<char>, Seq<char>);

    open spec fn view(&self) -> (Seq<char>, Seq<char>) {
        (self.key@, self.value@)
    }
}

/// A tag, as text.
pub struct TagView {
    /// Its name.
    pub name: Seq<char>,
    /// Its attributes, in order.
    pub attributes: Seq<(Seq<char>, Seq<char>)>,
}

impl TagView {
    /// A tag without attributes.
    pub open spec fn named(name: Seq<char>) -> TagView {
        TagView { name, attributes: seq![] }
    }

    /// The tag with one more attribute.
    pub open spec fn with(self, key: Seq<char>, value: Seq<char>) -> TagView {
        TagView { name: self.name, attributes: self.attributes.push((key, value)) }
    }
}

/// A tag.
#[derive(Debug)]
pub struct Tag {
    /// Its name.
    pub name: String,
    /// Its attributes, in order.
    pub attributes: Vec<Attribute>,
}

impl View for Tag {
    type V = TagView;

    open spec fn view(&self) -> TagView {
        TagView {
            name: self.name@,
            attributes: self.attributes@.map_values(|a: Attribute| a@),
        }
    }
}

impl Tag {
    /// A tag without attributes.
    pub fn named(name: &str) -> (r: Tag)
        ensures
            r@ == TagView::named(name@),
    {
        let r = Tag { name: name.to_owned(), attributes: Vec::new() };
        assert(r@.attributes =~= seq![]);
        r
    }

    /// The tag with one more attribute. The value is taken as it is: nothing in it is escaped.
    pub fn with(self, key: &str, value: &str) -> (r: Tag)
        ensures
            r@ == self@.with(key@, value@),
    {
        let mut r = self;
        r.attributes.push(Attribute { key: key.to_owned(), value: value.to_owned() });
        assert(r@.attributes =~= self@.attributes.push((key@, value@)));
        r
    }
}

/// A piece of an XML document, as text.
pub enum XmlView {
    /// The declaration in front of everything.
    Decl { version: Seq<char>, encoding: Seq<char> },
    /// An opening tag.
    Start(TagView),
    /// A tag without content.
    Empty(TagView),
    /// A closing tag, by name.
    End(Seq<char>),
    /// Text between tags.
    Text(Seq<char>),
}

/// A piece of an XML document.
#[derive(Debug)]
pub enum XmlEvent {
    /// The declaration in front of everything.
    Decl { version: String, encoding: String },
    /// An opening tag.
    Start(Tag),
    /// A tag without content.
    Empty(Tag),
    /// A closing tag, by name.
    End(String),
    /// Text between tags. It is taken as it is: nothing in it is escaped.
    Text(String),
}

impl View for XmlEvent {
    type V = XmlView;

    open spec fn view(&self) -> XmlView {
        match self {
            XmlEvent::Decl { version, encoding } => XmlView::Decl {
                version: version@,
                encoding: encoding@,
            },
            XmlEvent::Start(tag) => XmlView::Start(tag@),
            XmlEvent::Empty(tag) => XmlView::Empty(tag@),
            XmlEvent::End(name) => XmlView::End(name@),
            XmlEvent::Text(text) => XmlView::Text(text@),
        }
    }
}

/// Events, as text.
pub open spec fn views(events: Seq<XmlEvent>) -> Seq<XmlView> {
    events.map_values(|e: XmlEvent| e@)
}

/// Attributes as they stand in a tag: each after a space, as `key="value"`.
pub open spec fn attributes_text(attributes: Seq<(Seq<char>, Seq<char>)>) -> Seq<char>
    decreases attributes.len(),
{
    if attributes.len() == 0 {
        seq![]
    } else {
        attributes_text(attributes.drop_last()) + seq![' '] + attributes.last().0 + seq!['=', '"']
            + attributes.last().1 + seq!['"']
    }
}

/// A tag without its brackets.
pub open spec fn tag_text(tag: TagView) -> Seq<char> {
    tag.name + attributes_text(tag.attributes)
}

/// An event as it stands in a document.
pub open spec fn event_text(event: XmlView) -> Seq<char> {
    match event {
        XmlView::Decl { version, encoding } => "<?xml version=\""@ + version + "\" encoding=\""@
            + encoding + "\"?>"@,
        XmlView::Start(tag) => "<"@ + tag_text(tag) + ">"@,
        XmlView::Empty(tag) => "<"@ + tag_text(tag) + "/>"@,
        XmlView::End(name) => "</"@ + name + ">"@,
        XmlView::Text(text) => text,
    }
}

/// A document: the text of its events, one after the other.
pub open spec fn document_text(events: Seq<XmlView>) -> Seq<char>
    decreases events.len(),
{
    if events.len() == 0 {
        seq![]
    } else {
        document_text(events.drop_last()) + event_text(events.last())
    }
}

/// Writes an opening tag with `quick_xml::Writer::write_event`, made by
/// `BytesStart::borrowed_name` and `with_attributes`. The writer has no indentation, so that the
/// tag stands right behind what `out` holds: name and attributes in angle brackets, the values
/// between quotes and otherwise as they are. A vector takes every byte, so that writing never
/// fails.
#[verifier::external_body]
fn write_start(out: Vec<u8>, tag: &Tag) -> (r: Vec<u8>)
    ensures
        r@ == out@ + encode_utf8(event_text(XmlView::Start(tag@))),
{
    let pairs = tag.attributes.iter().map(|a| (a.key.as_bytes(), a.value.as_bytes()));
    let start = BytesStart::borrowed_name(tag.name.as_bytes()).with_attributes(pairs);
    let mut writer = Writer::new(out);
    writer.write_event(Event::Start(start)).expect("a vector takes every byte");
    writer.into_inner()
}

/// Writes a tag without content with `quick_xml::Writer::write_event`, made by
/// `BytesStart::borrowed_name` and `with_attributes`: as an opening tag, but for a slash before
/// the closing bracket.
#[verifier::external_body]
fn write_empty(out: Vec<u8>, tag: &Tag) -> (r: Vec<u8>)
    ensures
        r@ == out@ + encode_utf8(event_text(XmlView::Empty(tag@))),
{
    let pairs = tag.attributes.iter().map(|a| (a.key.as_bytes(), a.value.as_bytes()));
    let start = BytesStart::borrowed_name(tag.name.as_bytes()).with_attributes(pairs);
    let mut writer = Writer::new(out);
    writer.write_event(Event::Empty(start)).expect("a vector takes every byte");
    writer.into_inner()
}

/// Writes a closing tag with `quick_xml::Writer::write_event`, made by `BytesEnd::borrowed`: the
/// name between `</` and `>`.
#[verifier::external_body]
fn write_end(out: Vec<u8>, name: &str) -> (r: Vec<u8>)
    ensures
        r@ == out@ + encode_utf8(event_text(XmlView::End(name@))),
{
    let mut writer = Writer::new(out);
    let end = BytesEnd::borrowed(name.as_bytes());
    writer.write_event(Event::End(end)).expect("a vector takes every byte");
    writer.into_inner()
}

/// Writes text with `quick_xml::Writer::write_event`, made by `BytesText::from_escaped_str`: the
/// text as it is.
#[verifier::external_body]
fn write_text(out: Vec<u8>, text: &str) -> (r: Vec<u8>)
    ensures
        r@ == out@ + encode_utf8(event_text(XmlView::Text(text@))),
{
    let mut writer = Writer::new(out);
    let text = BytesText::from_escaped_str(text);
    writer.write_event(Event::Text(text)).expect("a vector takes every byte");
    writer.into_inner()
}

/// Writes a declaration with `quick_xml::Writer::write_event`, made by `BytesDecl::new`: version
/// and encoding, each between quotes, in `<?xml ... ?>`.
#[verifier::external_body]
fn write_decl(out: Vec<u8>, version: &str, encoding: &str) -> (r: Vec<u8>)
    ensures
        r@ == out@ + encode_utf8(
            event_text(XmlView::Decl { version: version@, encoding: encoding@ }),
        ),
{
    let mut writer = Writer::new(out);
    let decl = BytesDecl::new(version.as_bytes(), Some(encoding.as_bytes()), None);
    writer.write_event(Event::Decl(decl)).expect("a vector takes every byte");
    writer.into_inner()
}

/// Adds an event to a document.
pub fn write_event(out: Vec<u8>, event: &XmlEvent) -> (r: Vec<u8>)
    ensures
        r@ == out@ + encode_utf8(event_text(event@)),
{
    match event {
        XmlEvent::Decl { version, encoding } => write_decl(
            out,
            version.as_str(),
            encoding.as_str(),
        ),
        XmlEvent::Start(tag) => write_start(out, tag),
        XmlEvent::Empty(tag) => write_empty(out, tag),
        XmlEvent::End(name) => write_end(out, name.as_str()),
        XmlEvent::Text(text) => write_text(out, text.as_str()),
    }
}

proof fn lemma_encode_concat(a: Seq<char>, b: Seq<char>)
    ensures
        encode_utf8(a + b) == encode_utf8(a) + encode_utf8(b),
    decreases a.len(),
{
    if a.len() == 0 {
        assert(a + b =~= b);
        assert(encode_utf8(a) + encode_utf8(b) =~= encode_utf8(b));
    } else {
        lemma_encode_concat(a.drop_first(), b);
        assert((a + b).drop_first() =~= a.drop_first() + b);
        assert((a + b)[0] == a[0]);
    }
}

/// Writes a document.
pub fn write_events(events: &Vec<XmlEvent>) -> (r: Vec<u8>)
    ensures
        r@ == encode_utf8(document_text(views(events@))),
{
    let mut out: Vec<u8> = Vec::new();
    let ghost all = views(events@);
    assert(all.take(0) =~= seq![]);
    for i in 0..events.len()
        invariant
            all == views(events@),
            out@ == encode_utf8(document_text(all.take(i as int))),
    {
        assert(all.take(i + 1).drop_last() =~= all.take(i as int));
        proof {
            lemma_encode_concat(document_text(all.take(i as int)), event_text(all[i as int]));
        }
        out = write_event(out, &events[i]);
    }
    assert(all.take(events@.len() as int) =~= all);
    out
}

/// The names of the tags that the given events leave open, innermost last. `None` if a closing
/// tag does not match.
pub open spec fn nest(events: Seq<XmlView>) -> Option<Seq<Seq<char>>>
    decreases events.len(),
{
    if events.len() == 0 {
        Some(seq![])
    } else {
        match nest(events.drop_last()) {
            None => None,
            Some(now) => match events.last() {
                XmlView::Start(tag) => Some(now.push(tag.name)),
                XmlView::End(name) => if now.len() > 0 && now.last() == name {
                    Some(now.drop_last())
                } else {
                    None
                },
                _ => Some(now),
            },
        }
    }
}

/// Every tag that the events open is closed again, in the right order.
pub open spec fn well_nested(events: Seq<XmlView>) -> bool {
    nest(events) == Some(Seq::<Seq<char>>::empty())
}

proof fn lemma_nest_concat(a: Seq<XmlView>, b: Seq<XmlView>)
    requires
        nest(a) is Some,
        nest(b) is Some,
    ensures
        nest(a + b) == Some(nest(a)->Some_0 + nest(b)->Some_0),
    decreases b.len(),
{
    let low = nest(a)->Some_0;
    if b.len() == 0 {
        assert(a + b =~= a);
        assert(low + Seq::<Seq<char>>::empty() =~= low);
    } else {
        lemma_nest_concat(a, b.drop_last());
        assert((a + b).drop_last() =~= a + b.drop_last());
        let high = nest(b.drop_last())->Some_0;
        match b.last() {
            XmlView::Start(tag) => {
                assert((low + high).push(tag.name) =~= low + high.push(tag.name));
            },
            XmlView::End(name) => {
                assert((low + high).drop_last() =~= low + high.drop_last());
            },
            _ => {},
        }
    }
}

/// Well nested events may follow one another.
pub proof fn well_nested_concat(a: Seq<XmlView>, b: Seq<XmlView>)
    requires
        well_nested(a),
        well_nested(b),
    ensures
        well_nested(a + b),
{
    lemma_nest_concat(a, b);
    assert(Seq::<Seq<char>>::empty() + Seq::<Seq<char>>::empty() =~= seq![]);
}

/// Well nested events may be put into a tag.
pub proof fn well_nested_in_tag(tag: TagView, inner: Seq<XmlView>)
    requires
        well_nested(inner),
    ensures
        well_nested(seq![XmlView::Start(tag)] + inner + seq![XmlView::End(tag.name)]),
{
    reveal_with_fuel(nest, 2);
    let open = seq![XmlView::Start(tag)];
    assert(open.drop_last() =~= seq![]);
    assert(nest(open) == Some(seq![tag.name])) by {
        assert(Seq::<Seq<char>>::empty().push(tag.name) =~= seq![tag.name]);
    }
    lemma_nest_concat(open, inner);
    assert(seq![tag.name] + Seq::<Seq<char>>::empty() =~= seq![tag.name]);
    let whole = open + inner + seq![XmlView::End(tag.name)];
    assert(whole.drop_last() =~= open + inner);
    assert(seq![tag.name].drop_last() =~= seq![]);
}

/// An event that neither opens nor closes a tag is well nested by itself.
pub proof fn well_nested_single(event: XmlView)
    requires
        !(event is Start),
        !(event is End),
    ensures
        well_nested(seq![event]),
{
    reveal_with_fuel(nest, 2);
    assert(seq![event].drop_last() =~= seq![]);
}

/// A document is the text of its events and of nothing else: that of events that follow one another
/// is one text behind the other, and that of a single one is its own.
pub proof fn documents_follow_one_another(a: Seq<XmlView>, b: Seq<XmlView>, event: XmlView)
    ensures
        document_text(a + b) == document_text(a) + document_text(b),
        document_text(seq![event]) == event_text(event),
        document_text(seq![]) == Seq::<char>::empty(),
    decreases b.len(),
{
    if b.len() == 0 {
        assert(a + b =~= a);
        assert(document_text(a) + Seq::<char>::empty() =~= document_text(a));
    } else {
        documents_follow_one_another(a, b.drop_last(), event);
        assert((a + b).drop_last() =~= a + b.drop_last());
        let front = document_text(a);
        let middle = document_text(b.drop_last());
        let last = event_text(b.last());
        assert(front + middle + last =~= front + (middle + last));
    }
    reveal_with_fuel(document_text, 2);
    assert(seq![event].drop_last() =~= seq![]);
    assert(Seq::<char>::empty() + event_text(event) =~= event_text(event));
}

/// Between the brackets of a tag stands its name, and behind it each attribute with its value
/// between quotes, in order.
pub proof fn attributes_follow_one_another(
    tag: TagView,
    key: Seq<char>,
    value: Seq<char>,
)
    ensures
        tag.attributes.len() == 0 ==> tag_text(tag) == tag.name,
        tag_text(tag.with(key, value)) == tag_text(tag) + seq![' '] + key + seq!['=', '"'] + value
            + seq!['"'],
        tag.with(key, value).name == tag.name,
        tag.with(key, value).attributes == tag.attributes.push((key, value)),
{
    let more = tag.with(key, value);
    assert(more.attributes.drop_last() =~= tag.attributes);
    assert(tag_text(more) =~= tag_text(tag) + seq![' '] + key + seq!['=', '"'] + value + seq!['"']);
    if tag.attributes.len() == 0 {
        assert(tag.name + Seq::<char>::empty() =~= tag.name);
    }
}

/// How results of [`write_events`] relate: the bytes of events that follow one another are those of
/// the first ones and then those of the others.
pub proof fn written_events_follow_one_another(
    a: Vec<XmlEvent>,
    b: Vec<XmlEvent>,
    both: Vec<XmlEvent>,
    r: Vec<u8>,
    s: Vec<u8>,
    t: Vec<u8>,
)
    requires
        views(both@) == views(a@) + views(b@),
        call_ensures(write_events, (&a,), r),
        call_ensures(write_events, (&b,), s),
        call_ensures(write_events, (&both,), t),
    ensures
        t@ == r@ + s@,
{
    documents_follow_one_another(views(a@), views(b@), XmlView::End(seq![]));
    lemma_encode_concat(document_text(views(a@)), document_text(views(b@)));
}

/// What [`write_events`] returns of a single event is what [`write_event`] adds for it.
pub proof fn one_event_is_written(
    event: XmlEvent,
    events: Vec<XmlEvent>,
    r: Vec<u8>,
    s: Vec<u8>,
    out: Vec<u8>,
)
    requires
        events@ == seq![event],
        call_ensures(write_events, (&events,), r),
        call_ensures(write_event, (out, &event), s),
    ensures
        s@ == out@ + r@,
        r@ == encode_utf8(event_text(event@)),
{
    assert(views(events@) =~= seq![event@]);
    documents_follow_one_another(seq![], seq![], event@);
}

} // verus!
