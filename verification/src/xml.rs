//! XML documents as lists of events, read with quick-xml.
use quick_xml::events::BytesStart;
use quick_xml::events::Event;
use quick_xml::Reader;
use std::borrow::Cow;
use vstd::prelude::*;

verus! {

// ---------------------------------------------------------------------------
// Events

/// An attribute of a tag. `value` is the unescaped value, or `None` where it
/// could not be unescaped.
#[derive(Debug)]
pub struct XmlAttr {
    pub key: Vec<u8>,
    pub value: Option<String>,
}

/// An opening or self-closing tag. An attribute that could not be read is
/// `None`.
#[derive(Debug)]
pub struct XmlTag {
    pub name: Vec<u8>,
    pub attrs: Vec<Option<XmlAttr>>,
}

/// One event of an XML document.
#[derive(Debug)]
pub enum XmlEvent {
    /// `<name ...>`
    Start(XmlTag),
    /// `<name .../>`
    Empty(XmlTag),
    /// `</name>`
    End(Vec<u8>),
    /// Character data, unescaped; `None` where it could not be unescaped.
    Text(Option<String>),
    /// The content of a CDATA section.
    CData(Vec<u8>),
    /// A declaration, comment, processing instruction or document type.
    Other,
    /// The end of the document.
    Eof,
    /// The document is malformed here; the message says how.
    Malformed(String),
}

/// The model of an attribute.
pub struct AttrToken {
    pub key: Seq<u8>,
    pub value: Option<Seq<char>>,
}

/// The model of a tag.
pub struct TagToken {
    pub name: Seq<u8>,
    pub attrs: Seq<Option<AttrToken>>,
}

/// The model of an event.
pub enum XmlToken {
    Start(TagToken),
    Empty(TagToken),
    End(Seq<u8>),
    Text(Option<Seq<char>>),
    CData(Seq<u8>),
    Other,
    Eof,
    Malformed(Seq<char>),
}

impl DeepView for XmlAttr {
    type V = AttrToken;

    open spec fn deep_view(&self) -> AttrToken {
        AttrToken { key: self.key@, value: self.value.deep_view() }
    }
}

impl DeepView for XmlTag {
    type V = TagToken;

    open spec fn deep_view(&self) -> TagToken {
        TagToken { name: self.name@, attrs: self.attrs.deep_view() }
    }
}

impl DeepView for XmlEvent {
    type V = XmlToken;

    open spec fn deep_view(&self) -> XmlToken {
        match self {
            XmlEvent::Start(t) => XmlToken::Start(t.deep_view()),
            XmlEvent::Empty(t) => XmlToken::Empty(t.deep_view()),
            XmlEvent::End(n) => XmlToken::End(n@),
            XmlEvent::Text(t) => XmlToken::Text(t.deep_view()),
            XmlEvent::CData(d) => XmlToken::CData(d@),
            XmlEvent::Other => XmlToken::Other,
            XmlEvent::Eof => XmlToken::Eof,
            XmlEvent::Malformed(m) => XmlToken::Malformed(m@),
        }
    }
}

/// Whether nothing is read after this event.
pub open spec fn is_last(e: XmlToken) -> bool {
    e is Eof || e is Malformed
}

/// The events up to the first one after which nothing is read, which is
/// included; an end of document stands in for it where there is none.
pub open spec fn until_last(events: Seq<XmlToken>) -> Seq<XmlToken>
    decreases events.len(),
{
    if events.len() == 0 {
        seq![XmlToken::Eof]
    } else if is_last(events[0]) {
        seq![events[0]]
    } else {
        seq![events[0]] + until_last(events.drop_first())
    }
}

// ---------------------------------------------------------------------------
// quick-xml

/// The reader of quick-xml, here over bytes in memory.
#[verifier::external_type_specification]
#[verifier::external_body]
#[verifier::reject_recursive_types(R)]
pub struct ExReader<R>(Reader<R>);

/// An opening tag of quick-xml, which holds the tag's attributes.
#[verifier::external_type_specification]
#[verifier::external_body]
pub struct ExBytesStart<'a>(BytesStart<'a>);

/// The events that a reader of quick-xml yields on a document, up to and
/// including the end of the document.
pub uninterp spec fn xml_events(
    input: Seq<u8>,
    trim_text: bool,
    check_end_names: bool,
    allow_unmatched_ends: bool,
) -> Seq<XmlToken>;

/// The events that a reader still holds, in the order in which it yields
/// them.
pub uninterp spec fn pending_events(r: Reader<&[u8]>) -> Seq<XmlToken>;

/// The attributes that a tag holds.
pub uninterp spec fn tag_attributes(t: BytesStart<'static>) -> Seq<Option<AttrToken>>;

/// The name that a tag has.
pub uninterp spec fn tag_name(t: BytesStart<'static>) -> Seq<u8>;

/// An event of quick-xml, with its tag still unread.
enum RawEvent {
    Start(BytesStart<'static>),
    Empty(BytesStart<'static>),
    End(Vec<u8>),
    Text(Option<String>),
    CData(Vec<u8>),
    Other,
    Eof,
    Malformed(String),
}

impl RawEvent {
    spec fn token(self) -> XmlToken {
        match self {
            RawEvent::Start(t) => XmlToken::Start(
                TagToken { name: tag_name(t), attrs: tag_attributes(t) },
            ),
            RawEvent::Empty(t) => XmlToken::Empty(
                TagToken { name: tag_name(t), attrs: tag_attributes(t) },
            ),
            RawEvent::End(n) => XmlToken::End(n@),
            RawEvent::Text(t) => XmlToken::Text(t.deep_view()),
            RawEvent::CData(d) => XmlToken::CData(d@),
            RawEvent::Other => XmlToken::Other,
            RawEvent::Eof => XmlToken::Eof,
            RawEvent::Malformed(m) => XmlToken::Malformed(m@),
        }
    }
}

/// `Reader::from_reader` of quick-xml with the three settings of its `Config`.
/// Claimed: the reader holds the events of the document under these settings,
/// which depend on the bytes and the settings alone.
#[verifier::external_body]
fn open_reader<'a>(
    input: &'a [u8],
    trim_text: bool,
    check_end_names: bool,
    allow_unmatched_ends: bool,
) -> (r: Reader<&'a [u8]>)
    ensures
        pending_events(r) == xml_events(input@, trim_text, check_end_names, allow_unmatched_ends),
{
    let mut reader = Reader::from_reader(input);
    let config = reader.config_mut();
    config.trim_text(trim_text);
    config.check_end_names = check_end_names;
    config.allow_unmatched_ends = allow_unmatched_ends;
    reader
}

/// `Reader::read_event_into` of quick-xml, with `BytesText::unescape` for
/// character data. Claimed: it yields the first of the events that the reader
/// holds and leaves the others; a reader that holds none is at the end of the
/// document and says so.
#[verifier::external_body]
fn read_event(reader: &mut Reader<&[u8]>) -> (e: RawEvent)
    ensures
        pending_events(*old(reader)).len() == 0 ==> e.token() == XmlToken::Eof && pending_events(
            *final(reader),
        ) == pending_events(*old(reader)),
        pending_events(*old(reader)).len() > 0 ==> e.token() == pending_events(*old(reader))[0]
            && pending_events(*final(reader)) == pending_events(*old(reader)).drop_first(),
{
    match reader.read_event_into(&mut Vec::new()) {
        Ok(Event::Start(tag)) => RawEvent::Start(tag.into_owned()),
        Ok(Event::Empty(tag)) => RawEvent::Empty(tag.into_owned()),
        Ok(Event::End(tag)) => RawEvent::End(tag.name().as_ref().to_vec()),
        Ok(Event::Text(text)) => RawEvent::Text(text.unescape().ok().map(Cow::into_owned)),
        Ok(Event::CData(data)) => RawEvent::CData(data.to_vec()),
        Ok(Event::Eof) => RawEvent::Eof,
        Ok(_) => RawEvent::Other,
        Err(error) => RawEvent::Malformed(error.to_string()),
    }
}

/// `BytesStart::name` of quick-xml. Claimed: the bytes of the tag's name.
#[verifier::external_body]
fn name_of(tag: &BytesStart<'static>) -> (name: Vec<u8>)
    ensures
        name@ == tag_name(*tag),
{
    tag.name().as_ref().to_vec()
}

/// `BytesStart::attributes` of quick-xml, without its check for duplicates,
/// and `Attribute::unescape_value`. Claimed: the attributes that the tag
/// holds, in order.
#[verifier::external_body]
fn attributes_of(tag: &BytesStart<'static>) -> (attrs: Vec<Option<XmlAttr>>)
    ensures
        attrs.deep_view() == tag_attributes(*tag),
{
    tag.attributes().with_checks(false).map(
        |attr|
            attr.ok().map(
                |a|
                    XmlAttr {
                        key: a.key.as_ref().to_vec(),
                        value: a.unescape_value().ok().map(Cow::into_owned),
                    },
            ),
    ).collect()
}

/// The event with its tag read.
fn plain_event(e: RawEvent) -> (r: XmlEvent)
    ensures
        r.deep_view() == e.token(),
{
    match e {
        RawEvent::Start(t) => XmlEvent::Start(
            XmlTag { name: name_of(&t), attrs: attributes_of(&t) },
        ),
        RawEvent::Empty(t) => XmlEvent::Empty(
            XmlTag { name: name_of(&t), attrs: attributes_of(&t) },
        ),
        RawEvent::End(n) => XmlEvent::End(n),
        RawEvent::Text(t) => XmlEvent::Text(t),
        RawEvent::CData(d) => XmlEvent::CData(d),
        RawEvent::Other => XmlEvent::Other,
        RawEvent::Eof => XmlEvent::Eof,
        RawEvent::Malformed(m) => XmlEvent::Malformed(m),
    }
}

/// The events of the document in `input`, up to its end or to the first place
/// where it is malformed.
pub fn read_events(
    input: &[u8],
    trim_text: bool,
    check_end_names: bool,
    allow_unmatched_ends: bool,
) -> (events: Vec<XmlEvent>)
    ensures
        events.deep_view() == until_last(
            xml_events(input@, trim_text, check_end_names, allow_unmatched_ends),
        ),
{
    let mut reader = open_reader(input, trim_text, check_end_names, allow_unmatched_ends);
    let ghost all = pending_events(reader);
    let mut events: Vec<XmlEvent> = Vec::new();
    assert(events.deep_view() + until_last(pending_events(reader)) =~= until_last(all));
    loop
        invariant
            events.deep_view() + until_last(pending_events(reader)) == until_last(all),
            all == xml_events(input@, trim_text, check_end_names, allow_unmatched_ends),
        decreases pending_events(reader).len(),
    {
        let ghost before = events.deep_view();
        let event = plain_event(read_event(&mut reader));
        let last = match &event {
            XmlEvent::Eof => true,
            XmlEvent::Malformed(_) => true,
            _ => false,
        };
        let ghost token = event.deep_view();
        events.push(event);
        assert(events.deep_view() =~= before.push(token));
        if last {
            assert(events.deep_view() =~= until_last(all));
            return events;
        }
        assert(events.deep_view() + until_last(pending_events(reader)) =~= until_last(all));
    }
}

// ---------------------------------------------------------------------------
// Reading tags

/// Whether `name` is the name `s`.
pub open spec fn is_name(name: Seq<u8>, s: Seq<char>) -> bool {
    name == vstd::utf8::encode_utf8(s)
}

/// `is_name`, executable.
pub fn named(name: &Vec<u8>, s: &str) -> (r: bool)
    ensures
        r == is_name(name@, s@),
{
    let bytes = s.as_bytes();
    if name.len() != bytes.len() {
        return false;
    }
    let mut i: usize = 0;
    while i < bytes.len()
        invariant
            i <= bytes@.len(),
            name@.len() == bytes@.len(),
            bytes@ == vstd::utf8::encode_utf8(s@),
            forall|k: int| 0 <= k < i ==> name@[k] == bytes@[k],
        decreases bytes@.len() - i,
    {
        if name[i] != bytes[i] {
            return false;
        }
        i += 1;
    }
    assert(name@ =~= bytes@);
    true
}

/// The value of the first attribute with the key `key` whose value could be
/// unescaped.
pub open spec fn attribute(attrs: Seq<Option<AttrToken>>, key: Seq<char>) -> Option<Seq<char>>
    decreases attrs.len(),
{
    if attrs.len() == 0 {
        None
    } else {
        match attrs[0] {
            Some(a) if is_name(a.key, key) && a.value is Some => a.value,
            _ => attribute(attrs.drop_first(), key),
        }
    }
}

/// `attribute`, executable.
pub fn attr_get(tag: &XmlTag, key: &str) -> (r: Option<String>)
    ensures
        r.deep_view() == attribute(tag.deep_view().attrs, key@),
{
    let ghost all = tag.attrs.deep_view();
    let mut i: usize = 0;
    assert(all.skip(0) =~= all);
    while i < tag.attrs.len()
        invariant
            i <= tag.attrs@.len(),
            all == tag.attrs.deep_view(),
            attribute(all, key@) == attribute(all.skip(i as int), key@),
        decreases tag.attrs@.len() - i,
    {
        assert(all.skip(i as int)[0] == tag.attrs@[i as int].deep_view());
        assert(all.skip(i as int).drop_first() =~= all.skip(i + 1));
        if let Some(a) = &tag.attrs[i] {
            if named(&a.key, key) {
                if let Some(v) = &a.value {
                    return Some(v.clone());
                }
            }
        }
        i += 1;
    }
    None
}

} // verus!
