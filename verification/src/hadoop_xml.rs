//! Reading Hadoop XML configuration files (core-site.xml, hdfs-site.xml, ...):
//!
//! ```xml
//! <configuration>
//!   <property>
//!     <name>fs.defaultFS</name>
//!     <value>hdfs://namenode:8020</value>
//!   </property>
//! </configuration>
//! ```
//!
//! The XML is tokenized by quick-xml; the events it yields drive a small
//! verified state machine that collects the name/value pairs.
use vstd::prelude::*;
use crate::props::StringMap;
use crate::text::{opt_view, trim_ws, trim_both, Trim};

verus! {

/// `quick_xml::Reader`, the XML tokenizer; opaque here.
#[verifier::external_type_specification]
#[verifier::external_body]
#[verifier::reject_recursive_types(R)]
pub struct ExXmlReader<R>(quick_xml::Reader<R>);

/// An XML event as the property collector sees it: element names as bytes,
/// text already unescaped (or the unescaping error), and every other kind of
/// event (empty elements, comments, CDATA, declarations, ...) as `Other`.
#[derive(Debug)]
pub enum XmlEvent {
    Start(Vec<u8>),
    End(Vec<u8>),
    Text(Result<String, String>),
    Eof,
    Error(String),
    Other,
}

pub enum XmlEventView {
    Start(Seq<u8>),
    End(Seq<u8>),
    Text(Result<Seq<char>, Seq<char>>),
    Eof,
    Error(Seq<char>),
    Other,
}

impl View for XmlEvent {
    type V = XmlEventView;

    open spec fn view(&self) -> XmlEventView {
        match self {
            XmlEvent::Start(n) => XmlEventView::Start(n@),
            XmlEvent::End(n) => XmlEventView::End(n@),
            XmlEvent::Text(Ok(t)) => XmlEventView::Text(Ok(t@)),
            XmlEvent::Text(Err(e)) => XmlEventView::Text(Err(e@)),
            XmlEvent::Eof => XmlEventView::Eof,
            XmlEvent::Error(e) => XmlEventView::Error(e@),
            XmlEvent::Other => XmlEventView::Other,
        }
    }
}

/// A quick-xml reader over a text; its view is the text and the number of
/// events read from it so far.
pub struct XmlCursor<'a> {
    reader: quick_xml::Reader<&'a [u8]>,
    text: Ghost<Seq<char>>,
    read: Ghost<nat>,
}

impl<'a> View for XmlCursor<'a> {
    type V = (Seq<char>, nat);

    closed spec fn view(&self) -> (Seq<char>, nat) {
        (self.text@, self.read@)
    }
}

/// The event that `quick_xml::Reader::read_event` yields the `k`-th time
/// (from 0) on a reader made by `quick_xml::Reader::from_str(text)`.
pub uninterp spec fn xml_event_at(text: Seq<char>, k: nat) -> XmlEventView;

/// `quick_xml::Reader::buffer_position` of a reader made by
/// `quick_xml::Reader::from_str(text)` after `k` events: how far into the text
/// it has read.
pub uninterp spec fn xml_position_at(text: Seq<char>, k: nat) -> u64;

/// Wraps `quick_xml::Reader::from_str`.
#[verifier::external_body]
fn xml_reader<'a>(xml: &'a str) -> (r: XmlCursor<'a>)
    ensures
        r@ == (xml@, 0nat),
{
    XmlCursor { reader: quick_xml::Reader::from_str(xml), text: Ghost(xml@), read: Ghost(0) }
}

/// Wraps `quick_xml::Reader::read_event`, giving the event as an `XmlEvent`
/// (names by `name()`, text through `unescape()`, errors by their display
/// text). With the default configuration of a reader every event other than
/// the end of input and an error consumes input, so the position advances.
#[verifier::external_body]
fn xml_next<'a>(r: &mut XmlCursor<'a>) -> (ev: XmlEvent)
    ensures
        final(r)@ == (old(r)@.0, old(r)@.1 + 1),
        ev@ == xml_event_at(old(r)@.0, old(r)@.1),
        ev is Eof || ev is Error || xml_position_at(old(r)@.0, old(r)@.1) < xml_position_at(
            old(r)@.0,
            old(r)@.1 + 1,
        ),
{
    r.read = Ghost(r.read@ + 1);
    match r.reader.read_event() {
        Ok(quick_xml::events::Event::Start(e)) => XmlEvent::Start(e.name().as_ref().to_vec()),
        Ok(quick_xml::events::Event::End(e)) => XmlEvent::End(e.name().as_ref().to_vec()),
        Ok(quick_xml::events::Event::Text(e)) => XmlEvent::Text(
            e.unescape().map(|t| t.into_owned()).map_err(|x| x.to_string()),
        ),
        Ok(quick_xml::events::Event::Eof) => XmlEvent::Eof,
        Ok(_) => XmlEvent::Other,
        Err(e) => XmlEvent::Error(e.to_string()),
    }
}

// ─── The property collector ─────────────────────────────────────────────────

/// Collects `<property><name>..</name><value>..</value></property>` pairs.
pub struct PropertyCollector {
    pub props: StringMap,
    pub current_name: Option<String>,
    pub current_value: Option<String>,
    pub in_name: bool,
    pub in_value: bool,
}

pub struct CollectorView {
    pub props: Map<Seq<char>, Seq<char>>,
    pub current_name: Option<Seq<char>>,
    pub current_value: Option<Seq<char>>,
    pub in_name: bool,
    pub in_value: bool,
}

impl View for PropertyCollector {
    type V = CollectorView;

    open spec fn view(&self) -> CollectorView {
        CollectorView {
            props: self.props@,
            current_name: opt_view(self.current_name),
            current_value: opt_view(self.current_value),
            in_name: self.in_name,
            in_value: self.in_value,
        }
    }
}

/// What the collector does next after an event.
pub enum Step {
    Continue,
    Finished,
    Failed(String),
}

pub open spec fn initial_collector() -> CollectorView {
    CollectorView {
        props: Map::empty(),
        current_name: None,
        current_value: None,
        in_name: false,
        in_value: false,
    }
}

/// The state after an event that neither ends nor fails the reading.
pub open spec fn collector_step(c: CollectorView, ev: XmlEventView) -> CollectorView {
    match ev {
        XmlEventView::Start(n) => if n == "property"@.map_values(|ch: char| ch as u8) {
            CollectorView {
                current_name: None,
                current_value: None,
                in_name: false,
                in_value: false,
                ..c
            }
        } else if n == "name"@.map_values(|ch: char| ch as u8) {
            CollectorView { in_name: true, ..c }
        } else if n == "value"@.map_values(|ch: char| ch as u8) {
            CollectorView { in_value: true, ..c }
        } else {
            c
        },
        XmlEventView::Text(Ok(t)) => if c.in_name {
            CollectorView { current_name: Some(trim_both(t, Trim::Whitespace)), ..c }
        } else if c.in_value {
            CollectorView { current_value: Some(trim_both(t, Trim::Whitespace)), ..c }
        } else {
            c
        },
        XmlEventView::End(n) => if n == "name"@.map_values(|ch: char| ch as u8) {
            CollectorView { in_name: false, ..c }
        } else if n == "value"@.map_values(|ch: char| ch as u8) {
            CollectorView { in_value: false, ..c }
        } else if n == "property"@.map_values(|ch: char| ch as u8) {
            let props = match (c.current_name, c.current_value) {
                (Some(k), Some(v)) => c.props.insert(k, v),
                _ => c.props,
            };
            CollectorView { props, current_name: None, current_value: None, ..c }
        } else {
            c
        },
        _ => c,
    }
}

/// Whether an event ends the reading: the end of input, a reader error, or
/// text that cannot be unescaped.
pub open spec fn event_outcome(ev: XmlEventView) -> Option<Result<(), Seq<char>>> {
    match ev {
        XmlEventView::Eof => Some(Ok(())),
        XmlEventView::Error(m) => Some(Err(m)),
        XmlEventView::Text(Err(m)) => Some(Err(m)),
        _ => None,
    }
}

/// The result of reading the events of `text` from the `k`-th on into `c`.
pub open spec fn xml_run(text: Seq<char>, k: nat, c: CollectorView) -> Result<
    Map<Seq<char>, Seq<char>>,
    Seq<char>,
>
    decreases u64::MAX - xml_position_at(text, k),
{
    let ev = xml_event_at(text, k);
    match event_outcome(ev) {
        Some(Ok(())) => Ok(c.props),
        Some(Err(m)) => Err(m),
        None => if xml_position_at(text, k) < xml_position_at(text, k + 1) {
            xml_run(text, k + 1, collector_step(c, ev))
        } else {
            Err(Seq::empty())
        },
    }
}

/// The properties of a Hadoop XML text, or the error that stops the reading.
pub open spec fn hadoop_xml_result(xml: Seq<char>) -> Result<Map<Seq<char>, Seq<char>>, Seq<char>> {
    xml_run(xml, 0, initial_collector())
}

fn bytes_are(b: &Vec<u8>, word: &str) -> (r: bool)
    requires
        word.is_ascii(),
    ensures
        r == (b@ == word@.map_values(|ch: char| ch as u8)),
{
    let w = word.as_bytes();
    proof {
        vstd::string::is_ascii_spec_bytes(word);
        assert(w@ =~= word@.map_values(|ch: char| ch as u8));
    }
    if b.len() != w.len() {
        return false;
    }
    let mut i: usize = 0;
    while i < b.len()
        invariant
            b.len() == w@.len(),
            w@ == word@.map_values(|ch: char| ch as u8),
            i <= b.len(),
            forall|j: int| 0 <= j < i ==> b@[j] == w@[j],
        decreases b.len() - i,
    {
        if b[i] != w[i] {
            assert(b@[i as int] != w@[i as int]);
            return false;
        }
        i += 1;
    }
    assert(b@ =~= w@);
    true
}

impl PropertyCollector {
    /// A collector that has seen nothing.
    pub fn new() -> (c: Self)
        ensures
            c@ == initial_collector(),
    {
        PropertyCollector {
            props: StringMap::new(),
            current_name: None,
            current_value: None,
            in_name: false,
            in_value: false,
        }
    }

    /// Take one event: the end of input finishes the reading, an error fails
    /// it with its message, and every other event updates the state.
    pub fn step(&mut self, ev: XmlEvent) -> (r: Step)
        ensures
            match event_outcome(ev@) {
                Some(Ok(())) => r is Finished && final(self)@ == old(self)@,
                Some(Err(m)) => r matches Step::Failed(e) && e@ == m && final(self)@ == old(self)@,
                None => r is Continue && final(self)@ == collector_step(old(self)@, ev@),
            },
    {
        proof {
            reveal_strlit("property");
            reveal_strlit("name");
            reveal_strlit("value");
        }
        match ev {
            XmlEvent::Start(n) => {
                if bytes_are(&n, "property") {
                    self.current_name = None;
                    self.current_value = None;
                    self.in_name = false;
                    self.in_value = false;
                } else if bytes_are(&n, "name") {
                    self.in_name = true;
                } else if bytes_are(&n, "value") {
                    self.in_value = true;
                }
                Step::Continue
            },
            XmlEvent::Text(Ok(t)) => {
                let text = trim_ws(t.as_str());
                if self.in_name {
                    self.current_name = Some(text);
                } else if self.in_value {
                    self.current_value = Some(text);
                }
                Step::Continue
            },
            XmlEvent::Text(Err(e)) => Step::Failed(e),
            XmlEvent::End(n) => {
                if bytes_are(&n, "name") {
                    self.in_name = false;
                } else if bytes_are(&n, "value") {
                    self.in_value = false;
                } else if bytes_are(&n, "property") {
                    let k = self.current_name.take();
                    let v = self.current_value.take();
                    if let (Some(k), Some(v)) = (k, v) {
                        self.props.insert(k, v);
                    }
                }
                Step::Continue
            },
            XmlEvent::Eof => Step::Finished,
            XmlEvent::Error(e) => Step::Failed(e),
            XmlEvent::Other => Step::Continue,
        }
    }
}

/// Parse a Hadoop XML configuration text into its property map.
pub fn parse_hadoop_xml(xml: &str) -> (r: Result<StringMap, String>)
    ensures
        match (r, hadoop_xml_result(xml@)) {
            (Ok(m), Ok(props)) => m@ == props,
            (Err(e), Err(msg)) => e@ == msg,
            _ => false,
        },
{
    let mut reader = xml_reader(xml);
    let mut collector = PropertyCollector::new();
    loop
        invariant
            reader@.0 == xml@,
            hadoop_xml_result(xml@) == xml_run(xml@, reader@.1, collector@),
        decreases u64::MAX - xml_position_at(xml@, reader@.1),
    {
        let ev = xml_next(&mut reader);
        match collector.step(ev) {
            Step::Continue => {},
            Step::Finished => {
                return Ok(collector.props);
            },
            Step::Failed(e) => {
                return Err(e);
            },
        }
    }
}

} // verus!
