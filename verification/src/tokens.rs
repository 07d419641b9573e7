//! The trusted tokenizer boundary.
//!
//! General XML tokenization is not this library's subject: quick-xml
//! turns the body text into a stream of events, and everything from the
//! token stream on — grammar, schema, domain — is verified.  This module
//! declares the reader, wraps the two calls the library makes into it,
//! and flattens the event stream into plain [`Tok`] values, resolving
//! the predefined character entities on the way.

use vstd::prelude::*;
use vstd::string::StrSliceExecFns;
use vstd::string::StringExecFns;

use quick_xml::events::Event;

use crate::text::str_eq;

verus! {

/// A token of the body text, as the schema decoder consumes it: an
/// opening tag, a closing tag, or character data (with entities already
/// resolved).
#[derive(Debug, Clone, PartialEq)]
pub enum Tok {
    Start(String),
    End(String),
    Text(String),
}

/// The view of a token: the same shape over character sequences.
pub enum TokV {
    Start(Seq<char>),
    End(Seq<char>),
    Text(Seq<char>),
}

pub open spec fn tok_view(t: Tok) -> TokV {
    match t {
        Tok::Start(n) => TokV::Start(n@),
        Tok::End(n) => TokV::End(n@),
        Tok::Text(n) => TokV::Text(n@),
    }
}

pub open spec fn toks_view(ts: Seq<Tok>) -> Seq<TokV> {
    ts.map_values(|t: Tok| tok_view(t))
}

/// One event as the reader hands it over, reduced to plain values.
pub enum RawEvent {
    /// `<TAG ...>`, carrying the tag name.
    Start(String),
    /// `</TAG>`, carrying the tag name.
    End(String),
    /// `<TAG ... />`, carrying the tag name.
    Empty(String),
    /// Character data between tags, unresolved.
    Text(String),
    /// CDATA content.
    CData(String),
    /// A general or character reference `&...;`, carrying the name
    /// between `&` and `;`.
    Ref(String),
    /// A declaration, comment, processing instruction or DTD: nothing
    /// the schema cares about.
    Skip,
    /// End of the text.
    Eof,
    /// A malformed-XML report from the reader.
    Fail(String),
}

/// Declares `quick_xml::Reader`, the trusted XML reader, as an opaque
/// type so that the wrappers below can hold one.
#[verifier::external_type_specification]
#[verifier::external_body]
#[verifier::reject_recursive_types(R)]
pub struct ExReader<R>(quick_xml::Reader<R>);

/// Relies on `quick_xml::Reader::from_str`: makes an XML reader over the
/// body text.  Nothing is assumed of the reader's state.
#[verifier::external_body]
fn reader_from_str<'a>(s: &'a str) -> quick_xml::Reader<&'a [u8]> {
    quick_xml::Reader::from_str(s)
}

/// Relies on `quick_xml::Reader::read_event`: hands back the reader's
/// next event, reduced to a plain value.  Nothing is assumed of which
/// event comes back; the callers state what holds of every outcome.
#[verifier::external_body]
fn read_raw_event<'a>(r: &mut quick_xml::Reader<&'a [u8]>) -> RawEvent {
    match r.read_event() {
        Ok(Event::Start(e)) => RawEvent::Start(e.name().0.to_string()),
        Ok(Event::End(e)) => RawEvent::End(e.name().0.to_string()),
        Ok(Event::Empty(e)) => RawEvent::Empty(e.name().0.to_string()),
        Ok(Event::Text(t)) => RawEvent::Text(t.as_ref().to_string()),
        Ok(Event::CData(t)) => RawEvent::CData(t.as_ref().to_string()),
        Ok(Event::GeneralRef(t)) => RawEvent::Ref(t.as_ref().to_string()),
        Ok(Event::Eof) => RawEvent::Eof,
        Ok(_) => RawEvent::Skip,
        Err(e) => RawEvent::Fail(format!("{e}")),
    }
}

/// What each predefined XML entity stands for; `None` for any other
/// reference name.
pub open spec fn ref_expansion(name: Seq<char>) -> Option<Seq<char>> {
    if name == "amp"@ {
        Some("&"@)
    } else if name == "lt"@ {
        Some("<"@)
    } else if name == "gt"@ {
        Some(">"@)
    } else if name == "apos"@ {
        Some("'"@)
    } else if name == "quot"@ {
        Some("\""@)
    } else {
        None
    }
}

/// Resolves a predefined entity reference by name.
fn resolve_ref(name: &str) -> (r: Option<&'static str>)
    ensures
        match r {
            Some(t) => ref_expansion(name@) == Some(t@),
            None => ref_expansion(name@) is None,
        },
{
    if str_eq(name, "amp") {
        Some("&")
    } else if str_eq(name, "lt") {
        Some("<")
    } else if str_eq(name, "gt") {
        Some(">")
    } else if str_eq(name, "apos") {
        Some("'")
    } else if str_eq(name, "quot") {
        Some("\"")
    } else {
        None
    }
}

/// Runs the trusted reader over the body text and collects its events as
/// plain tokens: tag names for `Start`/`End`, character data with the
/// predefined entities resolved for `Text`.  Declarations, comments and
/// processing instructions are dropped.  A reader error, an empty
/// element, an unknown entity or an event stream longer than the text
/// yields `Err` with the cause.
///
/// Which tokens come back is up to the trusted reader, so nothing more
/// is promised here; the decoding of the tokens into a document is the
/// verified part, and its contracts live on the token consumers.
pub(crate) fn tokenize(body: &str) -> (r: Result<Vec<Tok>, String>) {
    let len = body.unicode_len();
    if len == usize::MAX {
        return Err(String::from_str("body too long"));
    }
    let cap = len + 1;
    let mut reader = reader_from_str(body);
    let mut toks: Vec<Tok> = Vec::new();
    let mut i: usize = 0;
    while i < cap
        invariant
            i <= cap,
        decreases cap - i,
    {
        match read_raw_event(&mut reader) {
            RawEvent::Eof => {
                return Ok(toks);
            },
            RawEvent::Fail(m) => {
                return Err(m);
            },
            RawEvent::Empty(n) => {
                let mut m = String::from_str("empty element not allowed in the body: ");
                m.append(n.as_str());
                return Err(m);
            },
            RawEvent::Start(n) => {
                toks.push(Tok::Start(n));
            },
            RawEvent::End(n) => {
                toks.push(Tok::End(n));
            },
            RawEvent::Text(t) => {
                toks.push(Tok::Text(t));
            },
            RawEvent::CData(t) => {
                toks.push(Tok::Text(t));
            },
            RawEvent::Ref(n) => {
                match resolve_ref(n.as_str()) {
                    Some(t) => {
                        toks.push(Tok::Text(String::from_str(t)));
                    },
                    None => {
                        let mut m = String::from_str("unknown entity reference: ");
                        m.append(n.as_str());
                        return Err(m);
                    },
                }
            },
            RawEvent::Skip => {},
        }
        i += 1;
    }
    Err(String::from_str("more body events than characters"))
}

} // verus!
