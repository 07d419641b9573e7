//! Decoder for OFX 1.02 financial-statement files.
//!
//! An OFX 1.02 file is a plain-text header of `KEY:VALUE` lines followed
//! by an XML-flavoured body.  The library splits the two regions, decodes
//! the header, decodes the body against the fixed bank-statement schema,
//! and normalizes the result into a typed document.  Tokenizing the body
//! text is delegated to quick-xml and trusted; everything else — the
//! splitter, the header decoder, the body grammar and schema, the
//! timestamp decoder and the domain normalizer — is verified.

use vstd::prelude::*;
use vstd::string::StrSliceExecFns;
use vstd::string::StringExecFns;

pub mod amount;
pub mod body;
pub mod datetime;
pub mod display;
pub mod domain;
pub mod error;
pub mod header;
pub mod normalize;
pub mod split;
pub mod structure;
pub mod text;
pub mod tokens;
pub mod tree;

use crate::body::body_matches;
use crate::body::body_wf;
use crate::body::parse_body_forest;
use crate::datetime::DtError;
use crate::datetime::OfxDateTime;
use crate::datetime::dt_error_message;
use crate::datetime::spec_parse_datetime;
use crate::domain::OfxDocument;
use crate::domain::OfxHeader;
use crate::domain::StatementTransactionResponse;
use crate::error::OfxError;
use crate::error::OfxResult;
use crate::header::HeaderOutcome;
use crate::header::header_matches;
use crate::header::header_outcome;
use crate::normalize::stmttrnrs_into_ok;
use crate::split::find_body_start;
use crate::split::split_pos;
use crate::structure::OfxBodyXml;
use crate::structure::SignOnResponseXml;
use crate::structure::StatementTransactionResponseXml;
use crate::tokens::tokenize;
use crate::tree::NodeV;
use crate::tree::nodes_view;
use crate::tree::parse_tree;

verus! {

/// The decode pipeline's entry points.
pub struct OfxParser;

/// A statement-transaction list converted item by item, in order.
pub open spec fn msgs_converted(
    out: Seq<StatementTransactionResponse>,
    xs: Seq<StatementTransactionResponseXml>,
) -> bool {
    &&& out.len() == xs.len()
    &&& forall|k: int| 0 <= k < out.len() ==> stmttrnrs_into_ok(out[k], #[trigger] xs[k])
}

/// The document's body part is the normalization of the structural body
/// that the schema reads off the forest `ns`.
pub open spec fn doc_from_body(doc: OfxDocument, ns: Seq<NodeV>) -> bool {
    exists|x: OfxBodyXml|
        #[trigger] body_matches(x, ns) && doc.signon == x.signonmsgsrsv1.sonrs.spec_into()
            && msgs_converted(doc.bank_msgs@, x.bankmsgsrsv1.stmttrnrs@)
}

impl OfxParser {
    /// Decodes an OFX timestamp such as `20250604000000[-3:BRT]`; the
    /// whole decoding rule is [`spec_parse_datetime`].
    pub fn parse_custom_datetime(s: &str) -> (r: Result<OfxDateTime, String>)
        ensures
            ({
                let sp = spec_parse_datetime(s@);
                match r {
                    Ok(dt) => sp == Ok::<OfxDateTime, DtError>(dt) && dt.wf(),
                    Err(m) => sp is Err && m@ == dt_error_message(sp->Err_0),
                }
            }),
    {
        crate::datetime::parse_custom_datetime(s)
    }

    /// Decodes the header region; the whole rule is
    /// [`header_outcome`].
    pub fn parse_header(header_content: &str) -> (r: OfxResult<OfxHeader>)
        ensures
            match header_outcome(header_content@) {
                HeaderOutcome::Fields(hf) => r matches Ok(h) && header_matches(h, hf) && h.version@
                    == "102"@,
                HeaderOutcome::BadVersion(v) => r matches Err(OfxError::InvalidVersion(m)) && m@
                    == v,
                HeaderOutcome::Missing => r matches Err(OfxError::MissingHeader(m)) && m@
                    == "VERSION"@,
            },
    {
        crate::header::parse_header(header_content)
    }

    /// Decodes the body region: the trusted reader tokenizes it, and the
    /// verified grammar and schema decoders turn the tokens into the
    /// sign-on response and the statement-transaction responses.
    /// Whatever tokens the reader hands back, a returned pair is the
    /// exact schema reading of a well-formed body forest, and any
    /// failure is an `Xml` error.
    pub fn parse_xml_body(body: &str) -> (r: OfxResult<
        (SignOnResponseXml, Vec<StatementTransactionResponseXml>),
    >)
        ensures
            match r {
                Ok(p) => exists|ns: Seq<NodeV>, x: OfxBodyXml|
                    body_wf(ns) && #[trigger] body_matches(x, ns) && x.signonmsgsrsv1.sonrs == p.0
                        && x.bankmsgsrsv1.stmttrnrs@ == p.1@,
                Err(e) => e matches OfxError::Xml(_),
            },
    {
        let toks = match tokenize(body) {
            Ok(t) => t,
            Err(m) => {
                return Err(OfxError::Xml(m));
            },
        };
        let forest = match parse_tree(&toks) {
            Ok(f) => f,
            Err(m) => {
                return Err(OfxError::Xml(m));
            },
        };
        let b = match parse_body_forest(&forest) {
            Ok(b) => b,
            Err(m) => {
                return Err(OfxError::Xml(m));
            },
        };
        let ghost ns = nodes_view(forest@);
        let ghost bx = b;
        let OfxBodyXml { signonmsgsrsv1, bankmsgsrsv1 } = b;
        Ok((signonmsgsrsv1.sonrs, bankmsgsrsv1.stmttrnrs))
    }

    /// Decodes a whole OFX 1.02 document.
    ///
    /// The text is split at the first XML prolog or `<OFX>` tag; a split
    /// offset of 0 — no header at all — fails with `InvalidContent`.
    /// The header region then decodes exactly by [`header_outcome`]:
    /// an unsupported marker or version value fails with
    /// `InvalidVersion` carrying that value, a header without `VERSION`
    /// fails with `MissingHeader`.  With the header good, the body is
    /// decoded and normalized; a returned document carries the decoded
    /// header — its version is always the supported `"102"` — and the
    /// normalization of a schema-valid body, and any body failure is an
    /// `Xml` error.
    pub fn parse_string(content: &str) -> (r: OfxResult<OfxDocument>)
        ensures
            split_pos(content@) == 0 ==> (r matches Err(OfxError::InvalidContent(m)) && m@
                == "No valid header found"@),
            split_pos(content@) != 0 ==> (match header_outcome(
                content@.subrange(0, split_pos(content@)),
            ) {
                HeaderOutcome::BadVersion(v) => r matches Err(OfxError::InvalidVersion(m)) && m@
                    == v,
                HeaderOutcome::Missing => r matches Err(OfxError::MissingHeader(m)) && m@
                    == "VERSION"@,
                HeaderOutcome::Fields(hf) => match r {
                    Ok(doc) => header_matches(doc.header, hf) && doc.header.version@ == "102"@ && (
                    exists|ns: Seq<NodeV>| #[trigger] body_wf(ns) && doc_from_body(doc, ns)),
                    Err(e) => e matches OfxError::Xml(_),
                },
            }),
    {
        let len = content.unicode_len();
        let pos = find_body_start(content);
        if pos == 0 {
            return Err(OfxError::InvalidContent(String::from_str("No valid header found")));
        }
        let header_content = content.substring_char(0, pos);
        let body_content = content.substring_char(pos, len);
        let header = match crate::header::parse_header(header_content) {
            Ok(h) => h,
            Err(e) => {
                return Err(e);
            },
        };
        let (signon_xml, bank_xml) = match Self::parse_xml_body(body_content) {
            Ok(p) => p,
            Err(e) => {
                return Err(e);
            },
        };
        let signon = signon_xml.to_domain();
        let mut bank_msgs: Vec<StatementTransactionResponse> = Vec::new();
        let mut i: usize = 0;
        while i < bank_xml.len()
            invariant
                i <= bank_xml@.len(),
                bank_msgs@.len() == i,
                forall|k: int|
                    0 <= k < i ==> stmttrnrs_into_ok(bank_msgs@[k], #[trigger] bank_xml@[k]),
            decreases bank_xml@.len() - i,
        {
            bank_msgs.push(bank_xml[i].to_domain());
            i += 1;
        }
        let doc = OfxDocument { header, signon, bank_msgs };
        proof {
            let (ns, x) = choose|ns: Seq<NodeV>, x: OfxBodyXml|
                body_wf(ns) && #[trigger] body_matches(x, ns) && x.signonmsgsrsv1.sonrs
                    == signon_xml && x.bankmsgsrsv1.stmttrnrs@ == bank_xml@;
            assert(body_matches(x, ns) && doc.signon == x.signonmsgsrsv1.sonrs.spec_into()
                && msgs_converted(doc.bank_msgs@, x.bankmsgsrsv1.stmttrnrs@));
            assert(body_wf(ns) && doc_from_body(doc, ns));
        }
        Ok(doc)
    }
}

} // verus!
