//! The header decoder.
//!
//! The header region is a sequence of `KEY:VALUE` lines.  Keys match
//! case-insensitively; keys and values are trimmed.  Blank lines and
//! lines without a colon are skipped, unknown keys are ignored.  The
//! `OFXHEADER` marker must be `100` and `VERSION` must be `102`, each on
//! pain of `InvalidVersion` carrying the offending value; a header
//! without a `VERSION` line fails with `MissingHeader`.

use vstd::prelude::*;
use vstd::string::StrSliceExecFns;
use vstd::string::StringExecFns;

use crate::domain::OfxHeader;
use crate::error::OfxError;
use crate::error::OfxResult;
use crate::text::find_from;
use crate::text::first_at;
use crate::text::lemma_first_at;
use crate::text::seq_eq_ci;
use crate::text::str_eq;
use crate::text::str_eq_ci;
use crate::text::trim_spec;
use crate::text::trim_str;

verus! {

/// The field values collected while scanning the header, as character
/// sequences.
pub struct HeaderFields {
    pub version: Option<Seq<char>>,
    pub security: Option<Seq<char>>,
    pub encoding: Option<Seq<char>>,
    pub charset: Option<Seq<char>>,
    pub compression: Option<Seq<char>>,
    pub old_file_uid: Option<Seq<char>>,
    pub new_file_uid: Option<Seq<char>>,
}

pub open spec fn empty_fields() -> HeaderFields {
    HeaderFields {
        version: None,
        security: None,
        encoding: None,
        charset: None,
        compression: None,
        old_file_uid: None,
        new_file_uid: None,
    }
}

/// What scanning a header region yields: the collected fields, a fatal
/// unsupported marker or version value, or no version line at all.
pub enum HeaderOutcome {
    Fields(HeaderFields),
    BadVersion(Seq<char>),
    Missing,
}

/// The effect of one header line on the collected fields.
pub enum HeaderStep {
    Go(HeaderFields),
    Bad(Seq<char>),
}

/// How a single header line is read: skip it when blank or without a
/// colon, validate the two fixed-value keys, record the known optional
/// keys, ignore the rest.
pub open spec fn header_line_step(line: Seq<char>, acc: HeaderFields) -> HeaderStep {
    if trim_spec(line).len() == 0 {
        HeaderStep::Go(acc)
    } else {
        let c = first_at(line, ':', 0);
        if c == line.len() {
            HeaderStep::Go(acc)
        } else {
            let key = trim_spec(line.subrange(0, c));
            let value = trim_spec(line.subrange(c + 1, line.len() as int));
            if seq_eq_ci(key, "OFXHEADER"@) {
                if value == "100"@ {
                    HeaderStep::Go(acc)
                } else {
                    HeaderStep::Bad(value)
                }
            } else if seq_eq_ci(key, "VERSION"@) {
                if value == "102"@ {
                    HeaderStep::Go(HeaderFields { version: Some(value), ..acc })
                } else {
                    HeaderStep::Bad(value)
                }
            } else if seq_eq_ci(key, "SECURITY"@) {
                HeaderStep::Go(HeaderFields { security: Some(value), ..acc })
            } else if seq_eq_ci(key, "ENCODING"@) {
                HeaderStep::Go(HeaderFields { encoding: Some(value), ..acc })
            } else if seq_eq_ci(key, "CHARSET"@) {
                HeaderStep::Go(HeaderFields { charset: Some(value), ..acc })
            } else if seq_eq_ci(key, "COMPRESSION"@) {
                HeaderStep::Go(HeaderFields { compression: Some(value), ..acc })
            } else if seq_eq_ci(key, "OLDFILEUID"@) {
                HeaderStep::Go(HeaderFields { old_file_uid: Some(value), ..acc })
            } else if seq_eq_ci(key, "NEWFILEUID"@) {
                HeaderStep::Go(HeaderFields { new_file_uid: Some(value), ..acc })
            } else {
                HeaderStep::Go(acc)
            }
        }
    }
}

/// One line of `s` starting at `pos`: the characters up to the next
/// newline, with one trailing carriage return stripped.
pub open spec fn line_at(s: Seq<char>, pos: int) -> Seq<char> {
    let e = first_at(s, '\n', pos);
    let raw = s.subrange(pos, e);
    if raw.len() > 0 && raw.last() == '\r' {
        raw.drop_last()
    } else {
        raw
    }
}

/// Scans the header region line by line from `pos`, folding each line
/// into the collected fields; at the end the version must have been
/// seen.
pub open spec fn header_scan(s: Seq<char>, pos: int, acc: HeaderFields) -> HeaderOutcome
    decreases s.len() - pos,
{
    if pos < 0 || pos >= s.len() {
        if acc.version is Some {
            HeaderOutcome::Fields(acc)
        } else {
            HeaderOutcome::Missing
        }
    } else {
        let e = first_at(s, '\n', pos);
        let next = if e < pos {
            pos + 1
        } else if e < s.len() {
            e + 1
        } else {
            s.len() as int
        };
        match header_line_step(line_at(s, pos), acc) {
            HeaderStep::Bad(v) => HeaderOutcome::BadVersion(v),
            HeaderStep::Go(acc2) => header_scan(s, next, acc2),
        }
    }
}

/// The outcome of decoding a whole header region.
pub open spec fn header_outcome(s: Seq<char>) -> HeaderOutcome {
    header_scan(s, 0, empty_fields())
}

/// The view of an optional owned string.
pub open spec fn opt_view(o: Option<String>) -> Option<Seq<char>> {
    match o {
        Some(s) => Some(s@),
        None => None,
    }
}

/// The collected fields a decoded header corresponds to.
pub open spec fn header_matches(h: OfxHeader, hf: HeaderFields) -> bool {
    &&& Some(h.version@) == hf.version
    &&& opt_view(h.security) == hf.security
    &&& opt_view(h.encoding) == hf.encoding
    &&& opt_view(h.charset) == hf.charset
    &&& opt_view(h.compression) == hf.compression
    &&& opt_view(h.old_file_uid) == hf.old_file_uid
    &&& opt_view(h.new_file_uid) == hf.new_file_uid
}

proof fn lemma_scan_version(s: Seq<char>, pos: int, acc: HeaderFields)
    requires
        acc.version is Some ==> acc.version == Some("102"@),
        header_scan(s, pos, acc) is Fields,
    ensures
        header_scan(s, pos, acc)->Fields_0.version == Some("102"@),
    decreases s.len() - pos,
{
    if 0 <= pos < s.len() {
        match header_line_step(line_at(s, pos), acc) {
            HeaderStep::Bad(_) => {},
            HeaderStep::Go(acc2) => {
                let e = first_at(s, '\n', pos);
                let next = if e < pos {
                    pos + 1
                } else if e < s.len() {
                    e + 1
                } else {
                    s.len() as int
                };
                lemma_scan_version(s, next, acc2);
            },
        }
    }
}

/// A header region that decodes at all carries the one supported
/// version: whatever else the region holds, the collected `VERSION`
/// value is exactly `102`.
pub proof fn lemma_header_version_supported(s: Seq<char>)
    requires
        header_outcome(s) is Fields,
    ensures
        header_outcome(s)->Fields_0.version == Some("102"@),
{
    lemma_scan_version(s, 0, empty_fields());
}

/// Header decoding is a pure function of the region's text: any two
/// headers that satisfy the decoder's contract for the same text agree
/// field for field, character for character.
pub proof fn lemma_header_decode_deterministic(s: Seq<char>, h1: OfxHeader, h2: OfxHeader)
    requires
        header_outcome(s) is Fields,
        header_matches(h1, header_outcome(s)->Fields_0),
        header_matches(h2, header_outcome(s)->Fields_0),
    ensures
        h1.version@ == h2.version@,
        opt_view(h1.security) == opt_view(h2.security),
        opt_view(h1.encoding) == opt_view(h2.encoding),
        opt_view(h1.charset) == opt_view(h2.charset),
        opt_view(h1.compression) == opt_view(h2.compression),
        opt_view(h1.old_file_uid) == opt_view(h2.old_file_uid),
        opt_view(h1.new_file_uid) == opt_view(h2.new_file_uid),
{
}

/// Decodes the header region.  The result is exactly what
/// [`header_outcome`] prescribes: the collected fields on success —
/// `version` is then the supported `"102"` — or the matching error.
pub fn parse_header(header_content: &str) -> (r: OfxResult<OfxHeader>)
    ensures
        match header_outcome(header_content@) {
            HeaderOutcome::Fields(hf) => r matches Ok(h) && header_matches(h, hf) && h.version@
                == "102"@,
            HeaderOutcome::BadVersion(v) => r matches Err(OfxError::InvalidVersion(m)) && m@ == v,
            HeaderOutcome::Missing => r matches Err(OfxError::MissingHeader(m)) && m@
                == "VERSION"@,
        },
{
    let len = header_content.unicode_len();
    let mut version: Option<String> = None;
    let mut security: Option<String> = None;
    let mut encoding: Option<String> = None;
    let mut charset: Option<String> = None;
    let mut compression: Option<String> = None;
    let mut old_file_uid: Option<String> = None;
    let mut new_file_uid: Option<String> = None;
    let mut pos: usize = 0;
    let ghost s = header_content@;
    while pos < len
        invariant
            pos <= len,
            len == s.len(),
            s == header_content@,
            header_scan(s, 0, empty_fields()) == header_scan(
                s,
                pos as int,
                HeaderFields {
                    version: opt_view(version),
                    security: opt_view(security),
                    encoding: opt_view(encoding),
                    charset: opt_view(charset),
                    compression: opt_view(compression),
                    old_file_uid: opt_view(old_file_uid),
                    new_file_uid: opt_view(new_file_uid),
                },
            ),
            version matches Some(v) ==> v@ == "102"@,
        decreases len - pos,
    {
        let ghost acc = HeaderFields {
            version: opt_view(version),
            security: opt_view(security),
            encoding: opt_view(encoding),
            charset: opt_view(charset),
            compression: opt_view(compression),
            old_file_uid: opt_view(old_file_uid),
            new_file_uid: opt_view(new_file_uid),
        };
        let e = find_from(header_content, '\n', pos);
        proof {
            lemma_first_at(s, '\n', pos as int);
        }
        let lend: usize = if e > pos && header_content.get_char(e - 1) == '\r' {
            e - 1
        } else {
            e
        };
        let line = header_content.substring_char(pos, lend);
        proof {
            let raw = s.subrange(pos as int, e as int);
            if raw.len() > 0 && raw.last() == '\r' {
                assert(line@ =~= line_at(s, pos as int));
            } else {
                assert(line@ =~= line_at(s, pos as int));
            }
        }
        let next: usize = if e < len {
            e + 1
        } else {
            e
        };
        let llen = line.unicode_len();
        let t = trim_str(line);
        if t.unicode_len() == 0 {
            pos = next;
            continue;
        }
        let c = find_from(line, ':', 0);
        proof {
            lemma_first_at(line@, ':', 0);
        }
        if c == llen {
            pos = next;
            continue;
        }
        let keypart = line.substring_char(0, c);
        let valpart = line.substring_char(c + 1, llen);
        let key = trim_str(keypart);
        let value = trim_str(valpart);
        proof {
            assert(keypart@ =~= line@.subrange(0, c as int));
            assert(valpart@ =~= line@.subrange(c as int + 1, line@.len() as int));
        }
        if str_eq_ci(key, "OFXHEADER") {
            if !str_eq(value, "100") {
                return Err(OfxError::InvalidVersion(value.to_owned()));
            }
        } else if str_eq_ci(key, "VERSION") {
            if !str_eq(value, "102") {
                return Err(OfxError::InvalidVersion(value.to_owned()));
            }
            version = Some(value.to_owned());
        } else if str_eq_ci(key, "SECURITY") {
            security = Some(value.to_owned());
        } else if str_eq_ci(key, "ENCODING") {
            encoding = Some(value.to_owned());
        } else if str_eq_ci(key, "CHARSET") {
            charset = Some(value.to_owned());
        } else if str_eq_ci(key, "COMPRESSION") {
            compression = Some(value.to_owned());
        } else if str_eq_ci(key, "OLDFILEUID") {
            old_file_uid = Some(value.to_owned());
        } else if str_eq_ci(key, "NEWFILEUID") {
            new_file_uid = Some(value.to_owned());
        }
        pos = next;
    }
    let version = match version {
        Some(v) => v,
        None => {
            return Err(OfxError::MissingHeader(String::from_str("VERSION")));
        },
    };
    Ok(
        OfxHeader {
            version,
            security,
            encoding,
            charset,
            compression,
            old_file_uid,
            new_file_uid,
        },
    )
}

} // verus!
