//! The header splitter: finds where the body region begins.
//!
//! The body begins at the first occurrence of an XML prolog — `<?xml`
//! followed, on the same line, by `?>` — or of the literal root tag
//! `<OFX>`.  Everything before that offset is the header region.  When
//! there is no such occurrence the split offset is 0 by convention, the
//! same as a body that starts immediately: both mean the text has no
//! header and cannot be an OFX 1.02 document.

use vstd::prelude::*;
use vstd::string::StrSliceExecFns;

verus! {

/// An XML prolog starts at `p`: `<?xml`, then `?>` with no newline in
/// between.
pub open spec fn prolog_at(s: Seq<char>, p: int) -> bool {
    &&& 0 <= p
    &&& p + 5 <= s.len()
    &&& s.subrange(p, p + 5) == "<?xml"@
    &&& exists|e: int|
        p + 5 <= e && e + 2 <= s.len() && (#[trigger] s[e]) == '?' && s[e + 1] == '>' && (forall|
            j: int,
        |
            p + 5 <= j < e ==> s[j] != '\n')
}

/// The literal root tag `<OFX>` starts at `p`.
pub open spec fn ofx_tag_at(s: Seq<char>, p: int) -> bool {
    &&& 0 <= p
    &&& p + 5 <= s.len()
    &&& s.subrange(p, p + 5) == "<OFX>"@
}

/// The body region may start at `p`.
pub open spec fn body_start_at(s: Seq<char>, p: int) -> bool {
    prolog_at(s, p) || ofx_tag_at(s, p)
}

/// The first position at or after `p` where the body may start;
/// `s.len()` when there is none.
pub open spec fn find_body(s: Seq<char>, p: int) -> int
    decreases s.len() - p,
{
    if p < 0 || p >= s.len() {
        s.len() as int
    } else if body_start_at(s, p) {
        p
    } else {
        find_body(s, p + 1)
    }
}

/// The split offset of the document: the first body-start position, or 0
/// when there is none.
pub open spec fn split_pos(s: Seq<char>) -> int {
    if find_body(s, 0) == s.len() {
        0
    } else {
        find_body(s, 0)
    }
}

pub proof fn lemma_find_body(s: Seq<char>, p: int)
    requires
        0 <= p <= s.len(),
    ensures
        p <= find_body(s, p) <= s.len(),
        find_body(s, p) < s.len() ==> body_start_at(s, find_body(s, p)),
        forall|q: int| p <= q < find_body(s, p) ==> !body_start_at(s, q),
    decreases s.len() - p,
{
    if p < s.len() && !body_start_at(s, p) {
        lemma_find_body(s, p + 1);
    }
}

/// Decides whether an XML prolog starts at `p`.
fn prolog_check(s: &str, p: usize) -> (r: bool)
    requires
        p + 5 <= s@.len(),
        s@.subrange(p as int, p + 5) == "<?xml"@,
    ensures
        r == prolog_at(s@, p as int),
{
    let len = s.unicode_len();
    let mut e: usize = p + 5;
    while e < len
        invariant
            p + 5 <= e,
            e <= len,
            len == s@.len(),
            p + 5 <= s@.len(),
            s@.subrange(p as int, p + 5) == "<?xml"@,
            forall|j: int| p + 5 <= j < e ==> s@[j] != '\n',
            forall|q: int|
                p + 5 <= q < e ==> !((#[trigger] s@[q]) == '?' && q + 2 <= s@.len() && s@[q + 1]
                    == '>'),
        decreases len - e,
    {
        let c = s.get_char(e);
        if c == '?' && e + 1 < len && s.get_char(e + 1) == '>' {
            proof {
                assert(prolog_at(s@, p as int)) by {
                    assert(s@[e as int] == '?' && s@[e + 1] == '>' && (forall|j: int|
                        p + 5 <= j < e ==> s@[j] != '\n'));
                }
            }
            return true;
        }
        if c == '\n' {
            proof {
                assert forall|ee: int|
                    p + 5 <= ee && ee + 2 <= s@.len() && (#[trigger] s@[ee]) == '?' && s@[ee + 1]
                        == '>' implies !(forall|j: int| p + 5 <= j < ee ==> s@[j] != '\n') by {
                    if ee <= e {
                        assert(!(s@[ee] == '?' && ee + 2 <= s@.len() && s@[ee + 1] == '>'));
                    } else {
                        assert(p + 5 <= e < ee && s@[e as int] == '\n');
                    }
                }
            }
            return false;
        }
        e += 1;
    }
    proof {
        assert forall|ee: int|
            p + 5 <= ee && ee + 2 <= s@.len() implies !((#[trigger] s@[ee]) == '?' && s@[ee + 1]
            == '>') by {
            assert(ee < e);
        }
    }
    false
}

/// Whether the five characters at `p` equal `pat` (ASCII, exact).
fn five_at(s: &str, p: usize, pat: &str) -> (r: bool)
    requires
        p + 5 <= s@.len(),
        s@.len() <= usize::MAX,
        pat@.len() == 5,
    ensures
        r == (s@.subrange(p as int, p + 5) == pat@),
{
    let mut k: usize = 0;
    while k < 5
        invariant
            k <= 5,
            p + 5 <= s@.len(),
            s@.len() <= usize::MAX,
            pat@.len() == 5,
            forall|j: int| 0 <= j < k ==> s@[p + j] == pat@[j],
        decreases 5 - k,
    {
        if s.get_char(p + k) != pat.get_char(k) {
            proof {
                assert(s@.subrange(p as int, p + 5)[k as int] == s@[p + k]);
            }
            return false;
        }
        k += 1;
    }
    proof {
        assert(s@.subrange(p as int, p + 5) =~= pat@);
    }
    true
}

/// Finds the split offset: the start of the first XML prolog or `<OFX>`
/// root tag, or 0 when neither occurs anywhere.
pub fn find_body_start(s: &str) -> (r: usize)
    ensures
        r == split_pos(s@),
        r < s@.len() || r == 0,
        r > 0 ==> body_start_at(s@, r as int),
        forall|q: int| 0 <= q < r ==> !body_start_at(s@, q),
{
    let len = s.unicode_len();
    let mut p: usize = 0;
    proof {
        lemma_find_body(s@, 0);
        reveal_strlit("<OFX>");
        reveal_strlit("<?xml");
    }
    while p < len
        invariant
            p <= len,
            len == s@.len(),
            find_body(s@, 0) == find_body(s@, p as int),
            forall|q: int| 0 <= q < p ==> !body_start_at(s@, q),
        decreases len - p,
    {
        proof {
            reveal_strlit("<OFX>");
            reveal_strlit("<?xml");
        }
        if len - p >= 5 {
            let is_ofx = five_at(s, p, "<OFX>");
            let mut matched = is_ofx;
            if !matched {
                if five_at(s, p, "<?xml") {
                    matched = prolog_check(s, p);
                }
            }
            if matched {
                proof {
                    assert(body_start_at(s@, p as int));
                }
                if p == 0 {
                    return 0;
                }
                return p;
            }
            proof {
                assert(!body_start_at(s@, p as int));
            }
        } else {
            proof {
                assert(!body_start_at(s@, p as int));
            }
        }
        p += 1;
    }
    proof {
        assert(find_body(s@, 0) == s@.len());
    }
    0
}

} // verus!
