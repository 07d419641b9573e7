//! The body schema decoder: from the body tree to the structural layer.
//!
//! Each element of the fixed schema is decoded from its children:
//! element names match case-insensitively, child order is free, unknown
//! child elements are ignored, a duplicated known child, stray non-blank
//! text, a missing required child or a malformed number is a fatal
//! schema violation.  Leaf values are the element's concatenated
//! character data, trimmed.

use vstd::prelude::*;
use vstd::string::StrSliceExecFns;
use vstd::string::StringExecFns;

use crate::text::int_of;
use crate::text::seq_eq_ci;
use crate::text::str_eq_ci;
use crate::text::trim_spec;
use crate::text::trim_str;
use crate::text::parse_i32;
use crate::amount::amount_of;
use crate::amount::parse_amount;
use crate::header::opt_view;
use crate::tree::Node;
use crate::tree::NodeV;
use crate::tree::node_view;
use crate::tree::nodes_view;
use crate::tree::lemma_nodes_view;

verus! {

/// The concatenated character data of a leaf element's children;
/// `None` when an element stands among them.
pub open spec fn leaf_text(cs: Seq<NodeV>) -> Option<Seq<char>>
    decreases cs.len(),
{
    if cs.len() == 0 {
        Some(Seq::empty())
    } else {
        match cs[0] {
            NodeV::Text(t) => match leaf_text(cs.drop_first()) {
                Some(r) => Some(t + r),
                None => None,
            },
            NodeV::Elem(_, _) => None,
        }
    }
}

/// A leaf element's value: its character data, trimmed.
pub open spec fn leaf_value(cs: Seq<NodeV>) -> Option<Seq<char>> {
    match leaf_text(cs) {
        Some(t) => Some(trim_spec(t)),
        None => None,
    }
}

/// Every text node among the children is blank.
pub open spec fn texts_blank(cs: Seq<NodeV>) -> bool {
    forall|i: int|
        0 <= i < cs.len() ==> ((#[trigger] cs[i]) matches NodeV::Text(t) ==> trim_spec(t).len()
            == 0)
}

/// The first child element at or after `from` whose name matches `tag`
/// up to ASCII case; `cs.len()` when there is none.
pub open spec fn sp_find(cs: Seq<NodeV>, tag: Seq<char>, from: int) -> int
    decreases cs.len() - from,
{
    if from < 0 || from >= cs.len() {
        cs.len() as int
    } else {
        match cs[from] {
            NodeV::Elem(nm, _) => if seq_eq_ci(nm, tag) {
                from
            } else {
                sp_find(cs, tag, from + 1)
            },
            NodeV::Text(_) => sp_find(cs, tag, from + 1),
        }
    }
}

pub proof fn lemma_sp_find(cs: Seq<NodeV>, tag: Seq<char>, from: int)
    requires
        0 <= from <= cs.len(),
    ensures
        from <= sp_find(cs, tag, from) <= cs.len(),
        sp_find(cs, tag, from) < cs.len() ==> (cs[sp_find(cs, tag, from)] matches NodeV::Elem(
            nm,
            _,
        ) && seq_eq_ci(nm, tag)),
    decreases cs.len() - from,
{
    if from < cs.len() {
        lemma_sp_find(cs, tag, from + 1);
    }
}

/// `tag` occurs at most once among the child elements.
pub open spec fn unique_child(cs: Seq<NodeV>, tag: Seq<char>) -> bool {
    sp_find(cs, tag, sp_find(cs, tag, 0) + 1) == cs.len()
}

/// The child element named `tag`, when there is one.
pub open spec fn child_elem(cs: Seq<NodeV>, tag: Seq<char>) -> Option<NodeV> {
    if sp_find(cs, tag, 0) < cs.len() {
        Some(cs[sp_find(cs, tag, 0)])
    } else {
        None
    }
}

/// An element node's children.
pub open spec fn elem_children(n: NodeV) -> Seq<NodeV> {
    match n {
        NodeV::Elem(_, gc) => gc,
        NodeV::Text(_) => Seq::empty(),
    }
}

/// The leaf value of the child element named `tag`: `None` when the
/// child is absent or holds nested elements.
pub open spec fn child_leaf(cs: Seq<NodeV>, tag: Seq<char>) -> Option<Seq<char>> {
    match child_elem(cs, tag) {
        Some(n) => leaf_value(elem_children(n)),
        None => None,
    }
}

/// A present child named `tag` is a well-formed leaf.
pub open spec fn leaf_ok_if_present(cs: Seq<NodeV>, tag: Seq<char>) -> bool {
    match child_elem(cs, tag) {
        Some(n) => leaf_value(elem_children(n)) is Some,
        None => true,
    }
}

/// The child named `tag` is present and is a well-formed leaf.
pub open spec fn required_leaf(cs: Seq<NodeV>, tag: Seq<char>) -> bool {
    child_elem(cs, tag) is Some && leaf_ok_if_present(cs, tag)
}

/// Decides [`texts_blank`].
fn texts_blank_exec(cs: &Vec<Node>) -> (r: bool)
    ensures
        r == texts_blank(nodes_view(cs@)),
{
    proof {
        lemma_nodes_view(cs@);
    }
    let ghost cv = nodes_view(cs@);
    let mut i: usize = 0;
    while i < cs.len()
        invariant
            i <= cs@.len(),
            cv == nodes_view(cs@),
            cv.len() == cs@.len(),
            forall|j: int| 0 <= j < cs@.len() ==> cv[j] == node_view(cs@[j]),
            forall|j: int|
                0 <= j < i ==> ((#[trigger] cv[j]) matches NodeV::Text(t) ==> trim_spec(t).len()
                    == 0),
        decreases cs@.len() - i,
    {
        match &cs[i] {
            Node::Text(t) => {
                let tt = trim_str(t.as_str());
                if tt.unicode_len() != 0 {
                    proof {
                        assert(cv[i as int] == node_view(cs@[i as int]));
                        assert(!texts_blank(cv));
                    }
                    return false;
                }
            },
            Node::Elem { .. } => {},
        }
        i += 1;
    }
    true
}

/// Finds the first child element matching `tag` at or after `from`.
fn find_child(cs: &Vec<Node>, tag: &str, from: usize) -> (r: usize)
    requires
        from <= cs@.len(),
    ensures
        r == sp_find(nodes_view(cs@), tag@, from as int),
{
    proof {
        lemma_nodes_view(cs@);
    }
    let ghost cv = nodes_view(cs@);
    let mut i: usize = from;
    while i < cs.len()
        invariant
            from <= i <= cs@.len(),
            cv == nodes_view(cs@),
            cv.len() == cs@.len(),
            forall|j: int| 0 <= j < cs@.len() ==> cv[j] == node_view(cs@[j]),
            sp_find(cv, tag@, from as int) == sp_find(cv, tag@, i as int),
        decreases cs@.len() - i,
    {
        match &cs[i] {
            Node::Elem { name, .. } => {
                if str_eq_ci(name.as_str(), tag) {
                    return i;
                }
            },
            Node::Text(_) => {},
        }
        i += 1;
    }
    i
}

/// Decides [`unique_child`].
fn unique_child_exec(cs: &Vec<Node>, tag: &str) -> (r: bool)
    ensures
        r == unique_child(nodes_view(cs@), tag@),
{
    proof {
        lemma_nodes_view(cs@);
    }
    let first = find_child(cs, tag, 0);
    proof {
        lemma_sp_find(nodes_view(cs@), tag@, 0);
    }
    if first == cs.len() {
        // with no first occurrence the second search starts past the end
        proof {
            assert(sp_find(nodes_view(cs@), tag@, first as int + 1) == nodes_view(cs@).len());
        }
        return true;
    }
    let again = find_child(cs, tag, first + 1);
    again == cs.len()
}

/// Extracts a leaf element's value: the concatenated character data of
/// `cs`, trimmed.  `Err` exactly when an element stands among them.
fn leaf_string(cs: &Vec<Node>) -> (r: Result<String, String>)
    ensures
        match r {
            Ok(s) => leaf_value(nodes_view(cs@)) == Some(s@),
            Err(_) => leaf_value(nodes_view(cs@)) is None,
        },
{
    proof {
        lemma_nodes_view(cs@);
    }
    let ghost cv = nodes_view(cs@);
    let mut acc = String::new();
    let mut i: usize = 0;
    proof {
        assert(cv.skip(0) =~= cv);
        if leaf_text(cv) is Some {
            assert(Seq::<char>::empty() + leaf_text(cv)->Some_0 =~= leaf_text(cv)->Some_0);
        }
    }
    while i < cs.len()
        invariant
            i <= cs@.len(),
            cv == nodes_view(cs@),
            cv.len() == cs@.len(),
            forall|j: int| 0 <= j < cs@.len() ==> cv[j] == node_view(cs@[j]),
            match leaf_text(cv.skip(i as int)) {
                Some(rest) => leaf_text(cv) == Some(acc@ + rest),
                None => leaf_text(cv) is None,
            },
        decreases cs@.len() - i,
    {
        proof {
            assert(cv.skip(i as int)[0] == cv[i as int]);
            assert(cv.skip(i as int).drop_first() =~= cv.skip(i as int + 1));
        }
        match &cs[i] {
            Node::Text(t) => {
                let ghost old_acc = acc@;
                acc.append(t.as_str());
                proof {
                    if leaf_text(cv.skip(i as int + 1)) is Some {
                        assert(old_acc + (t@ + leaf_text(cv.skip(i as int + 1))->Some_0) =~= acc@
                            + leaf_text(cv.skip(i as int + 1))->Some_0);
                    }
                }
            },
            Node::Elem { .. } => {
                return Err(String::from_str("unexpected element inside a value"));
            },
        }
        i += 1;
    }
    proof {
        assert(cv.skip(i as int).len() == 0);
        assert(leaf_text(cv.skip(i as int)) == Some(Seq::<char>::empty()));
        assert(acc@ + Seq::<char>::empty() =~= acc@);
    }
    let out = trim_str(acc.as_str()).to_owned();
    Ok(out)
}

/// Borrows the children of the child element named `tag`, when there is
/// one.
fn elem_child<'a>(cs: &'a Vec<Node>, tag: &str) -> (r: Option<&'a Vec<Node>>)
    ensures
        match r {
            Some(gc) => child_elem(nodes_view(cs@), tag@) is Some && nodes_view(gc@)
                == elem_children(child_elem(nodes_view(cs@), tag@)->Some_0),
            None => child_elem(nodes_view(cs@), tag@) is None,
        },
{
    proof {
        lemma_nodes_view(cs@);
    }
    let idx = find_child(cs, tag, 0);
    proof {
        lemma_sp_find(nodes_view(cs@), tag@, 0);
    }
    if idx == cs.len() {
        return None;
    }
    match &cs[idx] {
        Node::Elem { children, .. } => Some(children),
        Node::Text(_) => {
            proof {
                assert(nodes_view(cs@)[idx as int] == node_view(cs@[idx as int]));
                assert(false);
            }
            None
        },
    }
}

/// Reads the child element named `tag` as a leaf value: `Ok(None)` when
/// it is absent, `Ok(Some(_))` with its trimmed character data, `Err`
/// when it holds nested elements.
fn leaf_child(cs: &Vec<Node>, tag: &str) -> (r: Result<Option<String>, String>)
    ensures
        match r {
            Ok(o) => leaf_ok_if_present(nodes_view(cs@), tag@) && opt_view(o) == child_leaf(
                nodes_view(cs@),
                tag@,
            ) && (o is Some <==> child_elem(nodes_view(cs@), tag@) is Some),
            Err(_) => !leaf_ok_if_present(nodes_view(cs@), tag@),
        },
{
    match elem_child(cs, tag) {
        None => Ok(None),
        Some(gc) => match leaf_string(gc) {
            Ok(s) => Ok(Some(s)),
            Err(e) => Err(e),
        },
    }
}

/// A well-formed `STATUS` element: a `CODE` leaf holding an `i32`, a
/// `SEVERITY` leaf, an optional `MESSAGE` leaf, nothing duplicated.
pub open spec fn status_wf(cs: Seq<NodeV>) -> bool {
    &&& texts_blank(cs)
    &&& unique_child(cs, "CODE"@)
    &&& unique_child(cs, "SEVERITY"@)
    &&& unique_child(cs, "MESSAGE"@)
    &&& required_leaf(cs, "CODE"@)
    &&& required_leaf(cs, "SEVERITY"@)
    &&& leaf_ok_if_present(cs, "MESSAGE"@)
    &&& (match int_of(child_leaf(cs, "CODE"@)->Some_0) {
        Some(v) => i32::MIN <= v <= i32::MAX,
        None => false,
    })
}

pub open spec fn status_matches(x: crate::structure::StatusXml, cs: Seq<NodeV>) -> bool {
    &&& Some(x.code as int) == int_of(child_leaf(cs, "CODE"@)->Some_0)
    &&& Some(x.severity@) == child_leaf(cs, "SEVERITY"@)
    &&& opt_view(x.message) == child_leaf(cs, "MESSAGE"@)
}

/// Decodes a `STATUS` element from its children.
pub fn parse_status(cs: &Vec<Node>) -> (r: Result<crate::structure::StatusXml, String>)
    ensures
        match r {
            Ok(x) => status_wf(nodes_view(cs@)) && status_matches(x, nodes_view(cs@)),
            Err(_) => !status_wf(nodes_view(cs@)),
        },
{
    if !texts_blank_exec(cs) {
        return Err(String::from_str("unexpected text in STATUS"));
    }
    if !unique_child_exec(cs, "CODE") || !unique_child_exec(cs, "SEVERITY") || !unique_child_exec(
        cs,
        "MESSAGE",
    ) {
        return Err(String::from_str("duplicate field in STATUS"));
    }
    let code_o = match leaf_child(cs, "CODE") {
        Ok(o) => o,
        Err(e) => {
            return Err(e);
        },
    };
    let code_s = match code_o {
        Some(s) => s,
        None => {
            return Err(String::from_str("missing CODE in STATUS"));
        },
    };
    let code = match parse_i32(code_s.as_str()) {
        Some(v) => v,
        None => {
            return Err(String::from_str("invalid CODE in STATUS"));
        },
    };
    let sev_o = match leaf_child(cs, "SEVERITY") {
        Ok(o) => o,
        Err(e) => {
            return Err(e);
        },
    };
    let severity = match sev_o {
        Some(s) => s,
        None => {
            return Err(String::from_str("missing SEVERITY in STATUS"));
        },
    };
    let message = match leaf_child(cs, "MESSAGE") {
        Ok(o) => o,
        Err(e) => {
            return Err(e);
        },
    };
    Ok(crate::structure::StatusXml { code, severity, message })
}

/// A well-formed `FI` element: a required `ORG` leaf and an optional
/// `FID` leaf.
pub open spec fn fi_wf(cs: Seq<NodeV>) -> bool {
    &&& texts_blank(cs)
    &&& unique_child(cs, "ORG"@)
    &&& unique_child(cs, "FID"@)
    &&& required_leaf(cs, "ORG"@)
    &&& leaf_ok_if_present(cs, "FID"@)
}

pub open spec fn fi_matches(x: crate::structure::FinancialInstitutionXml, cs: Seq<NodeV>) -> bool {
    &&& Some(x.org@) == child_leaf(cs, "ORG"@)
    &&& opt_view(x.fid) == child_leaf(cs, "FID"@)
}

/// Decodes an `FI` element from its children.
pub fn parse_fi(cs: &Vec<Node>) -> (r: Result<crate::structure::FinancialInstitutionXml, String>)
    ensures
        match r {
            Ok(x) => fi_wf(nodes_view(cs@)) && fi_matches(x, nodes_view(cs@)),
            Err(_) => !fi_wf(nodes_view(cs@)),
        },
{
    if !texts_blank_exec(cs) {
        return Err(String::from_str("unexpected text in FI"));
    }
    if !unique_child_exec(cs, "ORG") || !unique_child_exec(cs, "FID") {
        return Err(String::from_str("duplicate field in FI"));
    }
    let org_o = match leaf_child(cs, "ORG") {
        Ok(o) => o,
        Err(e) => {
            return Err(e);
        },
    };
    let org = match org_o {
        Some(s) => s,
        None => {
            return Err(String::from_str("missing ORG in FI"));
        },
    };
    let fid = match leaf_child(cs, "FID") {
        Ok(o) => o,
        Err(e) => {
            return Err(e);
        },
    };
    Ok(crate::structure::FinancialInstitutionXml { org, fid })
}

/// A well-formed `BANKACCTFROM` element: `BANKID`, `ACCTID` and
/// `ACCTTYPE` leaves, all required.
pub open spec fn bankacct_wf(cs: Seq<NodeV>) -> bool {
    &&& texts_blank(cs)
    &&& unique_child(cs, "BANKID"@)
    &&& unique_child(cs, "ACCTID"@)
    &&& unique_child(cs, "ACCTTYPE"@)
    &&& required_leaf(cs, "BANKID"@)
    &&& required_leaf(cs, "ACCTID"@)
    &&& required_leaf(cs, "ACCTTYPE"@)
}

pub open spec fn bankacct_matches(x: crate::structure::BankAccountFromXml, cs: Seq<NodeV>) -> bool {
    &&& Some(x.bankid@) == child_leaf(cs, "BANKID"@)
    &&& Some(x.acctid@) == child_leaf(cs, "ACCTID"@)
    &&& Some(x.accttype@) == child_leaf(cs, "ACCTTYPE"@)
}

/// Decodes a `BANKACCTFROM` element from its children.
pub fn parse_bankacct(cs: &Vec<Node>) -> (r: Result<
    crate::structure::BankAccountFromXml,
    String,
>)
    ensures
        match r {
            Ok(x) => bankacct_wf(nodes_view(cs@)) && bankacct_matches(x, nodes_view(cs@)),
            Err(_) => !bankacct_wf(nodes_view(cs@)),
        },
{
    if !texts_blank_exec(cs) {
        return Err(String::from_str("unexpected text in BANKACCTFROM"));
    }
    if !unique_child_exec(cs, "BANKID") || !unique_child_exec(cs, "ACCTID") || !unique_child_exec(
        cs,
        "ACCTTYPE",
    ) {
        return Err(String::from_str("duplicate field in BANKACCTFROM"));
    }
    let bankid = match leaf_child(cs, "BANKID") {
        Ok(Some(s)) => s,
        Ok(None) => {
            return Err(String::from_str("missing BANKID in BANKACCTFROM"));
        },
        Err(e) => {
            return Err(e);
        },
    };
    let acctid = match leaf_child(cs, "ACCTID") {
        Ok(Some(s)) => s,
        Ok(None) => {
            return Err(String::from_str("missing ACCTID in BANKACCTFROM"));
        },
        Err(e) => {
            return Err(e);
        },
    };
    let accttype = match leaf_child(cs, "ACCTTYPE") {
        Ok(Some(s)) => s,
        Ok(None) => {
            return Err(String::from_str("missing ACCTTYPE in BANKACCTFROM"));
        },
        Err(e) => {
            return Err(e);
        },
    };
    Ok(crate::structure::BankAccountFromXml { bankid, acctid, accttype })
}

/// A well-formed balance element (`LEDGERBAL` / `AVAILBAL`): a `BALAMT`
/// leaf holding a decimal amount and a `DTASOF` leaf.
pub open spec fn balance_wf(cs: Seq<NodeV>) -> bool {
    &&& texts_blank(cs)
    &&& unique_child(cs, "BALAMT"@)
    &&& unique_child(cs, "DTASOF"@)
    &&& required_leaf(cs, "BALAMT"@)
    &&& required_leaf(cs, "DTASOF"@)
    &&& amount_of(child_leaf(cs, "BALAMT"@)->Some_0) is Some
}

pub open spec fn balance_matches(x: crate::structure::BalanceXml, cs: Seq<NodeV>) -> bool {
    &&& Some(x.balamt) == amount_of(child_leaf(cs, "BALAMT"@)->Some_0)
    &&& Some(x.dtasof@) == child_leaf(cs, "DTASOF"@)
}

/// Decodes a balance element from its children.
pub fn parse_balance(cs: &Vec<Node>) -> (r: Result<crate::structure::BalanceXml, String>)
    ensures
        match r {
            Ok(x) => balance_wf(nodes_view(cs@)) && balance_matches(x, nodes_view(cs@)),
            Err(_) => !balance_wf(nodes_view(cs@)),
        },
{
    if !texts_blank_exec(cs) {
        return Err(String::from_str("unexpected text in balance"));
    }
    if !unique_child_exec(cs, "BALAMT") || !unique_child_exec(cs, "DTASOF") {
        return Err(String::from_str("duplicate field in balance"));
    }
    let amt_s = match leaf_child(cs, "BALAMT") {
        Ok(Some(s)) => s,
        Ok(None) => {
            return Err(String::from_str("missing BALAMT in balance"));
        },
        Err(e) => {
            return Err(e);
        },
    };
    let balamt = match parse_amount(amt_s.as_str()) {
        Some(a) => a,
        None => {
            return Err(String::from_str("invalid BALAMT in balance"));
        },
    };
    let dtasof = match leaf_child(cs, "DTASOF") {
        Ok(Some(s)) => s,
        Ok(None) => {
            return Err(String::from_str("missing DTASOF in balance"));
        },
        Err(e) => {
            return Err(e);
        },
    };
    Ok(crate::structure::BalanceXml { balamt, dtasof })
}

/// A well-formed `STMTTRN` element: `TRNTYPE`, `DTPOSTED` and `FITID`
/// leaves, a `TRNAMT` decimal amount, optional `NAME` and `MEMO`.
pub open spec fn stmttrn_wf(cs: Seq<NodeV>) -> bool {
    &&& texts_blank(cs)
    &&& unique_child(cs, "TRNTYPE"@)
    &&& unique_child(cs, "DTPOSTED"@)
    &&& unique_child(cs, "TRNAMT"@)
    &&& unique_child(cs, "FITID"@)
    &&& unique_child(cs, "NAME"@)
    &&& unique_child(cs, "MEMO"@)
    &&& required_leaf(cs, "TRNTYPE"@)
    &&& required_leaf(cs, "DTPOSTED"@)
    &&& required_leaf(cs, "TRNAMT"@)
    &&& required_leaf(cs, "FITID"@)
    &&& leaf_ok_if_present(cs, "NAME"@)
    &&& leaf_ok_if_present(cs, "MEMO"@)
    &&& amount_of(child_leaf(cs, "TRNAMT"@)->Some_0) is Some
}

pub open spec fn stmttrn_matches(x: crate::structure::TransactionXml, cs: Seq<NodeV>) -> bool {
    &&& Some(x.trntype@) == child_leaf(cs, "TRNTYPE"@)
    &&& Some(x.dtposted@) == child_leaf(cs, "DTPOSTED"@)
    &&& Some(x.trnamt) == amount_of(child_leaf(cs, "TRNAMT"@)->Some_0)
    &&& Some(x.fitid@) == child_leaf(cs, "FITID"@)
    &&& opt_view(x.name) == child_leaf(cs, "NAME"@)
    &&& opt_view(x.memo) == child_leaf(cs, "MEMO"@)
}

/// Decodes a `STMTTRN` element from its children.
pub fn parse_stmttrn(cs: &Vec<Node>) -> (r: Result<crate::structure::TransactionXml, String>)
    ensures
        match r {
            Ok(x) => stmttrn_wf(nodes_view(cs@)) && stmttrn_matches(x, nodes_view(cs@)),
            Err(_) => !stmttrn_wf(nodes_view(cs@)),
        },
{
    if !texts_blank_exec(cs) {
        return Err(String::from_str("unexpected text in STMTTRN"));
    }
    if !unique_child_exec(cs, "TRNTYPE") || !unique_child_exec(cs, "DTPOSTED")
        || !unique_child_exec(cs, "TRNAMT") || !unique_child_exec(cs, "FITID")
        || !unique_child_exec(cs, "NAME") || !unique_child_exec(cs, "MEMO") {
        return Err(String::from_str("duplicate field in STMTTRN"));
    }
    let trntype = match leaf_child(cs, "TRNTYPE") {
        Ok(Some(s)) => s,
        Ok(None) => {
            return Err(String::from_str("missing TRNTYPE in STMTTRN"));
        },
        Err(e) => {
            return Err(e);
        },
    };
    let dtposted = match leaf_child(cs, "DTPOSTED") {
        Ok(Some(s)) => s,
        Ok(None) => {
            return Err(String::from_str("missing DTPOSTED in STMTTRN"));
        },
        Err(e) => {
            return Err(e);
        },
    };
    let amt_s = match leaf_child(cs, "TRNAMT") {
        Ok(Some(s)) => s,
        Ok(None) => {
            return Err(String::from_str("missing TRNAMT in STMTTRN"));
        },
        Err(e) => {
            return Err(e);
        },
    };
    let trnamt = match parse_amount(amt_s.as_str()) {
        Some(a) => a,
        None => {
            return Err(String::from_str("invalid TRNAMT in STMTTRN"));
        },
    };
    let fitid = match leaf_child(cs, "FITID") {
        Ok(Some(s)) => s,
        Ok(None) => {
            return Err(String::from_str("missing FITID in STMTTRN"));
        },
        Err(e) => {
            return Err(e);
        },
    };
    let name = match leaf_child(cs, "NAME") {
        Ok(o) => o,
        Err(e) => {
            return Err(e);
        },
    };
    let memo = match leaf_child(cs, "MEMO") {
        Ok(o) => o,
        Err(e) => {
            return Err(e);
        },
    };
    Ok(crate::structure::TransactionXml { trntype, dtposted, trnamt, fitid, name, memo })
}

/// The children lists of every child element named `tag`, in document
/// order, from `from` on.
pub open spec fn matching_children(cs: Seq<NodeV>, tag: Seq<char>, from: int) -> Seq<Seq<NodeV>>
    decreases cs.len() - from,
{
    if from < 0 || from >= cs.len() {
        Seq::empty()
    } else {
        let rest = matching_children(cs, tag, from + 1);
        match cs[from] {
            NodeV::Elem(nm, gc) => if seq_eq_ci(nm, tag) {
                seq![gc] + rest
            } else {
                rest
            },
            NodeV::Text(_) => rest,
        }
    }
}

/// Every `STMTTRN` among the children is well-formed.
pub open spec fn txn_list_wf(cs: Seq<NodeV>) -> bool {
    forall|k: int|
        0 <= k < matching_children(cs, "STMTTRN"@, 0).len() ==> stmttrn_wf(
            #[trigger] matching_children(cs, "STMTTRN"@, 0)[k],
        )
}

/// `xs` are the decoded `STMTTRN` elements, one for each, in order.
pub open spec fn txn_list_matches(
    xs: Seq<crate::structure::TransactionXml>,
    cs: Seq<NodeV>,
) -> bool {
    &&& xs.len() == matching_children(cs, "STMTTRN"@, 0).len()
    &&& forall|k: int|
        0 <= k < xs.len() ==> stmttrn_matches(
            xs[k],
            #[trigger] matching_children(cs, "STMTTRN"@, 0)[k],
        )
}

/// Decodes every `STMTTRN` child, in document order.
pub fn parse_txn_list(cs: &Vec<Node>) -> (r: Result<Vec<crate::structure::TransactionXml>, String>)
    ensures
        match r {
            Ok(xs) => txn_list_wf(nodes_view(cs@)) && txn_list_matches(xs@, nodes_view(cs@)),
            Err(_) => !txn_list_wf(nodes_view(cs@)),
        },
{
    proof {
        lemma_nodes_view(cs@);
    }
    let ghost cv = nodes_view(cs@);
    let ghost tag = "STMTTRN"@;
    let mut out: Vec<crate::structure::TransactionXml> = Vec::new();
    let ghost mut done: Seq<Seq<NodeV>> = Seq::empty();
    let mut i: usize = 0;
    proof {
        assert(Seq::<Seq<NodeV>>::empty() + matching_children(cv, tag, 0) =~= matching_children(
            cv,
            tag,
            0,
        ));
    }
    while i < cs.len()
        invariant
            i <= cs@.len(),
            cv == nodes_view(cs@),
            cv.len() == cs@.len(),
            tag == "STMTTRN"@,
            forall|j: int| 0 <= j < cs@.len() ==> cv[j] == node_view(cs@[j]),
            matching_children(cv, tag, 0) == done + matching_children(cv, tag, i as int),
            out@.len() == done.len(),
            forall|k: int| 0 <= k < done.len() ==> stmttrn_wf(#[trigger] done[k]),
            forall|k: int|
                0 <= k < done.len() ==> stmttrn_matches(out@[k], #[trigger] done[k]),
        decreases cs@.len() - i,
    {
        match &cs[i] {
            Node::Elem { name, children } => {
                if str_eq_ci(name.as_str(), "STMTTRN") {
                    let ghost gc = nodes_view(children@);
                    proof {
                        assert(matching_children(cv, tag, i as int) == seq![gc]
                            + matching_children(cv, tag, i as int + 1));
                        assert(matching_children(cv, tag, 0)[done.len() as int] == gc);
                    }
                    match parse_stmttrn(children) {
                        Ok(x) => {
                            out.push(x);
                            proof {
                                done = done + seq![gc];
                                assert((done.drop_last() + seq![gc]) + matching_children(
                                    cv,
                                    tag,
                                    i as int + 1,
                                ) =~= done.drop_last() + (seq![gc] + matching_children(
                                    cv,
                                    tag,
                                    i as int + 1,
                                )));
                            }
                        },
                        Err(e) => {
                            return Err(e);
                        },
                    }
                }
            },
            Node::Text(_) => {},
        }
        i += 1;
    }
    proof {
        assert(matching_children(cv, tag, i as int) =~= Seq::<Seq<NodeV>>::empty());
        assert(done + Seq::<Seq<NodeV>>::empty() =~= done);
    }
    Ok(out)
}

/// A well-formed `BANKTRANLIST` element: `DTSTART` and `DTEND` leaves
/// and any number of well-formed `STMTTRN` elements.
pub open spec fn tranlist_wf(cs: Seq<NodeV>) -> bool {
    &&& texts_blank(cs)
    &&& unique_child(cs, "DTSTART"@)
    &&& unique_child(cs, "DTEND"@)
    &&& required_leaf(cs, "DTSTART"@)
    &&& required_leaf(cs, "DTEND"@)
    &&& txn_list_wf(cs)
}

pub open spec fn tranlist_matches(
    x: crate::structure::BankTransactionListXml,
    cs: Seq<NodeV>,
) -> bool {
    &&& Some(x.dtstart@) == child_leaf(cs, "DTSTART"@)
    &&& Some(x.dtend@) == child_leaf(cs, "DTEND"@)
    &&& txn_list_matches(x.stmttrn@, cs)
}

/// Decodes a `BANKTRANLIST` element from its children.
pub fn parse_tranlist(cs: &Vec<Node>) -> (r: Result<
    crate::structure::BankTransactionListXml,
    String,
>)
    ensures
        match r {
            Ok(x) => tranlist_wf(nodes_view(cs@)) && tranlist_matches(x, nodes_view(cs@)),
            Err(_) => !tranlist_wf(nodes_view(cs@)),
        },
{
    if !texts_blank_exec(cs) {
        return Err(String::from_str("unexpected text in BANKTRANLIST"));
    }
    if !unique_child_exec(cs, "DTSTART") || !unique_child_exec(cs, "DTEND") {
        return Err(String::from_str("duplicate field in BANKTRANLIST"));
    }
    let dtstart = match leaf_child(cs, "DTSTART") {
        Ok(Some(s)) => s,
        Ok(None) => {
            return Err(String::from_str("missing DTSTART in BANKTRANLIST"));
        },
        Err(e) => {
            return Err(e);
        },
    };
    let dtend = match leaf_child(cs, "DTEND") {
        Ok(Some(s)) => s,
        Ok(None) => {
            return Err(String::from_str("missing DTEND in BANKTRANLIST"));
        },
        Err(e) => {
            return Err(e);
        },
    };
    let stmttrn = match parse_txn_list(cs) {
        Ok(v) => v,
        Err(e) => {
            return Err(e);
        },
    };
    Ok(crate::structure::BankTransactionListXml { dtstart, dtend, stmttrn })
}

/// A well-formed `STMTRS` element: a `CURDEF` leaf, a `BANKACCTFROM`
/// account, and optional `BANKTRANLIST`, `LEDGERBAL` and `AVAILBAL`.
pub open spec fn stmtrs_wf(cs: Seq<NodeV>) -> bool {
    &&& texts_blank(cs)
    &&& unique_child(cs, "CURDEF"@)
    &&& unique_child(cs, "BANKACCTFROM"@)
    &&& unique_child(cs, "BANKTRANLIST"@)
    &&& unique_child(cs, "LEDGERBAL"@)
    &&& unique_child(cs, "AVAILBAL"@)
    &&& required_leaf(cs, "CURDEF"@)
    &&& (match child_elem(cs, "BANKACCTFROM"@) {
        Some(n) => bankacct_wf(elem_children(n)),
        None => false,
    })
    &&& (match child_elem(cs, "BANKTRANLIST"@) {
        Some(n) => tranlist_wf(elem_children(n)),
        None => true,
    })
    &&& (match child_elem(cs, "LEDGERBAL"@) {
        Some(n) => balance_wf(elem_children(n)),
        None => true,
    })
    &&& (match child_elem(cs, "AVAILBAL"@) {
        Some(n) => balance_wf(elem_children(n)),
        None => true,
    })
}

pub open spec fn stmtrs_matches(x: crate::structure::StatementResponseXml, cs: Seq<NodeV>) -> bool {
    &&& Some(x.curdef@) == child_leaf(cs, "CURDEF"@)
    &&& bankacct_matches(x.bankacctfrom, elem_children(child_elem(cs, "BANKACCTFROM"@)->Some_0))
    &&& (match x.banktranlist {
        Some(t) => child_elem(cs, "BANKTRANLIST"@) is Some && tranlist_matches(
            t,
            elem_children(child_elem(cs, "BANKTRANLIST"@)->Some_0),
        ),
        None => child_elem(cs, "BANKTRANLIST"@) is None,
    })
    &&& (match x.ledgerbal {
        Some(b) => child_elem(cs, "LEDGERBAL"@) is Some && balance_matches(
            b,
            elem_children(child_elem(cs, "LEDGERBAL"@)->Some_0),
        ),
        None => child_elem(cs, "LEDGERBAL"@) is None,
    })
    &&& (match x.availbal {
        Some(b) => child_elem(cs, "AVAILBAL"@) is Some && balance_matches(
            b,
            elem_children(child_elem(cs, "AVAILBAL"@)->Some_0),
        ),
        None => child_elem(cs, "AVAILBAL"@) is None,
    })
}

/// Decodes a `STMTRS` element from its children.
pub fn parse_stmtrs(cs: &Vec<Node>) -> (r: Result<crate::structure::StatementResponseXml, String>)
    ensures
        match r {
            Ok(x) => stmtrs_wf(nodes_view(cs@)) && stmtrs_matches(x, nodes_view(cs@)),
            Err(_) => !stmtrs_wf(nodes_view(cs@)),
        },
{
    if !texts_blank_exec(cs) {
        return Err(String::from_str("unexpected text in STMTRS"));
    }
    if !unique_child_exec(cs, "CURDEF") || !unique_child_exec(cs, "BANKACCTFROM")
        || !unique_child_exec(cs, "BANKTRANLIST") || !unique_child_exec(cs, "LEDGERBAL")
        || !unique_child_exec(cs, "AVAILBAL") {
        return Err(String::from_str("duplicate field in STMTRS"));
    }
    let curdef = match leaf_child(cs, "CURDEF") {
        Ok(Some(s)) => s,
        Ok(None) => {
            return Err(String::from_str("missing CURDEF in STMTRS"));
        },
        Err(e) => {
            return Err(e);
        },
    };
    let bankacctfrom = match elem_child(cs, "BANKACCTFROM") {
        Some(gc) => match parse_bankacct(gc) {
            Ok(x) => x,
            Err(e) => {
                return Err(e);
            },
        },
        None => {
            return Err(String::from_str("missing BANKACCTFROM in STMTRS"));
        },
    };
    let banktranlist = match elem_child(cs, "BANKTRANLIST") {
        Some(gc) => match parse_tranlist(gc) {
            Ok(x) => Some(x),
            Err(e) => {
                return Err(e);
            },
        },
        None => None,
    };
    let ledgerbal = match elem_child(cs, "LEDGERBAL") {
        Some(gc) => match parse_balance(gc) {
            Ok(x) => Some(x),
            Err(e) => {
                return Err(e);
            },
        },
        None => None,
    };
    let availbal = match elem_child(cs, "AVAILBAL") {
        Some(gc) => match parse_balance(gc) {
            Ok(x) => Some(x),
            Err(e) => {
                return Err(e);
            },
        },
        None => None,
    };
    Ok(
        crate::structure::StatementResponseXml {
            curdef,
            bankacctfrom,
            banktranlist,
            ledgerbal,
            availbal,
        },
    )
}

/// A well-formed `STMTTRNRS` element: a `TRNUID` leaf, a `STATUS` and a
/// `STMTRS`.
pub open spec fn stmttrnrs_wf(cs: Seq<NodeV>) -> bool {
    &&& texts_blank(cs)
    &&& unique_child(cs, "TRNUID"@)
    &&& unique_child(cs, "STATUS"@)
    &&& unique_child(cs, "STMTRS"@)
    &&& required_leaf(cs, "TRNUID"@)
    &&& (match child_elem(cs, "STATUS"@) {
        Some(n) => status_wf(elem_children(n)),
        None => false,
    })
    &&& (match child_elem(cs, "STMTRS"@) {
        Some(n) => stmtrs_wf(elem_children(n)),
        None => false,
    })
}

pub open spec fn stmttrnrs_matches(
    x: crate::structure::StatementTransactionResponseXml,
    cs: Seq<NodeV>,
) -> bool {
    &&& Some(x.trnuid@) == child_leaf(cs, "TRNUID"@)
    &&& status_matches(x.status, elem_children(child_elem(cs, "STATUS"@)->Some_0))
    &&& stmtrs_matches(x.stmtrs, elem_children(child_elem(cs, "STMTRS"@)->Some_0))
}

/// Decodes a `STMTTRNRS` element from its children.
pub fn parse_stmttrnrs(cs: &Vec<Node>) -> (r: Result<
    crate::structure::StatementTransactionResponseXml,
    String,
>)
    ensures
        match r {
            Ok(x) => stmttrnrs_wf(nodes_view(cs@)) && stmttrnrs_matches(x, nodes_view(cs@)),
            Err(_) => !stmttrnrs_wf(nodes_view(cs@)),
        },
{
    if !texts_blank_exec(cs) {
        return Err(String::from_str("unexpected text in STMTTRNRS"));
    }
    if !unique_child_exec(cs, "TRNUID") || !unique_child_exec(cs, "STATUS") || !unique_child_exec(
        cs,
        "STMTRS",
    ) {
        return Err(String::from_str("duplicate field in STMTTRNRS"));
    }
    let trnuid = match leaf_child(cs, "TRNUID") {
        Ok(Some(s)) => s,
        Ok(None) => {
            return Err(String::from_str("missing TRNUID in STMTTRNRS"));
        },
        Err(e) => {
            return Err(e);
        },
    };
    let status = match elem_child(cs, "STATUS") {
        Some(gc) => match parse_status(gc) {
            Ok(x) => x,
            Err(e) => {
                return Err(e);
            },
        },
        None => {
            return Err(String::from_str("missing STATUS in STMTTRNRS"));
        },
    };
    let stmtrs = match elem_child(cs, "STMTRS") {
        Some(gc) => match parse_stmtrs(gc) {
            Ok(x) => x,
            Err(e) => {
                return Err(e);
            },
        },
        None => {
            return Err(String::from_str("missing STMTRS in STMTTRNRS"));
        },
    };
    Ok(crate::structure::StatementTransactionResponseXml { trnuid, status, stmtrs })
}

/// Every `STMTTRNRS` among the children is well-formed, and there is at
/// least one.
pub open spec fn stmttrnrs_list_wf(cs: Seq<NodeV>) -> bool {
    &&& matching_children(cs, "STMTTRNRS"@, 0).len() >= 1
    &&& forall|k: int|
        0 <= k < matching_children(cs, "STMTTRNRS"@, 0).len() ==> stmttrnrs_wf(
            #[trigger] matching_children(cs, "STMTTRNRS"@, 0)[k],
        )
}

/// `xs` are the decoded `STMTTRNRS` elements, one for each, in order.
pub open spec fn stmttrnrs_list_matches(
    xs: Seq<crate::structure::StatementTransactionResponseXml>,
    cs: Seq<NodeV>,
) -> bool {
    &&& xs.len() == matching_children(cs, "STMTTRNRS"@, 0).len()
    &&& forall|k: int|
        0 <= k < xs.len() ==> stmttrnrs_matches(
            xs[k],
            #[trigger] matching_children(cs, "STMTTRNRS"@, 0)[k],
        )
}

/// Decodes every `STMTTRNRS` child, in document order; at least one
/// must be there.
pub fn parse_stmttrnrs_list(cs: &Vec<Node>) -> (r: Result<
    Vec<crate::structure::StatementTransactionResponseXml>,
    String,
>)
    ensures
        match r {
            Ok(xs) => stmttrnrs_list_wf(nodes_view(cs@)) && stmttrnrs_list_matches(
                xs@,
                nodes_view(cs@),
            ),
            Err(_) => !stmttrnrs_list_wf(nodes_view(cs@)),
        },
{
    proof {
        lemma_nodes_view(cs@);
    }
    let ghost cv = nodes_view(cs@);
    let ghost tag = "STMTTRNRS"@;
    let mut out: Vec<crate::structure::StatementTransactionResponseXml> = Vec::new();
    let ghost mut done: Seq<Seq<NodeV>> = Seq::empty();
    let mut i: usize = 0;
    proof {
        assert(Seq::<Seq<NodeV>>::empty() + matching_children(cv, tag, 0) =~= matching_children(
            cv,
            tag,
            0,
        ));
    }
    while i < cs.len()
        invariant
            i <= cs@.len(),
            cv == nodes_view(cs@),
            cv.len() == cs@.len(),
            tag == "STMTTRNRS"@,
            forall|j: int| 0 <= j < cs@.len() ==> cv[j] == node_view(cs@[j]),
            matching_children(cv, tag, 0) == done + matching_children(cv, tag, i as int),
            out@.len() == done.len(),
            forall|k: int| 0 <= k < done.len() ==> stmttrnrs_wf(#[trigger] done[k]),
            forall|k: int|
                0 <= k < done.len() ==> stmttrnrs_matches(out@[k], #[trigger] done[k]),
        decreases cs@.len() - i,
    {
        match &cs[i] {
            Node::Elem { name, children } => {
                if str_eq_ci(name.as_str(), "STMTTRNRS") {
                    let ghost gc = nodes_view(children@);
                    proof {
                        assert(matching_children(cv, tag, i as int) == seq![gc]
                            + matching_children(cv, tag, i as int + 1));
                        assert(matching_children(cv, tag, 0)[done.len() as int] == gc);
                    }
                    match parse_stmttrnrs(children) {
                        Ok(x) => {
                            out.push(x);
                            proof {
                                done = done + seq![gc];
                                assert((done.drop_last() + seq![gc]) + matching_children(
                                    cv,
                                    tag,
                                    i as int + 1,
                                ) =~= done.drop_last() + (seq![gc] + matching_children(
                                    cv,
                                    tag,
                                    i as int + 1,
                                )));
                            }
                        },
                        Err(e) => {
                            return Err(e);
                        },
                    }
                }
            },
            Node::Text(_) => {},
        }
        i += 1;
    }
    proof {
        assert(matching_children(cv, tag, i as int) =~= Seq::<Seq<NodeV>>::empty());
        assert(done + Seq::<Seq<NodeV>>::empty() =~= done);
    }
    if out.len() == 0 {
        return Err(String::from_str("no STMTTRNRS in BANKMSGSRSV1"));
    }
    Ok(out)
}

/// A well-formed `SONRS` element: a `STATUS`, a `DTSERVER` leaf, and
/// optional `LANGUAGE`, `DTPROFUP` and `FI`.
pub open spec fn sonrs_wf(cs: Seq<NodeV>) -> bool {
    &&& texts_blank(cs)
    &&& unique_child(cs, "STATUS"@)
    &&& unique_child(cs, "DTSERVER"@)
    &&& unique_child(cs, "LANGUAGE"@)
    &&& unique_child(cs, "DTPROFUP"@)
    &&& unique_child(cs, "FI"@)
    &&& required_leaf(cs, "DTSERVER"@)
    &&& leaf_ok_if_present(cs, "LANGUAGE"@)
    &&& leaf_ok_if_present(cs, "DTPROFUP"@)
    &&& (match child_elem(cs, "STATUS"@) {
        Some(n) => status_wf(elem_children(n)),
        None => false,
    })
    &&& (match child_elem(cs, "FI"@) {
        Some(n) => fi_wf(elem_children(n)),
        None => true,
    })
}

pub open spec fn sonrs_matches(x: crate::structure::SignOnResponseXml, cs: Seq<NodeV>) -> bool {
    &&& status_matches(x.status, elem_children(child_elem(cs, "STATUS"@)->Some_0))
    &&& Some(x.dtserver@) == child_leaf(cs, "DTSERVER"@)
    &&& opt_view(x.language) == child_leaf(cs, "LANGUAGE"@)
    &&& opt_view(x.dtprofup) == child_leaf(cs, "DTPROFUP"@)
    &&& (match x.fi {
        Some(f) => child_elem(cs, "FI"@) is Some && fi_matches(
            f,
            elem_children(child_elem(cs, "FI"@)->Some_0),
        ),
        None => child_elem(cs, "FI"@) is None,
    })
}

/// Decodes a `SONRS` element from its children.
pub fn parse_sonrs(cs: &Vec<Node>) -> (r: Result<crate::structure::SignOnResponseXml, String>)
    ensures
        match r {
            Ok(x) => sonrs_wf(nodes_view(cs@)) && sonrs_matches(x, nodes_view(cs@)),
            Err(_) => !sonrs_wf(nodes_view(cs@)),
        },
{
    if !texts_blank_exec(cs) {
        return Err(String::from_str("unexpected text in SONRS"));
    }
    if !unique_child_exec(cs, "STATUS") || !unique_child_exec(cs, "DTSERVER")
        || !unique_child_exec(cs, "LANGUAGE") || !unique_child_exec(cs, "DTPROFUP")
        || !unique_child_exec(cs, "FI") {
        return Err(String::from_str("duplicate field in SONRS"));
    }
    let status = match elem_child(cs, "STATUS") {
        Some(gc) => match parse_status(gc) {
            Ok(x) => x,
            Err(e) => {
                return Err(e);
            },
        },
        None => {
            return Err(String::from_str("missing STATUS in SONRS"));
        },
    };
    let dtserver = match leaf_child(cs, "DTSERVER") {
        Ok(Some(s)) => s,
        Ok(None) => {
            return Err(String::from_str("missing DTSERVER in SONRS"));
        },
        Err(e) => {
            return Err(e);
        },
    };
    let language = match leaf_child(cs, "LANGUAGE") {
        Ok(o) => o,
        Err(e) => {
            return Err(e);
        },
    };
    let dtprofup = match leaf_child(cs, "DTPROFUP") {
        Ok(o) => o,
        Err(e) => {
            return Err(e);
        },
    };
    let fi = match elem_child(cs, "FI") {
        Some(gc) => match parse_fi(gc) {
            Ok(x) => Some(x),
            Err(e) => {
                return Err(e);
            },
        },
        None => None,
    };
    Ok(crate::structure::SignOnResponseXml { status, dtserver, language, dtprofup, fi })
}

/// A well-formed `SIGNONMSGSRSV1` element: exactly one `SONRS`.
pub open spec fn signonmsgs_wf(cs: Seq<NodeV>) -> bool {
    &&& texts_blank(cs)
    &&& unique_child(cs, "SONRS"@)
    &&& (match child_elem(cs, "SONRS"@) {
        Some(n) => sonrs_wf(elem_children(n)),
        None => false,
    })
}

pub open spec fn signonmsgs_matches(
    x: crate::structure::SignOnMessageResponseV1Xml,
    cs: Seq<NodeV>,
) -> bool {
    sonrs_matches(x.sonrs, elem_children(child_elem(cs, "SONRS"@)->Some_0))
}

/// Decodes a `SIGNONMSGSRSV1` element from its children.
pub fn parse_signonmsgs(cs: &Vec<Node>) -> (r: Result<
    crate::structure::SignOnMessageResponseV1Xml,
    String,
>)
    ensures
        match r {
            Ok(x) => signonmsgs_wf(nodes_view(cs@)) && signonmsgs_matches(x, nodes_view(cs@)),
            Err(_) => !signonmsgs_wf(nodes_view(cs@)),
        },
{
    if !texts_blank_exec(cs) {
        return Err(String::from_str("unexpected text in SIGNONMSGSRSV1"));
    }
    if !unique_child_exec(cs, "SONRS") {
        return Err(String::from_str("duplicate SONRS in SIGNONMSGSRSV1"));
    }
    let sonrs = match elem_child(cs, "SONRS") {
        Some(gc) => match parse_sonrs(gc) {
            Ok(x) => x,
            Err(e) => {
                return Err(e);
            },
        },
        None => {
            return Err(String::from_str("missing SONRS in SIGNONMSGSRSV1"));
        },
    };
    Ok(crate::structure::SignOnMessageResponseV1Xml { sonrs })
}

/// A well-formed `BANKMSGSRSV1` element: its statement-transaction
/// responses.
pub open spec fn bankmsgs_wf(cs: Seq<NodeV>) -> bool {
    &&& texts_blank(cs)
    &&& stmttrnrs_list_wf(cs)
}

pub open spec fn bankmsgs_matches(
    x: crate::structure::BankMessageResponseV1Xml,
    cs: Seq<NodeV>,
) -> bool {
    stmttrnrs_list_matches(x.stmttrnrs@, cs)
}

/// Decodes a `BANKMSGSRSV1` element from its children.
pub fn parse_bankmsgs(cs: &Vec<Node>) -> (r: Result<
    crate::structure::BankMessageResponseV1Xml,
    String,
>)
    ensures
        match r {
            Ok(x) => bankmsgs_wf(nodes_view(cs@)) && bankmsgs_matches(x, nodes_view(cs@)),
            Err(_) => !bankmsgs_wf(nodes_view(cs@)),
        },
{
    if !texts_blank_exec(cs) {
        return Err(String::from_str("unexpected text in BANKMSGSRSV1"));
    }
    let stmttrnrs = match parse_stmttrnrs_list(cs) {
        Ok(v) => v,
        Err(e) => {
            return Err(e);
        },
    };
    Ok(crate::structure::BankMessageResponseV1Xml { stmttrnrs })
}

/// The `OFX` root element's children: one `SIGNONMSGSRSV1` and one
/// `BANKMSGSRSV1`.
pub open spec fn ofx_wf(cs: Seq<NodeV>) -> bool {
    &&& texts_blank(cs)
    &&& unique_child(cs, "SIGNONMSGSRSV1"@)
    &&& unique_child(cs, "BANKMSGSRSV1"@)
    &&& (match child_elem(cs, "SIGNONMSGSRSV1"@) {
        Some(n) => signonmsgs_wf(elem_children(n)),
        None => false,
    })
    &&& (match child_elem(cs, "BANKMSGSRSV1"@) {
        Some(n) => bankmsgs_wf(elem_children(n)),
        None => false,
    })
}

pub open spec fn ofx_matches(x: crate::structure::OfxBodyXml, cs: Seq<NodeV>) -> bool {
    &&& signonmsgs_matches(
        x.signonmsgsrsv1,
        elem_children(child_elem(cs, "SIGNONMSGSRSV1"@)->Some_0),
    )
    &&& bankmsgs_matches(x.bankmsgsrsv1, elem_children(child_elem(cs, "BANKMSGSRSV1"@)->Some_0))
}

/// A well-formed body forest: blank text around exactly one `OFX` root
/// element, itself well-formed.
pub open spec fn body_wf(ns: Seq<NodeV>) -> bool {
    &&& texts_blank(ns)
    &&& unique_child(ns, "OFX"@)
    &&& (forall|i: int|
        0 <= i < ns.len() ==> ((#[trigger] ns[i]) matches NodeV::Elem(nm, _) ==> seq_eq_ci(
            nm,
            "OFX"@,
        )))
    &&& (match child_elem(ns, "OFX"@) {
        Some(n) => ofx_wf(elem_children(n)),
        None => false,
    })
}

pub open spec fn body_matches(x: crate::structure::OfxBodyXml, ns: Seq<NodeV>) -> bool {
    ofx_matches(x, elem_children(child_elem(ns, "OFX"@)->Some_0))
}

/// Checks that every element of the forest is an `OFX` root.
fn roots_ofx_only(ns: &Vec<Node>) -> (r: bool)
    ensures
        r == (forall|i: int|
            0 <= i < nodes_view(ns@).len() ==> ((#[trigger] nodes_view(ns@)[i]) matches
            NodeV::Elem(nm, _) ==> seq_eq_ci(nm, "OFX"@))),
{
    proof {
        lemma_nodes_view(ns@);
    }
    let ghost nv = nodes_view(ns@);
    let mut i: usize = 0;
    while i < ns.len()
        invariant
            i <= ns@.len(),
            nv == nodes_view(ns@),
            nv.len() == ns@.len(),
            forall|j: int| 0 <= j < ns@.len() ==> nv[j] == node_view(ns@[j]),
            forall|j: int|
                0 <= j < i ==> ((#[trigger] nv[j]) matches NodeV::Elem(nm, _) ==> seq_eq_ci(
                    nm,
                    "OFX"@,
                )),
        decreases ns@.len() - i,
    {
        match &ns[i] {
            Node::Elem { name, .. } => {
                if !str_eq_ci(name.as_str(), "OFX") {
                    proof {
                        assert(nv[i as int] == node_view(ns@[i as int]));
                    }
                    return false;
                }
            },
            Node::Text(_) => {},
        }
        i += 1;
    }
    true
}

/// Decodes the whole body forest into the structural layer.  The result
/// is pinned by [`body_wf`] and [`body_matches`]: `Ok` exactly when the
/// forest is schema-valid, and then every field of the structure equals
/// what the schema reads off the tree.
pub fn parse_body_forest(ns: &Vec<Node>) -> (r: Result<crate::structure::OfxBodyXml, String>)
    ensures
        match r {
            Ok(x) => body_wf(nodes_view(ns@)) && body_matches(x, nodes_view(ns@)),
            Err(_) => !body_wf(nodes_view(ns@)),
        },
{
    if !texts_blank_exec(ns) {
        return Err(String::from_str("unexpected text at the top of the body"));
    }
    if !unique_child_exec(ns, "OFX") {
        return Err(String::from_str("more than one OFX root"));
    }
    if !roots_ofx_only(ns) {
        return Err(String::from_str("unexpected element beside the OFX root"));
    }
    let root = match elem_child(ns, "OFX") {
        Some(gc) => gc,
        None => {
            return Err(String::from_str("no OFX root element"));
        },
    };
    if !texts_blank_exec(root) {
        return Err(String::from_str("unexpected text in OFX"));
    }
    if !unique_child_exec(root, "SIGNONMSGSRSV1") || !unique_child_exec(root, "BANKMSGSRSV1") {
        return Err(String::from_str("duplicate message set in OFX"));
    }
    let signonmsgsrsv1 = match elem_child(root, "SIGNONMSGSRSV1") {
        Some(gc) => match parse_signonmsgs(gc) {
            Ok(x) => x,
            Err(e) => {
                return Err(e);
            },
        },
        None => {
            return Err(String::from_str("missing SIGNONMSGSRSV1 in OFX"));
        },
    };
    let bankmsgsrsv1 = match elem_child(root, "BANKMSGSRSV1") {
        Some(gc) => match parse_bankmsgs(gc) {
            Ok(x) => x,
            Err(e) => {
                return Err(e);
            },
        },
        None => {
            return Err(String::from_str("missing BANKMSGSRSV1 in OFX"));
        },
    };
    Ok(crate::structure::OfxBodyXml { signonmsgsrsv1, bankmsgsrsv1 })
}

} // verus!
