//! From flat tokens to a nested tree.
//!
//! The body grammar: a forest of nodes, where a node is either character
//! data or `Start(n) … End(n)` around a nested forest.  [`sp_nodes`] is
//! the grammar written as a function — it consumes tokens until a
//! closing tag it does not own (or the end) and hands back the rest —
//! and [`parse_siblings`] is its executable mirror, proved to return
//! exactly what the grammar prescribes, with a mismatched or missing
//! closing tag as the only failures.

use vstd::prelude::*;
use vstd::string::StringExecFns;

use crate::text::str_eq;
use crate::tokens::Tok;
use crate::tokens::TokV;
use crate::tokens::tok_view;
use crate::tokens::toks_view;

verus! {

broadcast use vstd::std_specs::vec::group_vec_axioms, vstd::seq::group_seq_axioms;

/// A node of the body tree: an element with its children in document
/// order, or character data.
pub enum Node {
    Elem { name: String, children: Vec<Node> },
    Text(String),
}

/// The view of a node, over character sequences.
pub enum NodeV {
    Elem(Seq<char>, Seq<NodeV>),
    Text(Seq<char>),
}

pub open spec fn node_view(n: Node) -> NodeV
    decreases n, 1int,
{
    match n {
        Node::Text(t) => NodeV::Text(t@),
        Node::Elem { name, children } => NodeV::Elem(name@, nodes_view(children@)),
    }
}

pub open spec fn nodes_view(cs: Seq<Node>) -> Seq<NodeV>
    decreases cs, 0int,
{
    if cs.len() == 0 {
        Seq::empty()
    } else {
        seq![node_view(cs[0])] + nodes_view(cs.drop_first())
    }
}

/// The view of a forest is element for element the view of its nodes.
pub proof fn lemma_nodes_view(cs: Seq<Node>)
    ensures
        nodes_view(cs).len() == cs.len(),
        forall|i: int| 0 <= i < cs.len() ==> nodes_view(cs)[i] == node_view(cs[i]),
    decreases cs.len(),
{
    if cs.len() > 0 {
        lemma_nodes_view(cs.drop_first());
    }
}

/// The grammar, fuelled for termination: parses sibling nodes from the
/// front of `toks` until a closing tag or the end, returning the parsed
/// forest and the unconsumed rest.  Any fuel of at least `toks.len()+1`
/// is enough, so `None` with such a fuel means the tokens are not
/// well-formed.
pub open spec fn sp_nodes(toks: Seq<TokV>, fuel: nat) -> Option<(Seq<NodeV>, Seq<TokV>)>
    decreases fuel,
{
    if fuel == 0 {
        None
    } else if toks.len() == 0 {
        Some((Seq::empty(), toks))
    } else {
        match toks[0] {
            TokV::End(_) => Some((Seq::empty(), toks)),
            TokV::Text(t) => match sp_nodes(toks.drop_first(), (fuel - 1) as nat) {
                None => None,
                Some(pr) => Some((seq![NodeV::Text(t)] + pr.0, pr.1)),
            },
            TokV::Start(n) => match sp_nodes(toks.drop_first(), (fuel - 1) as nat) {
                None => None,
                Some(pr) => {
                    if pr.1.len() == 0 {
                        None
                    } else {
                        match pr.1[0] {
                            TokV::End(m) => if m == n {
                                match sp_nodes(pr.1.drop_first(), (fuel - 1) as nat) {
                                    None => None,
                                    Some(pr2) => Some(
                                        (seq![NodeV::Elem(n, pr.0)] + pr2.0, pr2.1),
                                    ),
                                }
                            } else {
                                None
                            },
                            _ => None,
                        }
                    }
                },
            },
        }
    }
}

/// What the grammar leaves unconsumed is never longer than its input,
/// and always begins with a closing tag when it is not empty.
pub proof fn lemma_sp_props(toks: Seq<TokV>, fuel: nat)
    requires
        sp_nodes(toks, fuel) is Some,
    ensures
        sp_nodes(toks, fuel)->Some_0.1.len() <= toks.len(),
        sp_nodes(toks, fuel)->Some_0.1.len() > 0 ==> sp_nodes(toks, fuel)->Some_0.1[0] is End,
    decreases fuel,
{
    if fuel > 0 && toks.len() > 0 {
        match toks[0] {
            TokV::End(_) => {},
            TokV::Text(_) => {
                lemma_sp_props(toks.drop_first(), (fuel - 1) as nat);
            },
            TokV::Start(_) => {
                lemma_sp_props(toks.drop_first(), (fuel - 1) as nat);
                let pr = sp_nodes(toks.drop_first(), (fuel - 1) as nat)->Some_0;
                if pr.1.len() > 0 && pr.1[0] is End {
                    lemma_sp_props(pr.1.drop_first(), (fuel - 1) as nat);
                }
            },
        }
    }
}

/// Any two sufficient fuels give the same parse.
pub proof fn lemma_sp_fuel(toks: Seq<TokV>, f1: nat, f2: nat)
    requires
        f1 >= toks.len() + 1,
        f2 >= toks.len() + 1,
    ensures
        sp_nodes(toks, f1) == sp_nodes(toks, f2),
    decreases f1 + f2,
{
    if toks.len() > 0 {
        match toks[0] {
            TokV::End(_) => {},
            TokV::Text(_) => {
                lemma_sp_fuel(toks.drop_first(), (f1 - 1) as nat, (f2 - 1) as nat);
            },
            TokV::Start(_) => {
                lemma_sp_fuel(toks.drop_first(), (f1 - 1) as nat, (f2 - 1) as nat);
                match sp_nodes(toks.drop_first(), (f1 - 1) as nat) {
                    None => {},
                    Some(pr) => {
                        lemma_sp_props(toks.drop_first(), (f1 - 1) as nat);
                        if pr.1.len() > 0 && pr.1[0] is End {
                            lemma_sp_fuel(pr.1.drop_first(), (f1 - 1) as nat, (f2 - 1) as nat);
                        }
                    },
                }
            },
        }
    }
}

/// Parses sibling nodes from `i0` on, exactly as the grammar
/// [`sp_nodes`] prescribes: `Ok` returns the forest and the index of the
/// first unconsumed token; `Err` means the tokens are not well-formed.
pub fn parse_siblings(toks: &Vec<Tok>, i0: usize) -> (r: Result<(Vec<Node>, usize), String>)
    requires
        i0 <= toks@.len(),
    ensures
        match r {
            Ok(pr) => i0 <= pr.1 <= toks@.len() && sp_nodes(
                toks_view(toks@).skip(i0 as int),
                (toks@.len() - i0 + 1) as nat,
            ) == Some((nodes_view(pr.0@), toks_view(toks@).skip(pr.1 as int))),
            Err(_) => sp_nodes(
                toks_view(toks@).skip(i0 as int),
                (toks@.len() - i0 + 1) as nat,
            ) is None,
        },
    decreases toks@.len() - i0,
{
    let ghost tv = toks_view(toks@);
    let ghost fuel = (toks@.len() - i0 + 1) as nat;
    let len = toks.len();
    proof {
        assert(tv.len() == toks@.len());
        assert(tv.skip(i0 as int).len() == len - i0);
    }
    if i0 == len {
        let ns: Vec<Node> = Vec::new();
        proof {
            assert(nodes_view(ns@) =~= Seq::<NodeV>::empty());
            assert(tv.skip(i0 as int) =~= Seq::<TokV>::empty());
        }
        return Ok((ns, i0));
    }
    proof {
        assert(tv.skip(i0 as int)[0] == tok_view(toks@[i0 as int]));
        assert(tv.skip(i0 as int).drop_first() =~= tv.skip(i0 as int + 1));
    }
    match &toks[i0] {
        Tok::End(_) => {
            let ns: Vec<Node> = Vec::new();
            proof {
                assert(nodes_view(ns@) =~= Seq::<NodeV>::empty());
            }
            Ok((ns, i0))
        },
        Tok::Text(t) => {
            match parse_siblings(toks, i0 + 1) {
                Err(e) => Err(e),
                Ok((ns, j)) => {
                    let ghost tail = ns@;
                    let mut out: Vec<Node> = Vec::new();
                    out.push(Node::Text(t.clone()));
                    let mut rest_vec = ns;
                    out.append(&mut rest_vec);
                    proof {
                        assert(out@ =~= seq![out@[0]] + tail);
                        assert(node_view(out@[0]) == NodeV::Text(t@));
                        lemma_nodes_view(out@);
                        lemma_nodes_view(tail);
                        assert(nodes_view(out@) =~= seq![NodeV::Text(t@)] + nodes_view(tail));
                    }
                    Ok((out, j))
                },
            }
        },
        Tok::Start(n) => {
            let name = n.clone();
            match parse_siblings(toks, i0 + 1) {
                Err(e) => Err(e),
                Ok((children, j)) => {
                    if j == len {
                        proof {
                            assert(tv.skip(j as int).len() == 0);
                        }
                        return Err(String::from_str("missing closing tag"));
                    }
                    proof {
                        assert(tv.skip(j as int)[0] == tok_view(toks@[j as int]));
                        assert(tv.skip(j as int).drop_first() =~= tv.skip(j as int + 1));
                    }
                    match &toks[j] {
                        Tok::End(m) => {
                            if str_eq(m.as_str(), name.as_str()) {
                                match parse_siblings(toks, j + 1) {
                                    Err(e) => {
                                        proof {
                                            lemma_sp_fuel(
                                                tv.skip(j as int + 1),
                                                (toks@.len() - (j + 1) + 1) as nat,
                                                (fuel - 1) as nat,
                                            );
                                        }
                                        Err(e)
                                    },
                                    Ok((sibs, k)) => {
                                        let ghost tail = sibs@;
                                        let ghost chv = children@;
                                        let mut out: Vec<Node> = Vec::new();
                                        out.push(Node::Elem { name, children });
                                        let mut rest_vec = sibs;
                                        out.append(&mut rest_vec);
                                        proof {
                                            lemma_sp_fuel(
                                                tv.skip(j as int + 1),
                                                (toks@.len() - (j + 1) + 1) as nat,
                                                (fuel - 1) as nat,
                                            );
                                            assert(out@ =~= seq![out@[0]] + tail);
                                            assert(node_view(out@[0]) == NodeV::Elem(
                                                n@,
                                                nodes_view(chv),
                                            ));
                                            lemma_nodes_view(out@);
                                            lemma_nodes_view(tail);
                                            assert(nodes_view(out@) =~= seq![
                                                NodeV::Elem(n@, nodes_view(chv)),
                                            ] + nodes_view(tail));
                                        }
                                        Ok((out, k))
                                    },
                                }
                            } else {
                                let mut msg = String::from_str("mismatched closing tag: ");
                                msg.append(m.as_str());
                                Err(msg)
                            }
                        },
                        _ => {
                            proof {
                                lemma_sp_props(tv.skip(i0 as int + 1), (len - (i0 + 1) + 1) as nat);
                            }
                            Err(String::from_str("malformed body"))
                        },
                    }
                },
            }
        },
    }
}

/// The tokens a whole body must form: one well-formed forest with
/// nothing left over.
pub open spec fn spec_forest(toks: Seq<TokV>) -> Option<Seq<NodeV>> {
    match sp_nodes(toks, toks.len() + 1) {
        Some(pr) => if pr.1.len() == 0 {
            Some(pr.0)
        } else {
            None
        },
        None => None,
    }
}

/// Parses the whole token list into the body forest; `Err` exactly when
/// the tokens do not form one.
pub fn parse_tree(toks: &Vec<Tok>) -> (r: Result<Vec<Node>, String>)
    ensures
        match r {
            Ok(ns) => spec_forest(toks_view(toks@)) == Some(nodes_view(ns@)),
            Err(_) => spec_forest(toks_view(toks@)) is None,
        },
{
    proof {
        assert(toks_view(toks@).skip(0) =~= toks_view(toks@));
    }
    match parse_siblings(toks, 0) {
        Err(e) => Err(e),
        Ok((ns, j)) => {
            if j == toks.len() {
                proof {
                    assert(toks_view(toks@).skip(j as int).len() == 0);
                }
                Ok(ns)
            } else {
                Err(String::from_str("unexpected closing tag"))
            }
        },
    }
}

} // verus!
