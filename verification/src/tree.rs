//! The tree builder: turns the lexer's flat token stream into one raw
//! element tree, with an exact specification. It is verified for every
//! possible token sequence: whatever the lexer produced, the tree the
//! builder returns is the one the specification names, and a stream that
//! forms no single well-nested document element is rejected.

use vstd::prelude::*;

use crate::decode::DecodeError;
use crate::lex::{attrs_view, toks_view, TokV, XmlToken};
use crate::raw::{nodes_view, RawNode, SpecNode};
use crate::strutil::str_eq;

verus! {

broadcast use vstd::std_specs::vec::group_vec_axioms, crate::raw::lemma_nodes_view, crate::raw::lemma_nodes_view_push;

/// Parses one element starting at token `i`: a self-closing tag, or an
/// opening tag, its content, and the matching closing tag. The result
/// carries the index of the first token after the element.
pub open spec fn sp_node(toks: Seq<TokV>, i: int) -> Option<(SpecNode, int)>
    decreases toks.len() - i, 0int,
{
    if i < 0 || i >= toks.len() {
        None
    } else {
        match toks[i] {
            TokV::SelfClosed(t, a) => Some(
                (SpecNode { tag: t, attrs: a, children: Seq::empty(), text: Seq::empty() }, i + 1),
            ),
            TokV::Open(t, a) => match sp_content(toks, i + 1) {
                Some((cs, tx, j)) => {
                    if i + 1 <= j < toks.len() && (toks[j] matches TokV::Close(t2) && t2 == t) {
                        Some((SpecNode { tag: t, attrs: a, children: cs, text: tx }, j + 1))
                    } else {
                        None
                    }
                },
                None => None,
            },
            _ => None,
        }
    }
}

/// Parses element content up to, but not consuming, the next closing tag:
/// the child elements in order, and all text runs concatenated.
pub open spec fn sp_content(toks: Seq<TokV>, i: int) -> Option<(Seq<SpecNode>, Seq<char>, int)>
    decreases toks.len() - i, 1int,
{
    if i < 0 || i >= toks.len() {
        None
    } else {
        match toks[i] {
            TokV::Close(_) => Some((Seq::empty(), Seq::empty(), i)),
            TokV::Text(s) => match sp_content(toks, i + 1) {
                Some((cs, tx, j)) => Some((cs, s + tx, j)),
                None => None,
            },
            _ => match sp_node(toks, i) {
                Some((n, j)) => {
                    if i < j <= toks.len() {
                        match sp_content(toks, j) {
                            Some((cs, tx, jj)) => Some((seq![n] + cs, tx, jj)),
                            None => None,
                        }
                    } else {
                        None
                    }
                },
                None => None,
            },
        }
    }
}

/// The first index at or after `i` that holds a non-text token.
pub open spec fn sp_skip_text(toks: Seq<TokV>, i: int) -> int
    decreases toks.len() - i,
{
    if 0 <= i < toks.len() && toks[i] is Text {
        sp_skip_text(toks, i + 1)
    } else {
        i
    }
}

/// Parses a whole document: optional text around exactly one document
/// element; anything else is no document.
pub open spec fn sp_tree(toks: Seq<TokV>) -> Option<SpecNode> {
    let s = sp_skip_text(toks, 0);
    match sp_node(toks, s) {
        Some((n, j)) => {
            if sp_skip_text(toks, j) == toks.len() {
                Some(n)
            } else {
                None
            }
        },
        None => None,
    }
}

fn malformed(reason: &str) -> (e: DecodeError)
    ensures
        e is MalformedMarkup,
{
    DecodeError::MalformedMarkup(reason.to_owned())
}

fn clone_attrs(v: &Vec<(String, String)>) -> (r: Vec<(String, String)>)
    ensures
        attrs_view(r@) == attrs_view(v@),
{
    let mut r: Vec<(String, String)> = Vec::new();
    let mut i: usize = 0;
    while i < v.len()
        invariant
            i <= v.len(),
            r@.len() == i,
            forall|j: int|
                0 <= j < i ==> (#[trigger] r@[j]).0@ == v@[j].0@ && r@[j].1@ == v@[j].1@,
        decreases v.len() - i,
    {
        r.push((v[i].0.clone(), v[i].1.clone()));
        i = i + 1;
    }
    proof {
        assert(attrs_view(r@) =~= attrs_view(v@));
    }
    r
}

/// Parses one element from the token stream.
pub fn parse_node(toks: &Vec<XmlToken>, i: usize) -> (r: Result<(RawNode, usize), DecodeError>)
    requires
        i <= toks@.len(),
    ensures
        r matches Ok(p) ==> sp_node(toks_view(toks@), i as int) == Some((p.0@, p.1 as int)) && i
            < p.1 <= toks@.len(),
        r matches Err(e) ==> sp_node(toks_view(toks@), i as int) is None && e is MalformedMarkup,
    decreases toks@.len() - i, 0int,
{
    let ghost tv = toks_view(toks@);
    if i >= toks.len() {
        return Err(malformed("unexpected end of input"));
    }
    match &toks[i] {
        XmlToken::SelfClosed(t, a) => {
            let n = RawNode {
                tag: t.clone(),
                attrs: clone_attrs(a),
                children: Vec::new(),
                text: String::new(),
            };
            proof {
                assert(tv[i as int] == toks@[i as int]@);
                assert(n@.attrs =~= attrs_view(n.attrs@));
                assert(n@.children =~= Seq::<SpecNode>::empty());
                assert(n@ =~= (sp_node(tv, i as int)->0).0);
            }
            Ok((n, i + 1))
        },
        XmlToken::Open(t, a) => {
            match parse_content(toks, i + 1) {
                Err(e) => Err(e),
                Ok((cs, tx, j)) => {
                    proof {
                        assert(tv[j as int] == toks@[j as int]@);
                    }
                    match &toks[j] {
                        XmlToken::Close(t2) => {
                            if str_eq(t2.as_str(), t.as_str()) {
                                let n = RawNode {
                                    tag: t.clone(),
                                    attrs: clone_attrs(a),
                                    children: cs,
                                    text: tx,
                                };
                                proof {
                                    assert(tv[i as int] == toks@[i as int]@);
                                    assert(n@.attrs =~= attrs_view(n.attrs@));
                                    assert(n@ =~= (sp_node(tv, i as int)->0).0);
                                }
                                Ok((n, j + 1))
                            } else {
                                proof {
                                    assert(tv[i as int] == toks@[i as int]@);
                                }
                                Err(malformed("mismatched closing tag"))
                            }
                        },
                        _ => {
                            proof {
                                assert(tv[i as int] == toks@[i as int]@);
                            }
                            Err(malformed("missing closing tag"))
                        },
                    }
                },
            }
        },
        XmlToken::Close(_) => {
            proof {
                assert(tv[i as int] == toks@[i as int]@);
            }
            Err(malformed("unexpected closing tag"))
        },
        XmlToken::Text(_) => {
            proof {
                assert(tv[i as int] == toks@[i as int]@);
            }
            Err(malformed("unexpected character data"))
        },
    }
}

/// Parses element content: child elements and text runs, stopping at the
/// first unmatched closing tag.
pub fn parse_content(toks: &Vec<XmlToken>, i: usize) -> (r: Result<
    (Vec<RawNode>, String, usize),
    DecodeError,
>)
    requires
        i <= toks@.len(),
    ensures
        r matches Ok(p) ==> sp_content(toks_view(toks@), i as int) == Some(
            (nodes_view(p.0@), p.1@, p.2 as int),
        ) && i <= p.2 < toks@.len() && toks_view(toks@)[p.2 as int] is Close,
        r matches Err(e) ==> sp_content(toks_view(toks@), i as int) is None
            && e is MalformedMarkup,
    decreases toks@.len() - i, 1int,
{
    let ghost tv = toks_view(toks@);
    let mut cs: Vec<RawNode> = Vec::new();
    let mut tx: String = String::new();
    let mut k: usize = i;
    proof {
        assert(nodes_view(cs@) =~= Seq::<SpecNode>::empty());
        if sp_content(tv, i as int) is Some {
            let (cs2, tx2, j) = sp_content(tv, i as int)->0;
            assert(Seq::<SpecNode>::empty() + cs2 =~= cs2);
            assert(Seq::<char>::empty() + tx2 =~= tx2);
        }
    }
    loop
        invariant
            i <= k <= toks@.len(),
            tv == toks_view(toks@),
            tv.len() == toks@.len(),
            sp_content(tv, i as int) == (match sp_content(tv, k as int) {
                None => None,
                Some((cs2, tx2, j)) => Some((nodes_view(cs@) + cs2, tx@ + tx2, j)),
            }),
        decreases toks@.len() - k,
    {
        if k >= toks.len() {
            return Err(malformed("unexpected end of input"));
        }
        proof {
            assert(tv[k as int] == toks@[k as int]@);
        }
        match &toks[k] {
            XmlToken::Close(_) => {
                proof {
                    assert(nodes_view(cs@) + Seq::<SpecNode>::empty() =~= nodes_view(cs@));
                    assert(tx@ + Seq::<char>::empty() =~= tx@);
                }
                return Ok((cs, tx, k));
            },
            XmlToken::Text(s) => {
                let ghost old_tx = tx@;
                tx.append(s.as_str());
                proof {
                    if sp_content(tv, k as int + 1) is Some {
                        let (cs2, tx2, j) = sp_content(tv, k as int + 1)->0;
                        assert(old_tx + (s@ + tx2) =~= (old_tx + s@) + tx2);
                    }
                }
                k = k + 1;
            },
            XmlToken::Open(_, _) => {
                match parse_node(toks, k) {
                    Err(e) => {
                        return Err(e);
                    },
                    Ok((n, j)) => {
                        let ghost old_cs = nodes_view(cs@);
                        let ghost nn = n@;
                        cs.push(n);
                        proof {
                            assert(nodes_view(cs@) == old_cs.push(nn));
                            assert(old_cs.push(nn) =~= old_cs + seq![nn]);
                            if sp_content(tv, j as int) is Some {
                                let (cs2, tx2, jj) = sp_content(tv, j as int)->0;
                                assert(old_cs + (seq![nn] + cs2) =~= (old_cs + seq![nn]) + cs2);
                            }
                        }
                        k = j;
                    },
                }
            },
            XmlToken::SelfClosed(_, _) => {
                match parse_node(toks, k) {
                    Err(e) => {
                        return Err(e);
                    },
                    Ok((n, j)) => {
                        let ghost old_cs = nodes_view(cs@);
                        let ghost nn = n@;
                        cs.push(n);
                        proof {
                            assert(nodes_view(cs@) == old_cs.push(nn));
                            assert(old_cs.push(nn) =~= old_cs + seq![nn]);
                            if sp_content(tv, j as int) is Some {
                                let (cs2, tx2, jj) = sp_content(tv, j as int)->0;
                                assert(old_cs + (seq![nn] + cs2) =~= (old_cs + seq![nn]) + cs2);
                            }
                        }
                        k = j;
                    },
                }
            },
        }
    }
}

fn skip_text_from(toks: &Vec<XmlToken>, start: usize) -> (r: usize)
    requires
        start <= toks@.len(),
    ensures
        r as int == sp_skip_text(toks_view(toks@), start as int),
        start <= r <= toks@.len(),
{
    let ghost tv = toks_view(toks@);
    let mut i: usize = start;
    while i < toks.len()
        invariant
            start <= i <= toks@.len(),
            tv == toks_view(toks@),
            sp_skip_text(tv, start as int) == sp_skip_text(tv, i as int),
        decreases toks@.len() - i,
    {
        proof {
            assert(tv[i as int] == toks@[i as int]@);
        }
        match &toks[i] {
            XmlToken::Text(_) => {
                i = i + 1;
            },
            _ => {
                return i;
            },
        }
    }
    i
}

/// Builds the raw document tree from a token stream: optional text around
/// exactly one well-nested document element.
pub fn build_tree(toks: &Vec<XmlToken>) -> (r: Result<RawNode, DecodeError>)
    ensures
        r matches Ok(n) ==> sp_tree(toks_view(toks@)) == Some(n@),
        r matches Err(e) ==> sp_tree(toks_view(toks@)) is None && e is MalformedMarkup,
{
    let ghost tv = toks_view(toks@);
    let s = skip_text_from(toks, 0);
    match parse_node(toks, s) {
        Err(e) => Err(e),
        Ok((n, j)) => {
            let m = skip_text_from(toks, j);
            if m == toks.len() {
                Ok(n)
            } else {
                Err(malformed("content outside the document element"))
            }
        },
    }
}


/// The canonical token sequence of one element: what the lexer yields for
/// the rendered text of an element whose character data needs no entity
/// references (entity references split character data into several `Text`
/// tokens, which the builder concatenates back).
pub open spec fn node_tokens(n: SpecNode) -> Seq<TokV>
    decreases n, 0int, 0int,
{
    if n.children.len() == 0 && n.text.len() == 0 {
        seq![TokV::SelfClosed(n.tag, n.attrs)]
    } else {
        seq![TokV::Open(n.tag, n.attrs)] + text_tokens(n.text) + children_tokens(n.children)
            + seq![TokV::Close(n.tag)]
    }
}

/// The token a text payload contributes: nothing when it is empty.
pub open spec fn text_tokens(t: Seq<char>) -> Seq<TokV> {
    if t.len() == 0 {
        Seq::empty()
    } else {
        seq![TokV::Text(t)]
    }
}

/// The canonical tokens of a sequence of sibling elements, in order.
pub open spec fn children_tokens(s: Seq<SpecNode>) -> Seq<TokV>
    decreases s, 0int, 0int,
{
    if s.len() == 0 {
        Seq::empty()
    } else {
        node_tokens(s[0]) + children_tokens(s.drop_first())
    }
}

/// The builder inverts tokenization: wherever the canonical tokens of an
/// element stand in a token stream, parsing from there yields exactly
/// that element and stops exactly after its tokens.
pub proof fn lemma_parse_node_tokens(toks: Seq<TokV>, i: int, n: SpecNode)
    requires
        0 <= i,
        i + node_tokens(n).len() <= toks.len(),
        toks.subrange(i, i + node_tokens(n).len()) == node_tokens(n),
    ensures
        sp_node(toks, i) == Some((n, i + node_tokens(n).len())),
    decreases n, 0int, 0int,
{
    let nt = node_tokens(n);
    assert(toks.subrange(i, i + nt.len())[0] == toks[i]);
    assert(toks[i] == nt[0]);
    if n.children.len() == 0 && n.text.len() == 0 {
        assert(nt[0] == TokV::SelfClosed(n.tag, n.attrs));
        assert(i < toks.len());
        assert(toks[i] matches TokV::SelfClosed(t, a) && t == n.tag && a == n.attrs);
        assert(sp_node(toks, i) is Some);
        assert((sp_node(toks, i)->0).1 == i + 1);
        assert(n.children =~= Seq::<SpecNode>::empty());
        assert(n.text =~= Seq::<char>::empty());
        assert((sp_node(toks, i)->0).0 == n);
    } else {
        let body = text_tokens(n.text) + children_tokens(n.children);
        assert(nt[0] == TokV::Open(n.tag, n.attrs));
        assert(toks.subrange(i + 1, i + 1 + body.len()) =~= body) by {
            assert forall|k: int| 0 <= k < body.len() implies toks.subrange(
                i + 1,
                i + 1 + body.len(),
            )[k] == body[k] by {
                assert(toks.subrange(i + 1, i + 1 + body.len())[k] == toks[i + 1 + k]);
                assert(toks[i + 1 + k] == nt[1 + k]);
                assert(nt[1 + k] == (seq![TokV::Open(n.tag, n.attrs)] + body)[1 + k]);
            }
        }
        assert(toks[i + 1 + body.len() as int] == nt[1 + body.len() as int]);
        assert(nt[1 + body.len() as int] == TokV::Close(n.tag));
        lemma_parse_content_tokens(toks, i + 1, n.children, n.text);
        assert((sp_node(toks, i)->0).0 =~= n);
    }
}

/// The builder inverts tokenization of element content: a text token, the
/// children's tokens in order, and then the enclosing closing tag.
pub proof fn lemma_parse_content_tokens(toks: Seq<TokV>, i: int, cs: Seq<SpecNode>, tx: Seq<char>)
    requires
        0 <= i,
        i + (text_tokens(tx) + children_tokens(cs)).len() < toks.len(),
        toks.subrange(i, i + (text_tokens(tx) + children_tokens(cs)).len()) == text_tokens(tx)
            + children_tokens(cs),
        toks[i + (text_tokens(tx) + children_tokens(cs)).len()] is Close,
    ensures
        sp_content(toks, i) == Some((cs, tx, i + (text_tokens(tx) + children_tokens(cs)).len())),
    decreases cs, 1int, tx.len(),
{
    let body = text_tokens(tx) + children_tokens(cs);
    if tx.len() > 0 {
        assert(toks[i] == body[0]);
        assert(body[0] == TokV::Text(tx));
        let rest = text_tokens(Seq::<char>::empty()) + children_tokens(cs);
        assert(rest =~= children_tokens(cs));
        assert(toks.subrange(i + 1, i + 1 + rest.len()) =~= rest) by {
            assert forall|k: int| 0 <= k < rest.len() implies toks.subrange(
                i + 1,
                i + 1 + rest.len(),
            )[k] == rest[k] by {
                assert(toks.subrange(i + 1, i + 1 + rest.len())[k] == toks[i + 1 + k]);
                assert(toks[i + 1 + k] == body[1 + k]);
            }
        }
        lemma_parse_content_tokens(toks, i + 1, cs, Seq::<char>::empty());
        assert(tx + Seq::<char>::empty() =~= tx);
    } else {
        assert(body =~= children_tokens(cs));
        if cs.len() == 0 {
            assert(body.len() == 0);
            assert(toks[i] is Close);
        } else {
            let nt = node_tokens(cs[0]);
            let rest = children_tokens(cs.drop_first());
            assert(children_tokens(cs) == nt + rest);
            assert(nt.len() > 0) by {
                if cs[0].children.len() == 0 && cs[0].text.len() == 0 {
                } else {
                }
            }
            assert(toks.subrange(i, i + nt.len()) =~= nt) by {
                assert forall|k: int| 0 <= k < nt.len() implies toks.subrange(
                    i,
                    i + nt.len(),
                )[k] == nt[k] by {
                    assert(toks.subrange(i, i + nt.len())[k] == toks[i + k]);
                    assert(toks[i + k] == body[k]);
                    assert(body[k] == (nt + rest)[k]);
                }
            }
            lemma_parse_node_tokens(toks, i, cs[0]);
            assert(toks[i] == nt[0]);
            assert(toks[i] is Open || toks[i] is SelfClosed) by {
                if cs[0].children.len() == 0 && cs[0].text.len() == 0 {
                } else {
                    assert(nt[0] == (seq![TokV::Open(cs[0].tag, cs[0].attrs)] + (text_tokens(
                        cs[0].text,
                    ) + children_tokens(cs[0].children)) + seq![TokV::Close(cs[0].tag)])[0]);
                }
            }
            let j = i + nt.len() as int;
            let rest2 = text_tokens(Seq::<char>::empty()) + rest;
            assert(rest2 =~= rest);
            assert(toks.subrange(j, j + rest.len()) =~= rest) by {
                assert forall|k: int| 0 <= k < rest.len() implies toks.subrange(
                    j,
                    j + rest.len(),
                )[k] == rest[k] by {
                    assert(toks.subrange(j, j + rest.len())[k] == toks[j + k]);
                    assert(toks[j + k] == body[nt.len() as int + k]);
                    assert(body[nt.len() as int + k] == (nt + rest)[nt.len() as int + k]);
                }
            }
            lemma_parse_content_tokens(toks, j, cs.drop_first(), Seq::<char>::empty());
            assert(seq![cs[0]] + cs.drop_first() =~= cs);
            assert(Seq::<char>::empty() + Seq::<char>::empty() =~= Seq::<char>::empty());
        }
    }
}

/// The whole-tree form: the canonical token sequence of an element parses
/// back to exactly that element.
pub proof fn lemma_parse_tree_tokens(n: SpecNode)
    ensures
        sp_tree(node_tokens(n)) == Some(n),
{
    let toks = node_tokens(n);
    assert(toks[0] is Open || toks[0] is SelfClosed) by {
        if n.children.len() == 0 && n.text.len() == 0 {
        } else {
            assert(toks[0] == (seq![TokV::Open(n.tag, n.attrs)] + (text_tokens(n.text)
                + children_tokens(n.children)) + seq![TokV::Close(n.tag)])[0]);
        }
    }
    assert(sp_skip_text(toks, 0) == 0);
    assert(toks.subrange(0, toks.len() as int) =~= toks);
    lemma_parse_node_tokens(toks, 0, n);
}

} // verus!
