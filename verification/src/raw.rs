//! The raw markup node model: a tag, ordered attributes, ordered child
//! elements, and the concatenated character data of the node, together
//! with the lookup operations the decoder is built from.

use vstd::prelude::*;

verus! {

broadcast use vstd::std_specs::vec::group_vec_axioms;

/// One raw markup element: its tag name, its attributes in document order,
/// its child elements in document order, and its character data
/// (all text runs concatenated, in order).
pub struct RawNode {
    pub tag: String,
    pub attrs: Vec<(String, String)>,
    pub children: Vec<RawNode>,
    pub text: String,
}

/// The mathematical model of a raw markup element.
#[verifier::ext_equal]
pub ghost struct SpecNode {
    pub tag: Seq<char>,
    pub attrs: Seq<(Seq<char>, Seq<char>)>,
    pub children: Seq<SpecNode>,
    pub text: Seq<char>,
}

/// The model of one raw element.
pub open spec fn node_view(n: RawNode) -> SpecNode
    decreases n,
{
    SpecNode {
        tag: n.tag@,
        attrs: Seq::new(n.attrs@.len(), |i: int| (n.attrs@[i].0@, n.attrs@[i].1@)),
        children: nodes_view(n.children@),
        text: n.text@,
    }
}

/// The model of a sequence of raw elements, in order.
pub open spec fn nodes_view(s: Seq<RawNode>) -> Seq<SpecNode>
    decreases s,
{
    if s.len() == 0 {
        Seq::empty()
    } else {
        seq![node_view(s[0])] + nodes_view(s.drop_first())
    }
}

impl View for RawNode {
    type V = SpecNode;

    open spec fn view(&self) -> SpecNode {
        node_view(*self)
    }
}

pub broadcast proof fn lemma_nodes_view(s: Seq<RawNode>)
    ensures
        (#[trigger] nodes_view(s)).len() == s.len(),
        forall|i: int| 0 <= i < s.len() ==> nodes_view(s)[i] == node_view(s[i]),
    decreases s.len(),
{
    if s.len() > 0 {
        lemma_nodes_view(s.drop_first());
        assert forall|i: int| 0 <= i < s.len() implies nodes_view(s)[i] == node_view(s[i]) by {
            if i > 0 {
                assert(nodes_view(s)[i] == nodes_view(s.drop_first())[i - 1]);
                assert(s.drop_first()[i - 1] == s[i]);
            }
        }
    }
}

pub broadcast proof fn lemma_nodes_view_push(s: Seq<RawNode>, x: RawNode)
    ensures
        #[trigger] nodes_view(s.push(x)) == nodes_view(s).push(node_view(x)),
{
    lemma_nodes_view(s);
    lemma_nodes_view(s.push(x));
    assert(nodes_view(s.push(x)) =~= nodes_view(s).push(node_view(x)));
}

/// The value of the first attribute named `key`, if any.
pub open spec fn attr_first(attrs: Seq<(Seq<char>, Seq<char>)>, key: Seq<char>) -> Option<
    Seq<char>,
>
    decreases attrs.len(),
{
    if attrs.len() == 0 {
        None
    } else if attrs[0].0 == key {
        Some(attrs[0].1)
    } else {
        attr_first(attrs.drop_first(), key)
    }
}

/// The first child element with the given tag, if any: the decoder's
/// first-occurrence-wins policy for scalar element fields.
pub open spec fn first_with(s: Seq<SpecNode>, tag: Seq<char>) -> Option<SpecNode>
    decreases s.len(),
{
    if s.len() == 0 {
        None
    } else if s[0].tag == tag {
        Some(s[0])
    } else {
        first_with(s.drop_first(), tag)
    }
}

/// All child elements with the given tag, in document order: the decoder's
/// collect-all policy for repeated element fields.
pub open spec fn all_with(s: Seq<SpecNode>, tag: Seq<char>) -> Seq<SpecNode>
    decreases s.len(),
{
    if s.len() == 0 {
        Seq::empty()
    } else if s[0].tag == tag {
        seq![s[0]] + all_with(s.drop_first(), tag)
    } else {
        all_with(s.drop_first(), tag)
    }
}

/// No element of `s` carries the tag.
pub open spec fn lacks(s: Seq<SpecNode>, tag: Seq<char>) -> bool {
    forall|i: int| 0 <= i < s.len() ==> (#[trigger] s[i]).tag != tag
}

pub proof fn lemma_all_with_concat(s1: Seq<SpecNode>, s2: Seq<SpecNode>, tag: Seq<char>)
    ensures
        all_with(s1 + s2, tag) == all_with(s1, tag) + all_with(s2, tag),
    decreases s1.len(),
{
    if s1.len() == 0 {
        assert(s1 + s2 =~= s2);
        assert(all_with(s1, tag) + all_with(s2, tag) =~= all_with(s2, tag));
    } else {
        assert((s1 + s2)[0] == s1[0]);
        assert((s1 + s2).drop_first() =~= s1.drop_first() + s2);
        lemma_all_with_concat(s1.drop_first(), s2, tag);
        if s1[0].tag == tag {
            assert(seq![s1[0]] + (all_with(s1.drop_first(), tag) + all_with(s2, tag)) =~= (
            seq![s1[0]] + all_with(s1.drop_first(), tag)) + all_with(s2, tag));
        }
    }
}

pub proof fn lemma_all_with_push(s: Seq<SpecNode>, x: SpecNode, tag: Seq<char>)
    ensures
        all_with(s.push(x), tag) == (if x.tag == tag {
            all_with(s, tag).push(x)
        } else {
            all_with(s, tag)
        }),
{
    reveal_with_fuel(all_with, 2);
    assert(s.push(x) =~= s + seq![x]);
    lemma_all_with_concat(s, seq![x], tag);
    assert(seq![x].drop_first() =~= Seq::<SpecNode>::empty());
    if x.tag == tag {
        assert(all_with(s, tag) + (seq![x] + Seq::<SpecNode>::empty()) =~= all_with(s, tag).push(
            x,
        ));
    } else {
        assert(all_with(s, tag) + Seq::<SpecNode>::empty() =~= all_with(s, tag));
    }
}

/// Inserting a child with a different tag leaves a lookup unchanged.
pub proof fn lemma_first_with_insert(s: Seq<SpecNode>, k: int, x: SpecNode, t: Seq<char>)
    requires
        0 <= k <= s.len(),
        x.tag != t,
    ensures
        first_with(s.insert(k, x), t) == first_with(s, t),
    decreases s.len(),
{
    if k == 0 {
        assert(s.insert(0, x)[0] == x);
        assert(s.insert(0, x).drop_first() =~= s);
    } else {
        assert(s.insert(k, x)[0] == s[0]);
        assert(s.insert(k, x).drop_first() =~= s.drop_first().insert(k - 1, x));
        lemma_first_with_insert(s.drop_first(), k - 1, x, t);
    }
}

/// Inserting a child with a different tag leaves a collection unchanged.
pub proof fn lemma_all_with_insert(s: Seq<SpecNode>, k: int, x: SpecNode, t: Seq<char>)
    requires
        0 <= k <= s.len(),
        x.tag != t,
    ensures
        all_with(s.insert(k, x), t) == all_with(s, t),
    decreases s.len(),
{
    if k == 0 {
        assert(s.insert(0, x)[0] == x);
        assert(s.insert(0, x).drop_first() =~= s);
    } else {
        assert(s.insert(k, x)[0] == s[0]);
        assert(s.insert(k, x).drop_first() =~= s.drop_first().insert(k - 1, x));
        lemma_all_with_insert(s.drop_first(), k - 1, x, t);
    }
}

/// Where no first occurrence exists, no occurrence exists at all.
pub proof fn lemma_first_none_all_empty(s: Seq<SpecNode>, tag: Seq<char>)
    requires
        first_with(s, tag) is None,
    ensures
        all_with(s, tag) == Seq::<SpecNode>::empty(),
    decreases s.len(),
{
    if s.len() > 0 {
        lemma_first_none_all_empty(s.drop_first(), tag);
    }
}

/// The child-list segment an optional element field contributes:
/// one node when the field is set, nothing when it is unset.
pub open spec fn opt_seq(o: Option<SpecNode>) -> Seq<SpecNode> {
    match o {
        Some(n) => seq![n],
        None => Seq::empty(),
    }
}

/// How a lookup crosses the segment of one optional element field:
/// it resolves there exactly for that field's tag, and otherwise
/// passes on to the remaining segments.
pub proof fn lemma_opt_step(o: Option<SpecNode>, tg: Seq<char>, rest: Seq<SpecNode>)
    requires
        o matches Some(n) ==> n.tag == tg,
    ensures
        forall|t: Seq<char>|
            #[trigger] first_with(opt_seq(o) + rest, t) == (if t == tg && o is Some {
                o
            } else {
                first_with(rest, t)
            }),
        forall|t: Seq<char>|
            #[trigger] all_with(opt_seq(o) + rest, t) == (if t == tg && o is Some {
                seq![o->0] + all_with(rest, t)
            } else {
                all_with(rest, t)
            }),
{
    if o is None {
        assert(opt_seq(o) + rest =~= rest);
    } else {
        let n = o->0;
        assert forall|t: Seq<char>| true implies #[trigger] first_with(opt_seq(o) + rest, t) == (
        if t == tg && o is Some {
            o
        } else {
            first_with(rest, t)
        }) by {
            assert((opt_seq(o) + rest)[0] == n);
            assert((opt_seq(o) + rest).len() == 1 + rest.len());
            assert((opt_seq(o) + rest).drop_first() =~= rest);
        }
        assert forall|t: Seq<char>| true implies #[trigger] all_with(opt_seq(o) + rest, t) == (if t
            == tg && o is Some {
            seq![o->0] + all_with(rest, t)
        } else {
            all_with(rest, t)
        }) by {
            assert((opt_seq(o) + rest)[0] == n);
            assert((opt_seq(o) + rest).len() == 1 + rest.len());
            assert((opt_seq(o) + rest).drop_first() =~= rest);
        }
    }
}

/// How a lookup crosses the segment a repeated element field contributes:
/// all of its nodes share the field's tag.
pub proof fn lemma_rep_step(nodes: Seq<SpecNode>, tg: Seq<char>, rest: Seq<SpecNode>)
    requires
        forall|i: int| 0 <= i < nodes.len() ==> (#[trigger] nodes[i]).tag == tg,
    ensures
        forall|t: Seq<char>|
            #[trigger] first_with(nodes + rest, t) == (if t == tg && nodes.len() > 0 {
                Some(nodes[0])
            } else {
                first_with(rest, t)
            }),
        forall|t: Seq<char>|
            #[trigger] all_with(nodes + rest, t) == (if t == tg {
                nodes + all_with(rest, t)
            } else {
                all_with(rest, t)
            }),
    decreases nodes.len(),
{
    if nodes.len() == 0 {
        assert(nodes + rest =~= rest);
        assert forall|t: Seq<char>| true implies #[trigger] all_with(nodes + rest, t) == (if t
            == tg {
            nodes + all_with(rest, t)
        } else {
            all_with(rest, t)
        }) by {
            if t == tg {
                assert(nodes + all_with(rest, t) =~= all_with(rest, t));
            }
        }
    } else {
        lemma_rep_step(nodes.drop_first(), tg, rest);
        assert forall|t: Seq<char>| true implies #[trigger] first_with(nodes + rest, t) == (if t
            == tg && nodes.len() > 0 {
            Some(nodes[0])
        } else {
            first_with(rest, t)
        }) by {
            assert((nodes + rest)[0] == nodes[0]);
            assert((nodes + rest).drop_first() =~= nodes.drop_first() + rest);
            assert(first_with(nodes.drop_first() + rest, t) == (if t == tg
                && nodes.drop_first().len() > 0 {
                Some(nodes.drop_first()[0])
            } else {
                first_with(rest, t)
            }));
        }
        assert forall|t: Seq<char>| true implies #[trigger] all_with(nodes + rest, t) == (if t
            == tg {
            nodes + all_with(rest, t)
        } else {
            all_with(rest, t)
        }) by {
            assert((nodes + rest)[0] == nodes[0]);
            assert((nodes + rest).drop_first() =~= nodes.drop_first() + rest);
            assert(all_with(nodes.drop_first() + rest, t) == (if t == tg {
                nodes.drop_first() + all_with(rest, t)
            } else {
                all_with(rest, t)
            }));
            if t == tg {
                assert(seq![nodes[0]] + (nodes.drop_first() + all_with(rest, t)) =~= nodes
                    + all_with(rest, t));
            }
        }
    }
}

/// How a lookup crosses the segment of one required element field.
pub proof fn lemma_req_step(n: SpecNode, tg: Seq<char>, rest: Seq<SpecNode>)
    requires
        n.tag == tg,
    ensures
        forall|t: Seq<char>|
            #[trigger] first_with(seq![n] + rest, t) == (if t == tg {
                Some(n)
            } else {
                first_with(rest, t)
            }),
        forall|t: Seq<char>|
            #[trigger] all_with(seq![n] + rest, t) == (if t == tg {
                seq![n] + all_with(rest, t)
            } else {
                all_with(rest, t)
            }),
{
    assert forall|t: Seq<char>| true implies #[trigger] first_with(seq![n] + rest, t) == (if t
        == tg {
        Some(n)
    } else {
        first_with(rest, t)
    }) by {
        assert((seq![n] + rest)[0] == n);
        assert((seq![n] + rest).drop_first() =~= rest);
    }
    assert forall|t: Seq<char>| true implies #[trigger] all_with(seq![n] + rest, t) == (if t == tg {
        seq![n] + all_with(rest, t)
    } else {
        all_with(rest, t)
    }) by {
        assert((seq![n] + rest)[0] == n);
        assert((seq![n] + rest).drop_first() =~= rest);
    }
}

/// The attribute-list segment an optional attribute field contributes.
pub open spec fn attr_opt_seq(o: Option<Seq<char>>, k: Seq<char>) -> Seq<(Seq<char>, Seq<char>)> {
    match o {
        Some(v) => seq![(k, v)],
        None => Seq::empty(),
    }
}

/// The attribute-list segment one required attribute contributes.
pub proof fn lemma_attr_step(k: Seq<char>, v: Seq<char>, rest: Seq<(Seq<char>, Seq<char>)>)
    ensures
        forall|q: Seq<char>|
            #[trigger] attr_first(seq![(k, v)] + rest, q) == (if q == k {
                Some(v)
            } else {
                attr_first(rest, q)
            }),
{
    assert forall|q: Seq<char>| true implies #[trigger] attr_first(seq![(k, v)] + rest, q) == (if q
        == k {
        Some(v)
    } else {
        attr_first(rest, q)
    }) by {
        assert((seq![(k, v)] + rest)[0] == (k, v));
        assert((seq![(k, v)] + rest).drop_first() =~= rest);
    }
}

/// The attribute-list segment one optional attribute contributes.
pub proof fn lemma_attr_opt_step(
    o: Option<Seq<char>>,
    k: Seq<char>,
    rest: Seq<(Seq<char>, Seq<char>)>,
)
    ensures
        forall|q: Seq<char>|
            #[trigger] attr_first(attr_opt_seq(o, k) + rest, q) == (if q == k && o is Some {
                o
            } else {
                attr_first(rest, q)
            }),
{
    if o is None {
        assert(attr_opt_seq(o, k) + rest =~= rest);
    } else {
        let v = o->0;
        assert forall|q: Seq<char>| true implies #[trigger] attr_first(attr_opt_seq(o, k) + rest, q)
            == (if q == k && o is Some {
            o
        } else {
            attr_first(rest, q)
        }) by {
            assert((attr_opt_seq(o, k) + rest)[0] == (k, v));
            assert((attr_opt_seq(o, k) + rest).drop_first() =~= rest);
        }
    }
}

impl RawNode {
    /// A childless, attributeless element holding only character data.
    pub open spec fn spec_text_elem(tag: Seq<char>, text: Seq<char>) -> SpecNode {
        SpecNode { tag, attrs: Seq::empty(), children: Seq::empty(), text }
    }

    /// Builds an element holding only character data.
    pub fn text_elem(tag: &str, text: &String) -> (r: RawNode)
        ensures
            r@ == Self::spec_text_elem(tag@, text@),
    {
        let r = RawNode {
            tag: tag.to_owned(),
            attrs: Vec::new(),
            children: Vec::new(),
            text: text.clone(),
        };
        proof {
            assert(r@.attrs =~= Seq::<(Seq<char>, Seq<char>)>::empty());
            assert(r@.children =~= Seq::<SpecNode>::empty());
        }
        r
    }

    /// Looks up the first attribute with the given name.
    pub fn get_attr<'a>(&'a self, key: &str) -> (r: Option<&'a String>)
        ensures
            match r {
                Some(v) => attr_first(self@.attrs, key@) == Some(v@),
                None => attr_first(self@.attrs, key@) is None,
            },
    {
        let ghost aseq = self@.attrs;
        proof {
            assert(aseq.skip(0) =~= aseq);
        }
        let mut i: usize = 0;
        while i < self.attrs.len()
            invariant
                i <= self.attrs.len(),
                aseq == self@.attrs,
                aseq.len() == self.attrs.len(),
                attr_first(aseq.skip(i as int), key@) == attr_first(aseq, key@),
            decreases self.attrs.len() - i,
        {
            proof {
                assert(aseq.skip(i as int)[0] == aseq[i as int]);
                assert(aseq.skip(i as int).drop_first() =~= aseq.skip(i as int + 1));
            }
            if crate::strutil::str_eq(self.attrs[i].0.as_str(), key) {
                return Some(&self.attrs[i].1);
            }
            i = i + 1;
        }
        proof {
            assert(aseq.skip(i as int) =~= Seq::<(Seq<char>, Seq<char>)>::empty());
        }
        None
    }

    /// Finds the first child element with the given tag: the
    /// first-occurrence-wins policy for scalar element fields.
    pub fn first_child<'a>(&'a self, tag: &str) -> (r: Option<&'a RawNode>)
        ensures
            match r {
                Some(c) => first_with(self@.children, tag@) == Some(c@),
                None => first_with(self@.children, tag@) is None,
            },
    {
        broadcast use lemma_nodes_view;

        let ghost cseq = self@.children;
        proof {
            assert(cseq == nodes_view(self.children@));
            assert(cseq.skip(0) =~= cseq);
        }
        let mut i: usize = 0;
        while i < self.children.len()
            invariant
                i <= self.children.len(),
                cseq == self@.children,
                cseq.len() == self.children.len(),
                forall|j: int| 0 <= j < cseq.len() ==> cseq[j] == node_view(self.children@[j]),
                first_with(cseq.skip(i as int), tag@) == first_with(cseq, tag@),
            decreases self.children.len() - i,
        {
            proof {
                assert(cseq.skip(i as int)[0] == cseq[i as int]);
                assert(cseq.skip(i as int).drop_first() =~= cseq.skip(i as int + 1));
            }
            if crate::strutil::str_eq(self.children[i].tag.as_str(), tag) {
                return Some(&self.children[i]);
            }
            i = i + 1;
        }
        proof {
            assert(cseq.skip(i as int) =~= Seq::<SpecNode>::empty());
        }
        None
    }
}

} // verus!
