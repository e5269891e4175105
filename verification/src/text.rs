//! The markup writer: renders a raw node tree to markup text, escaping
//! character data and attribute values, with an exact character-level
//! specification.

use vstd::prelude::*;

use crate::raw::{nodes_view, RawNode, SpecNode};
use crate::strutil::push_char;

verus! {

broadcast use vstd::std_specs::vec::group_vec_axioms, crate::raw::lemma_nodes_view, vstd::string::group_string_axioms;

/// What one character becomes in escaped output: the five markup
/// metacharacters become entity references, every other character stands
/// for itself.
pub open spec fn esc_char(c: char) -> Seq<char> {
    if c == '&' {
        seq!['&', 'a', 'm', 'p', ';']
    } else if c == '<' {
        seq!['&', 'l', 't', ';']
    } else if c == '>' {
        seq!['&', 'g', 't', ';']
    } else if c == '"' {
        seq!['&', 'q', 'u', 'o', 't', ';']
    } else if c == '\'' {
        seq!['&', 'a', 'p', 'o', 's', ';']
    } else {
        seq![c]
    }
}

/// A string with every character escaped, in order.
pub open spec fn escaped(s: Seq<char>) -> Seq<char>
    decreases s.len(),
{
    if s.len() == 0 {
        Seq::empty()
    } else {
        esc_char(s[0]) + escaped(s.drop_first())
    }
}

pub proof fn lemma_escaped_push(s: Seq<char>, c: char)
    ensures
        escaped(s.push(c)) == escaped(s) + esc_char(c),
    decreases s.len(),
{
    if s.len() == 0 {
        reveal_with_fuel(escaped, 2);
        assert(s.push(c)[0] == c);
        assert(s.push(c).drop_first() =~= Seq::<char>::empty());
        assert(esc_char(c) + Seq::<char>::empty() =~= esc_char(c));
        assert(Seq::<char>::empty() + esc_char(c) =~= esc_char(c));
    } else {
        assert(s.push(c)[0] == s[0]);
        assert(s.push(c).drop_first() =~= s.drop_first().push(c));
        lemma_escaped_push(s.drop_first(), c);
        assert(esc_char(s[0]) + (escaped(s.drop_first()) + esc_char(c)) =~= (esc_char(s[0])
            + escaped(s.drop_first())) + esc_char(c));
    }
}

/// Escapes one string value.
pub fn escape_text(s: &str) -> (r: String)
    ensures
        r@ == escaped(s@),
{
    let mut out = String::new();
    let n = s.unicode_len();
    proof {
        assert(s@.take(0) =~= Seq::<char>::empty());
    }
    let mut i: usize = 0;
    while i < n
        invariant
            i <= n,
            n == s@.len(),
            out@ == escaped(s@.take(i as int)),
        decreases n - i,
    {
        let c = s.get_char(i);
        proof {
            lemma_escaped_push(s@.take(i as int), c);
            assert(s@.take(i as int).push(s@[i as int]) =~= s@.take(i as int + 1));
        }
        if c == '&' {
            out.append("&amp;");
            proof {
                reveal_strlit("&amp;");
                assert("&amp;"@ =~= esc_char(c));
            }
        } else if c == '<' {
            out.append("&lt;");
            proof {
                reveal_strlit("&lt;");
                assert("&lt;"@ =~= esc_char(c));
            }
        } else if c == '>' {
            out.append("&gt;");
            proof {
                reveal_strlit("&gt;");
                assert("&gt;"@ =~= esc_char(c));
            }
        } else if c == '"' {
            out.append("&quot;");
            proof {
                reveal_strlit("&quot;");
                assert("&quot;"@ =~= esc_char(c));
            }
        } else if c == '\'' {
            out.append("&apos;");
            proof {
                reveal_strlit("&apos;");
                assert("&apos;"@ =~= esc_char(c));
            }
        } else {
            push_char(&mut out, c);
            proof {
                assert(seq![c] =~= esc_char(c));
            }
        }
        i = i + 1;
    }
    proof {
        assert(s@.take(n as int) =~= s@);
    }
    out
}

/// What one attribute contributes to a tag: a space, the name, `="`, the
/// escaped value, and a closing quote.
pub open spec fn attr_text(a: (Seq<char>, Seq<char>)) -> Seq<char> {
    seq![' '] + a.0 + seq!['=', '"'] + escaped(a.1) + seq!['"']
}

/// All attributes of a tag, in document order.
pub open spec fn attrs_text(s: Seq<(Seq<char>, Seq<char>)>) -> Seq<char>
    decreases s.len(),
{
    if s.len() == 0 {
        Seq::empty()
    } else {
        attr_text(s[0]) + attrs_text(s.drop_first())
    }
}

pub proof fn lemma_attrs_text_push(s: Seq<(Seq<char>, Seq<char>)>, a: (Seq<char>, Seq<char>))
    ensures
        attrs_text(s.push(a)) == attrs_text(s) + attr_text(a),
    decreases s.len(),
{
    if s.len() == 0 {
        reveal_with_fuel(attrs_text, 2);
        assert(s.push(a)[0] == a);
        assert(s.push(a).drop_first() =~= Seq::<(Seq<char>, Seq<char>)>::empty());
        assert(attr_text(a) + Seq::<char>::empty() =~= attr_text(a));
        assert(Seq::<char>::empty() + attr_text(a) =~= attr_text(a));
    } else {
        assert(s.push(a)[0] == s[0]);
        assert(s.push(a).drop_first() =~= s.drop_first().push(a));
        lemma_attrs_text_push(s.drop_first(), a);
        assert(attr_text(s[0]) + (attrs_text(s.drop_first()) + attr_text(a)) =~= (attr_text(s[0])
            + attrs_text(s.drop_first())) + attr_text(a));
    }
}

/// The markup text of one element: an element with no content renders as
/// a self-closing tag; otherwise the character data comes first, then the
/// child elements, then the closing tag.
pub open spec fn xml_text(n: SpecNode) -> Seq<char>
    decreases n,
{
    if n.children.len() == 0 && n.text.len() == 0 {
        seq!['<'] + n.tag + attrs_text(n.attrs) + seq!['/', '>']
    } else {
        seq!['<'] + n.tag + attrs_text(n.attrs) + seq!['>'] + escaped(n.text) + children_text(
            n.children,
        ) + seq!['<', '/'] + n.tag + seq!['>']
    }
}

/// The markup text of a sequence of sibling elements, in order.
pub open spec fn children_text(s: Seq<SpecNode>) -> Seq<char>
    decreases s,
{
    if s.len() == 0 {
        Seq::empty()
    } else {
        xml_text(s[0]) + children_text(s.drop_first())
    }
}

pub proof fn lemma_children_text_push(s: Seq<SpecNode>, x: SpecNode)
    ensures
        children_text(s.push(x)) == children_text(s) + xml_text(x),
    decreases s.len(),
{
    if s.len() == 0 {
        reveal_with_fuel(children_text, 2);
        assert(s.push(x)[0] == x);
        assert(s.push(x).drop_first() =~= Seq::<SpecNode>::empty());
        assert(xml_text(x) + Seq::<char>::empty() =~= xml_text(x));
        assert(Seq::<char>::empty() + xml_text(x) =~= xml_text(x));
    } else {
        assert(s.push(x)[0] == s[0]);
        assert(s.push(x).drop_first() =~= s.drop_first().push(x));
        lemma_children_text_push(s.drop_first(), x);
        assert(xml_text(s[0]) + (children_text(s.drop_first()) + xml_text(x)) =~= (xml_text(s[0])
            + children_text(s.drop_first())) + xml_text(x));
    }
}

/// Renders one raw element to markup text.
pub fn render_node(n: &RawNode) -> (r: String)
    ensures
        r@ == xml_text(n@),
    decreases *n,
{
    let mut out = String::new();
    push_char(&mut out, '<');
    out.append(n.tag.as_str());
    proof {
        assert(out@ =~= seq!['<'] + n@.tag);
        assert(n@.attrs.take(0) =~= Seq::<(Seq<char>, Seq<char>)>::empty());
    }
    let mut i: usize = 0;
    while i < n.attrs.len()
        invariant
            i <= n.attrs.len(),
            n@.attrs.len() == n.attrs.len(),
            forall|j: int|
                0 <= j < n.attrs@.len() ==> n@.attrs[j] == (
                #[trigger] n.attrs@[j].0@,
                n.attrs@[j].1@,
            ),
            out@ == seq!['<'] + n@.tag + attrs_text(n@.attrs.take(i as int)),
        decreases n.attrs.len() - i,
    {
        let ghost before = out@;
        push_char(&mut out, ' ');
        out.append(n.attrs[i].0.as_str());
        push_char(&mut out, '=');
        push_char(&mut out, '"');
        let ev = escape_text(n.attrs[i].1.as_str());
        out.append(ev.as_str());
        push_char(&mut out, '"');
        proof {
            lemma_attrs_text_push(n@.attrs.take(i as int), n@.attrs[i as int]);
            assert(n@.attrs.take(i as int).push(n@.attrs[i as int]) =~= n@.attrs.take(
                i as int + 1,
            ));
            assert(out@ =~= before + attr_text(n@.attrs[i as int]));
        }
        i = i + 1;
    }
    proof {
        assert(n@.attrs.take(n.attrs.len() as int) =~= n@.attrs);
    }
    if n.children.len() == 0 && n.text.unicode_len() == 0 {
        push_char(&mut out, '/');
        push_char(&mut out, '>');
        proof {
            assert(n@.children.len() == 0);
            assert(out@ =~= seq!['<'] + n@.tag + attrs_text(n@.attrs) + seq!['/', '>']);
        }
        out
    } else {
        push_char(&mut out, '>');
        let et = escape_text(n.text.as_str());
        out.append(et.as_str());
        proof {
            assert(out@ =~= seq!['<'] + n@.tag + attrs_text(n@.attrs) + seq!['>'] + escaped(
                n@.text,
            ));
            assert(n@.children.take(0) =~= Seq::<SpecNode>::empty());
            crate::raw::lemma_nodes_view(n.children@);
        }
        let ghost head = out@;
        proof {
            assert(head + children_text(n@.children.take(0)) =~= head);
        }
        let mut j: usize = 0;
        while j < n.children.len()
            invariant
                j <= n.children.len(),
                n@.children.len() == n.children.len(),
                n@.children == nodes_view(n.children@),
                head == seq!['<'] + n@.tag + attrs_text(n@.attrs) + seq!['>'] + escaped(n@.text),
                out@ == head + children_text(n@.children.take(j as int)),
            decreases n.children.len() - j,
        {
            let ghost before = out@;
            let ct = render_node(&n.children[j]);
            out.append(ct.as_str());
            proof {
                lemma_children_text_push(n@.children.take(j as int), n@.children[j as int]);
                assert(n@.children.take(j as int).push(n@.children[j as int]) =~= n@.children.take(
                    j as int + 1,
                ));
                assert(out@ =~= before + xml_text(n@.children[j as int]));
            }
            j = j + 1;
        }
        proof {
            assert(n@.children.take(n.children.len() as int) =~= n@.children);
        }
        push_char(&mut out, '<');
        push_char(&mut out, '/');
        out.append(n.tag.as_str());
        push_char(&mut out, '>');
        proof {
            assert(n@.children.len() > 0 || n@.text.len() > 0);
            assert(out@ =~= seq!['<'] + n@.tag + attrs_text(n@.attrs) + seq!['>'] + escaped(
                n@.text,
            ) + children_text(n@.children) + seq!['<', '/'] + n@.tag + seq!['>']);
        }
        out
    }
}

} // verus!
