//! The markup lexer: pulls events from `quick_xml`'s reader and converts
//! them into plain tokens. Everything `quick_xml` itself does is behind
//! the trusted declarations in this module; the token stream it produces
//! is handed to the verified tree builder, which is proved correct for
//! every possible token sequence.

use vstd::prelude::*;
use vstd::string::StringSliceAdditionalSpecFns;

use crate::decode::DecodeError;
use crate::strutil::{char_from_u32, push_char, str_eq};

verus! {

broadcast use vstd::std_specs::vec::group_vec_axioms;

/// One plain markup token, as handed to the tree builder.
pub enum XmlToken {
    /// An opening tag with its attributes, entity references in attribute
    /// values already resolved.
    Open(String, Vec<(String, String)>),
    /// A self-closing tag with its attributes.
    SelfClosed(String, Vec<(String, String)>),
    /// A closing tag.
    Close(String),
    /// One run of character data, entity references already resolved.
    Text(String),
}

/// The mathematical model of one token.
pub ghost enum TokV {
    Open(Seq<char>, Seq<(Seq<char>, Seq<char>)>),
    SelfClosed(Seq<char>, Seq<(Seq<char>, Seq<char>)>),
    Close(Seq<char>),
    Text(Seq<char>),
}

pub open spec fn attrs_view(a: Seq<(String, String)>) -> Seq<(Seq<char>, Seq<char>)> {
    Seq::new(a.len(), |i: int| (a[i].0@, a[i].1@))
}

impl View for XmlToken {
    type V = TokV;

    open spec fn view(&self) -> TokV {
        match self {
            XmlToken::Open(t, a) => TokV::Open(t@, attrs_view(a@)),
            XmlToken::SelfClosed(t, a) => TokV::SelfClosed(t@, attrs_view(a@)),
            XmlToken::Close(t) => TokV::Close(t@),
            XmlToken::Text(s) => TokV::Text(s@),
        }
    }
}

/// The model of a token sequence.
pub open spec fn toks_view(s: Seq<XmlToken>) -> Seq<TokV> {
    Seq::new(s.len(), |i: int| s[i]@)
}

#[verifier::external_type_specification]
#[verifier::external_body]
#[verifier::reject_recursive_types(R)]
pub struct ExReader<R>(quick_xml::Reader<R>);

#[verifier::external_type_specification]
#[verifier::external_body]
pub struct ExEvent<'a>(quick_xml::events::Event<'a>);

#[verifier::external_type_specification]
#[verifier::external_body]
pub struct ExBytesStart<'a>(quick_xml::events::BytesStart<'a>);

#[verifier::external_type_specification]
#[verifier::external_body]
pub struct ExBytesEnd<'a>(quick_xml::events::BytesEnd<'a>);

#[verifier::external_type_specification]
#[verifier::external_body]
pub struct ExBytesText<'a>(quick_xml::events::BytesText<'a>);

#[verifier::external_type_specification]
#[verifier::external_body]
pub struct ExBytesCData<'a>(quick_xml::events::BytesCData<'a>);

#[verifier::external_type_specification]
#[verifier::external_body]
pub struct ExBytesRef<'a>(quick_xml::events::BytesRef<'a>);

#[verifier::external_type_specification]
#[verifier::external_body]
pub struct ExError(quick_xml::Error);

/// One pulled event, with its payload still in `quick_xml`'s own types.
pub enum EventShape<'a> {
    Open(quick_xml::events::BytesStart<'a>),
    SelfClosed(quick_xml::events::BytesStart<'a>),
    Close(quick_xml::events::BytesEnd<'a>),
    Chars(quick_xml::events::BytesText<'a>),
    Cdata(quick_xml::events::BytesCData<'a>),
    Entity(quick_xml::events::BytesRef<'a>),
    Skip,
    Done,
}

/// Relies on `quick_xml::Reader::from_str`: builds a pull parser over the
/// given text.
#[verifier::external_body]
fn reader_from_str<'a>(s: &'a str) -> quick_xml::Reader<&'a [u8]> {
    quick_xml::Reader::from_str(s)
}

/// Relies on `quick_xml::Reader::read_event`: pulls the next event, or an
/// error when the markup is not well formed.
#[verifier::external_body]
fn read_event<'a>(r: &mut quick_xml::Reader<&'a [u8]>) -> Result<
    quick_xml::events::Event<'a>,
    quick_xml::Error,
> {
    r.read_event()
}

/// Sorts one `quick_xml` event by shape, moving its payload; declarations,
/// comments, processing instructions and document type declarations are
/// skipped, as the decoder's unknown-content policy asks.
#[verifier::external_body]
fn event_shape<'a>(e: quick_xml::events::Event<'a>) -> EventShape<'a> {
    match e {
        quick_xml::events::Event::Start(b) => EventShape::Open(b),
        quick_xml::events::Event::Empty(b) => EventShape::SelfClosed(b),
        quick_xml::events::Event::End(b) => EventShape::Close(b),
        quick_xml::events::Event::Text(t) => EventShape::Chars(t),
        quick_xml::events::Event::CData(c) => EventShape::Cdata(c),
        quick_xml::events::Event::GeneralRef(r) => EventShape::Entity(r),
        quick_xml::events::Event::Eof => EventShape::Done,
        _ => EventShape::Skip,
    }
}

/// Relies on `quick_xml::events::BytesStart::name`: the tag name as it
/// stood in the source.
#[verifier::external_body]
fn start_name(b: &quick_xml::events::BytesStart) -> String {
    b.name().as_ref().to_owned()
}

/// Relies on `quick_xml::events::BytesStart::attributes` and
/// `quick_xml::events::attributes::Attribute::unescape_value`: the tag's
/// attributes in document order, entity references in values resolved;
/// `None` when the attribute syntax is invalid.
#[verifier::external_body]
fn start_attrs(b: &quick_xml::events::BytesStart) -> Option<Vec<(String, String)>> {
    let mut out = Vec::new();
    for a in b.attributes() {
        let at = a.ok()?;
        let k = at.key.as_ref().to_owned();
        out.push((k, at.unescape_value().ok()?.into_owned()));
    }
    Some(out)
}

/// Relies on `quick_xml::events::BytesEnd::name`: the closing tag's name.
#[verifier::external_body]
fn end_name(b: &quick_xml::events::BytesEnd) -> String {
    b.name().as_ref().to_owned()
}

/// Relies on `quick_xml::events::BytesText`'s `Deref` to `str`: one run of
/// character data, which the reader guarantees holds no markup.
#[verifier::external_body]
fn text_content(t: &quick_xml::events::BytesText) -> String {
    (&**t).to_owned()
}

/// Relies on `quick_xml::events::BytesCData`'s `Deref` to `str`: the
/// literal content between the section markers.
#[verifier::external_body]
fn cdata_content(c: &quick_xml::events::BytesCData) -> String {
    (&**c).to_owned()
}

/// Relies on `quick_xml::events::BytesRef`'s `Deref` to `str`: the entity
/// reference's name, without the leading `&` and trailing `;`.
#[verifier::external_body]
fn ref_content(r: &quick_xml::events::BytesRef) -> String {
    (&**r).to_owned()
}

/// Relies on `quick_xml::Error`'s `Display`: a short description of what
/// made the markup ill formed.
#[verifier::external_body]
fn fault_reason(e: &quick_xml::Error) -> String {
    format!("{}", e)
}

fn malformed(reason: &str) -> (e: DecodeError)
    ensures
        e is MalformedMarkup,
{
    DecodeError::MalformedMarkup(reason.to_owned())
}

/// Whether a numeric value is a Unicode scalar value: what a numeric
/// character reference may denote.
pub open spec fn valid_code_point(v: int) -> bool {
    0 <= v < 0xD800 || 0xE000 <= v <= 0x10FFFF
}

/// The value of one digit; hexadecimal digits are admitted only in
/// hexadecimal references.
pub open spec fn digit_val(c: char, hex: bool) -> Option<int> {
    if '0' <= c && c <= '9' {
        Some((c as u32 - '0' as u32) as int)
    } else if hex && 'a' <= c && c <= 'f' {
        Some((c as u32 - 'a' as u32 + 10) as int)
    } else if hex && 'A' <= c && c <= 'F' {
        Some((c as u32 - 'A' as u32 + 10) as int)
    } else {
        None
    }
}

/// The numeric value of a digit string, most significant digit first.
pub open spec fn digits_val(ds: Seq<char>, hex: bool) -> Option<int>
    decreases ds.len(),
{
    if ds.len() == 0 {
        Some(0)
    } else {
        match (digits_val(ds.drop_last(), hex), digit_val(ds.last(), hex)) {
            (Some(v), Some(d)) => Some(v * (if hex { 16int } else { 10int }) + d),
            _ => None,
        }
    }
}

proof fn lemma_digits_val_nonneg(ds: Seq<char>, hex: bool)
    requires
        digits_val(ds, hex) is Some,
    ensures
        digits_val(ds, hex)->0 >= 0,
    decreases ds.len(),
{
    if ds.len() > 0 {
        lemma_digits_val_nonneg(ds.drop_last(), hex);
    }
}

proof fn lemma_digits_val_invalid(ds: Seq<char>, m: int, hex: bool)
    requires
        0 <= m < ds.len(),
        digit_val(ds[m], hex) is None,
    ensures
        digits_val(ds, hex) is None,
    decreases ds.len(),
{
    if m == ds.len() - 1 {
        assert(ds.last() == ds[m]);
    } else {
        assert(ds.drop_last()[m] == ds[m]);
        lemma_digits_val_invalid(ds.drop_last(), m, hex);
    }
}

proof fn lemma_digits_val_prefix(ds: Seq<char>, k: int, hex: bool)
    requires
        0 <= k <= ds.len(),
        digits_val(ds, hex) is Some,
    ensures
        digits_val(ds.take(k), hex) is Some,
        0 <= digits_val(ds.take(k), hex)->0 <= digits_val(ds, hex)->0,
    decreases ds.len(),
{
    lemma_digits_val_nonneg(ds, hex);
    if k == ds.len() {
        assert(ds.take(k) =~= ds);
    } else {
        assert(digits_val(ds.drop_last(), hex) is Some);
        lemma_digits_val_nonneg(ds.drop_last(), hex);
        assert(ds.drop_last().take(k) =~= ds.take(k));
        lemma_digits_val_prefix(ds.drop_last(), k, hex);
        let v = digits_val(ds.drop_last(), hex)->0;
        let d = digit_val(ds.last(), hex)->0;
        assert(d >= 0);
        if hex {
            assert(v <= v * 16 + d);
        } else {
            assert(v <= v * 10 + d);
        }
    }
}

/// What one entity reference name resolves to: the five predefined
/// entities, and numeric character references in decimal (`#<digits>`)
/// or hexadecimal (`#x<digits>`) form denoting a Unicode scalar value.
/// The dual of `esc_char` on the writer's side.
pub open spec fn spec_resolve_entity(name: Seq<char>) -> Option<Seq<char>> {
    if name == "lt"@ {
        Some(seq!['<'])
    } else if name == "gt"@ {
        Some(seq!['>'])
    } else if name == "amp"@ {
        Some(seq!['&'])
    } else if name == "apos"@ {
        Some(seq!['\''])
    } else if name == "quot"@ {
        Some(seq!['"'])
    } else if name.len() >= 2 && name[0] == '#' {
        let hex = name[1] == 'x' || name[1] == 'X';
        let ds = if hex {
            name.skip(2)
        } else {
            name.skip(1)
        };
        if ds.len() == 0 {
            None
        } else {
            match digits_val(ds, hex) {
                Some(v) => if valid_code_point(v) {
                    Some(seq![((v as u32) as char)])
                } else {
                    None
                },
                None => None,
            }
        }
    } else {
        None
    }
}

/// Resolves one entity reference name to its text.
fn resolve_entity(name: &str) -> (r: Option<String>)
    ensures
        (r is Some) == (spec_resolve_entity(name@) is Some),
        r matches Some(s) ==> Some(s@) == spec_resolve_entity(name@),
{
    if str_eq(name, "lt") {
        let mut s = String::new();
        push_char(&mut s, '<');
        proof {
            assert(s@ =~= seq!['<']);
        }
        Some(s)
    } else if str_eq(name, "gt") {
        let mut s = String::new();
        push_char(&mut s, '>');
        proof {
            assert(s@ =~= seq!['>']);
        }
        Some(s)
    } else if str_eq(name, "amp") {
        let mut s = String::new();
        push_char(&mut s, '&');
        proof {
            assert(s@ =~= seq!['&']);
        }
        Some(s)
    } else if str_eq(name, "apos") {
        let mut s = String::new();
        push_char(&mut s, '\'');
        proof {
            assert(s@ =~= seq!['\'']);
        }
        Some(s)
    } else if str_eq(name, "quot") {
        let mut s = String::new();
        push_char(&mut s, '"');
        proof {
            assert(s@ =~= seq!['"']);
        }
        Some(s)
    } else {
        let n = name.unicode_len();
        if n >= 2 && name.get_char(0) == '#' {
            let hex = name.get_char(1) == 'x' || name.get_char(1) == 'X';
            let start: usize = if hex {
                2
            } else {
                1
            };
            let ghost ds = if hex {
                name@.skip(2)
            } else {
                name@.skip(1)
            };
            if start >= n {
                proof {
                    assert(ds.len() == 0);
                }
                return None;
            }
            proof {
                assert(ds.take(0) =~= Seq::<char>::empty());
            }
            let mut value: u32 = 0;
            let mut i: usize = start;
            while i < n
                invariant
                    start <= i <= n,
                    n == name@.len(),
                    start == (if hex { 2int } else { 1int }),
                    ds == (if hex { name@.skip(2) } else { name@.skip(1) }),
                    ds.len() == n - start,
                    name@.len() >= 2 && name@[0] == '#',
                    hex == (name@[1] == 'x' || name@[1] == 'X'),
                    name@ != "lt"@ && name@ != "gt"@ && name@ != "amp"@ && name@ != "apos"@
                        && name@ != "quot"@,
                    digits_val(ds.take(i - start), hex) == Some(value as int),
                decreases n - i,
            {
                let ghost m = i as int - start as int;
                let c = name.get_char(i);
                proof {
                    assert(ds[m] == name@[i as int]);
                }
                let d: u32 = if c >= '0' && c <= '9' {
                    (c as u32) - ('0' as u32)
                } else if hex && c >= 'a' && c <= 'f' {
                    (c as u32) - ('a' as u32) + 10
                } else if hex && c >= 'A' && c <= 'F' {
                    (c as u32) - ('A' as u32) + 10
                } else {
                    proof {
                        assert(digit_val(ds[m], hex) is None);
                        lemma_digits_val_invalid(ds, m, hex);
                    }
                    return None;
                };
                proof {
                    assert(digit_val(ds[m], hex) == Some(d as int));
                }
                if value > 0x10FFFF {
                    proof {
                        if digits_val(ds, hex) is Some {
                            lemma_digits_val_prefix(ds, m, hex);
                        }
                    }
                    return None;
                }
                proof {
                    assert(ds.take(m + 1).drop_last() =~= ds.take(m));
                    assert(ds.take(m + 1).last() == ds[m]);
                }
                value = if hex {
                    value * 16 + d
                } else {
                    value * 10 + d
                };
                i = i + 1;
            }
            proof {
                assert(ds.take(i - start) =~= ds);
            }
            match char_from_u32(value) {
                Some(c) => {
                    let mut s = String::new();
                    push_char(&mut s, c);
                    proof {
                        vstd::utf8::char_u32_cast(c, value);
                        assert(s@ =~= seq![c]);
                    }
                    Some(s)
                },
                None => None,
            }
        } else {
            None
        }
    }
}

/// Lexes markup text into a flat token stream. The tokens are whatever
/// the reader produced: every guarantee about the tree built from them is
/// proved downstream, for every possible token sequence.
pub fn lex(text: &str) -> (r: Result<Vec<XmlToken>, DecodeError>)
    ensures
        r matches Err(e) ==> e is MalformedMarkup,
        text.spec_bytes().len() as usize > 0x1000_0000usize ==> r is Err,
{
    let mut rd = reader_from_str(text);
    let mut out: Vec<XmlToken> = Vec::new();
    // Each event the reader yields before end-of-input covers at least one
    // byte of the text, so this budget is never the limiting factor on
    // well-formed input; it bounds the loop for the termination proof.
    if text.len() > 0x1000_0000 {
        return Err(malformed("input too large"));
    }
    let budget: u64 = (text.len() as u64) * 2 + 16;
    let mut step: u64 = 0;
    while step < budget
        invariant
            step <= budget,
            text.spec_bytes().len() as usize <= 0x1000_0000usize,
        decreases budget - step,
    {
        step = step + 1;
        let ev = match read_event(&mut rd) {
            Ok(e) => e,
            Err(e) => {
                return Err(DecodeError::MalformedMarkup(fault_reason(&e)));
            },
        };
        match event_shape(ev) {
            EventShape::Open(b) => {
                let name = start_name(&b);
                match start_attrs(&b) {
                    Some(a) => out.push(XmlToken::Open(name, a)),
                    None => {
                        return Err(malformed("invalid attribute syntax"));
                    },
                }
            },
            EventShape::SelfClosed(b) => {
                let name = start_name(&b);
                match start_attrs(&b) {
                    Some(a) => out.push(XmlToken::SelfClosed(name, a)),
                    None => {
                        return Err(malformed("invalid attribute syntax"));
                    },
                }
            },
            EventShape::Close(b) => {
                out.push(XmlToken::Close(end_name(&b)));
            },
            EventShape::Chars(t) => {
                out.push(XmlToken::Text(text_content(&t)));
            },
            EventShape::Cdata(c) => {
                out.push(XmlToken::Text(cdata_content(&c)));
            },
            EventShape::Entity(rf) => {
                let name = ref_content(&rf);
                match resolve_entity(name.as_str()) {
                    Some(s) => out.push(XmlToken::Text(s)),
                    None => {
                        return Err(malformed("unknown entity reference"));
                    },
                }
            },
            EventShape::Skip => {},
            EventShape::Done => {
                return Ok(out);
            },
        }
    }
    Err(malformed("event budget exhausted"))
}

} // verus!
