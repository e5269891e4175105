//! The document root facade: parsing a whole document from markup text,
//! and rendering one back to text.

use vstd::prelude::*;
use vstd::string::StringSliceAdditionalSpecFns;

use crate::decode::{decode_document, spec_decode_document, DecodeError};
use crate::encode::{encode_document, spec_encode_document};
use crate::lex::{lex, TokV};
use crate::model::UnattendXml;
use crate::text::{render_node, xml_text};
use crate::tree::{build_tree, sp_tree};

verus! {

/// Parses markup text into a typed document.
///
/// The lexing step is carried by `quick_xml`, so the token stream itself
/// is not pinned by this contract; everything after it is: whatever tokens
/// came back, the returned document is exactly the decoding of the tree
/// they form, and a failure anywhere aborts the whole parse — no partial
/// document is ever returned.
pub fn parse(text: &str) -> (r: Result<UnattendXml, DecodeError>)
    ensures
        r matches Ok(d) ==> exists|toks: Seq<TokV>|
            (#[trigger] sp_tree(toks)) is Some && spec_decode_document(sp_tree(toks)->0) == Some(
                d@,
            ),
        r matches Err(e) ==> e is MalformedMarkup || e is MissingRequiredField,
        text.spec_bytes().len() as usize > 0x1000_0000usize ==> r is Err,
{
    let toks = match lex(text) {
        Ok(t) => t,
        Err(e) => {
            return Err(e);
        },
    };
    let root = match build_tree(&toks) {
        Ok(n) => n,
        Err(e) => {
            return Err(e);
        },
    };
    decode_document(&root)
}

/// Renders a typed document to markup text: exactly the text of the
/// encoded raw tree, attributes before content, unset optional fields
/// contributing nothing, repeated fields in sequence order.
pub fn render(d: &UnattendXml) -> (r: String)
    ensures
        r@ == xml_text(spec_encode_document(d@)),
{
    let root = encode_document(d);
    render_node(&root)
}

} // verus!
