//! A verified binding layer between a typed Windows answer-file
//! configuration tree and its markup rendering.
//!
//! The typed tree lives in [`model`]; [`encode`] turns it into raw markup
//! nodes and [`decode`] turns raw nodes back, both against exact
//! specifications; [`laws`] proves that decoding inverts encoding, field
//! for field, for every document the schema can express. [`text`] renders
//! raw nodes to markup text; [`lex`] and [`tree`] read text back into raw
//! nodes, with `quick_xml` doing the lexing behind a small trusted
//! boundary. [`facade`] ties the two directions together.

pub mod decode;
pub mod encode;
pub mod facade;
pub mod laws;
pub mod lex;
pub mod model;
pub mod raw;
pub mod schema;
mod strutil;
pub mod text;
pub mod tree;

pub use decode::{decode_component, decode_document, decode_settings, DecodeError};
pub use encode::{encode_component, encode_document, encode_settings};
pub use facade::{parse, render};
pub use model::{
    Component, CreatePartition, CreatePartitions, Disk, DiskConfiguration, FirstLogonCommands,
    ImageInstall, InstallTo, LocalAccount, LocalAccounts, ModifyPartition, ModifyPartitions,
    OSImage, Password, ProductKey, SetupUILanguage, Settings, SynchronousCommand, UnattendXml,
    UserData,
};
pub use raw::RawNode;
pub use schema::{fields_of, BindingKind, FieldDescriptor, NodeType};
