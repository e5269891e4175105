//! The schema type registry: for each node type, the ordered list of
//! field descriptors the encoder and decoder follow. The order given here
//! is the canonical encode order — attributes first, then content fields —
//! and is independent of the order fields appeared in any decoded source.
//!
//! A `Text` descriptor names a child element whose whole content is its
//! character payload; an `Element` descriptor names a child with
//! structured content of its own; a `RepeatedElement` descriptor names a
//! tag that may occur any number of times, kept in document order.

use vstd::prelude::*;

use crate::encode::{
    enc_opt, opt_text_node, spec_encode_component, spec_encode_create_partition,
    spec_encode_create_partitions, spec_encode_disk, spec_encode_disk_configuration,
    spec_encode_document, spec_encode_first_logon_commands, spec_encode_image_install,
    spec_encode_install_to, spec_encode_local_account, spec_encode_local_accounts,
    spec_encode_modify_partition, spec_encode_modify_partitions, spec_encode_os_image,
    spec_encode_password, spec_encode_product_key, spec_encode_settings,
    spec_encode_setup_ui_language, spec_encode_synchronous_command, spec_encode_user_accounts,
    spec_encode_user_data,
};
use crate::model::{
    ComponentV, CreatePartitionV, CreatePartitionsV, DiskConfigurationV, DiskV,
    FirstLogonCommandsV, ImageInstallV, InstallToV, LocalAccountV, LocalAccountsV,
    ModifyPartitionV, ModifyPartitionsV, OSImageV, PasswordV, ProductKeyV, SettingsV,
    SetupUILanguageV, SynchronousCommandV, UnattendXmlV, UserDataV,
};
use crate::raw::{attr_opt_seq, opt_seq, RawNode, SpecNode};

verus! {

/// The structural role of one field: how it maps to markup.
#[derive(Clone, Copy, Debug, PartialEq, Eq, Structural)]
pub enum BindingKind {
    /// A markup attribute on the node's own tag.
    Attribute,
    /// A single child element with structured content.
    Element,
    /// Any number of sibling child elements sharing one tag.
    RepeatedElement,
    /// A single child element holding character data only.
    Text,
}

/// One node type of the schema.
#[derive(Clone, Copy, Debug, PartialEq, Eq, Structural)]
pub enum NodeType {
    Unattend,
    Settings,
    Component,
    SetupUILanguage,
    UserData,
    ProductKey,
    FirstLogonCommands,
    SynchronousCommand,
    UserAccounts,
    LocalAccounts,
    LocalAccount,
    Password,
    DiskConfiguration,
    Disk,
    CreatePartitions,
    CreatePartition,
    ModifyPartitions,
    ModifyPartition,
    ImageInstall,
    OSImage,
    InstallTo,
}

/// One field of a node type: its binding kind, its markup name, and
/// whether it may be absent.
pub struct FieldDescriptor {
    pub kind: BindingKind,
    pub name: &'static str,
    pub optional: bool,
}

/// The model of one field descriptor.
pub ghost struct FieldV {
    pub kind: BindingKind,
    pub name: Seq<char>,
    pub optional: bool,
}

impl View for FieldDescriptor {
    type V = FieldV;

    open spec fn view(&self) -> FieldV {
        FieldV { kind: self.kind, name: self.name@, optional: self.optional }
    }
}

pub open spec fn fld(kind: BindingKind, name: Seq<char>, optional: bool) -> FieldV {
    FieldV { kind, name, optional }
}

/// The registry: the ordered field descriptors of each node type.
pub open spec fn spec_fields_of(t: NodeType) -> Seq<FieldV> {
    match t {
        NodeType::Unattend => seq![
            fld(BindingKind::Attribute, "xmlns"@, false),
            fld(BindingKind::RepeatedElement, "settings"@, false),
        ],
        NodeType::Settings => seq![
            fld(BindingKind::Attribute, "pass"@, false),
            fld(BindingKind::RepeatedElement, "component"@, false),
        ],
        NodeType::Component => seq![
            fld(BindingKind::Attribute, "language"@, false),
            fld(BindingKind::Attribute, "name"@, false),
            fld(BindingKind::Attribute, "processorArchitecture"@, false),
            fld(BindingKind::Attribute, "publicKeyToken"@, false),
            fld(BindingKind::Attribute, "versionScope"@, false),
            fld(BindingKind::Attribute, "xmlns:wcm"@, false),
            fld(BindingKind::Attribute, "xmlns:xsi"@, false),
            fld(BindingKind::Text, "ComputerName"@, true),
            fld(BindingKind::Element, "DiskConfiguration"@, true),
            fld(BindingKind::Element, "FirstLogonCommands"@, true),
            fld(BindingKind::Element, "ImageInstall"@, true),
            fld(BindingKind::Text, "InputLocale"@, true),
            fld(BindingKind::Element, "SetupUILanguage"@, true),
            fld(BindingKind::Text, "SystemLocale"@, true),
            fld(BindingKind::Text, "UILanguage"@, true),
            fld(BindingKind::Text, "UILanguageFallback"@, true),
            fld(BindingKind::Element, "UserAccounts"@, true),
            fld(BindingKind::Element, "UserData"@, true),
            fld(BindingKind::Text, "UserLocale"@, true),
        ],
        NodeType::SetupUILanguage => seq![fld(BindingKind::Text, "UILanguage"@, false)],
        NodeType::UserData => seq![
            fld(BindingKind::Text, "AcceptEula"@, false),
            fld(BindingKind::Text, "FullName"@, false),
            fld(BindingKind::Text, "Organization"@, false),
            fld(BindingKind::Element, "ProductKey"@, false),
        ],
        NodeType::ProductKey => seq![
            fld(BindingKind::Text, "Key"@, false),
            fld(BindingKind::Text, "WillShowUI"@, true),
        ],
        NodeType::FirstLogonCommands => seq![
            fld(BindingKind::RepeatedElement, "SynchronousCommand"@, false),
        ],
        NodeType::SynchronousCommand => seq![
            fld(BindingKind::Attribute, "wcm:action"@, true),
            fld(BindingKind::Text, "CommandLine"@, false),
            fld(BindingKind::Text, "Description"@, true),
            fld(BindingKind::Text, "Order"@, false),
            fld(BindingKind::Text, "RequiresUserInput"@, true),
        ],
        NodeType::UserAccounts => seq![
            fld(BindingKind::RepeatedElement, "LocalAccounts"@, false),
        ],
        NodeType::LocalAccounts => seq![
            fld(BindingKind::RepeatedElement, "LocalAccount"@, false),
        ],
        NodeType::LocalAccount => seq![
            fld(BindingKind::Attribute, "wcm:action"@, false),
            fld(BindingKind::Text, "Description"@, true),
            fld(BindingKind::Text, "DisplayName"@, true),
            fld(BindingKind::Text, "Group"@, true),
            fld(BindingKind::Text, "Name"@, false),
            fld(BindingKind::Element, "Password"@, false),
        ],
        NodeType::Password => seq![
            fld(BindingKind::Text, "PlainText"@, false),
            fld(BindingKind::Text, "Value"@, false),
        ],
        NodeType::DiskConfiguration => seq![
            fld(BindingKind::Element, "Disk"@, false),
            fld(BindingKind::Text, "WillShowUI"@, true),
        ],
        NodeType::Disk => seq![
            fld(BindingKind::Element, "CreatePartitions"@, false),
            fld(BindingKind::Text, "DiskID"@, false),
            fld(BindingKind::Element, "ModifyPartitions"@, false),
            fld(BindingKind::Text, "WillWipeDisk"@, false),
        ],
        NodeType::CreatePartitions => seq![
            fld(BindingKind::RepeatedElement, "CreatePartition"@, false),
        ],
        NodeType::CreatePartition => seq![
            fld(BindingKind::Text, "Extend"@, true),
            fld(BindingKind::Text, "Order"@, false),
            fld(BindingKind::Text, "Size"@, true),
            fld(BindingKind::Text, "Type"@, false),
        ],
        NodeType::ModifyPartitions => seq![
            fld(BindingKind::RepeatedElement, "ModifyPartition"@, false),
        ],
        NodeType::ModifyPartition => seq![
            fld(BindingKind::Text, "Format"@, false),
            fld(BindingKind::Text, "Label"@, false),
            fld(BindingKind::Text, "Letter"@, true),
            fld(BindingKind::Text, "Order"@, false),
            fld(BindingKind::Text, "PartitionID"@, false),
        ],
        NodeType::ImageInstall => seq![fld(BindingKind::Element, "OSImage"@, false)],
        NodeType::OSImage => seq![
            fld(BindingKind::Element, "InstallTo"@, true),
            fld(BindingKind::Text, "InstallToAvailablePartition"@, true),
            fld(BindingKind::Text, "WillShowUI"@, true),
        ],
        NodeType::InstallTo => seq![
            fld(BindingKind::Text, "DiskID"@, false),
            fld(BindingKind::Text, "PartitionID"@, false),
        ],
    }
}

fn push_field(v: &mut Vec<FieldDescriptor>, kind: BindingKind, name: &'static str, optional: bool)
    ensures
        final(v)@.len() == old(v)@.len() + 1,
        forall|i: int| 0 <= i < old(v)@.len() ==> final(v)@[i] == old(v)@[i],
        final(v)@[old(v)@.len() as int]@ == fld(kind, name@, optional),
{
    v.push(FieldDescriptor { kind, name, optional });
}

/// The ordered field descriptors of one node type, exactly as the
/// registry gives them.
pub fn fields_of(t: NodeType) -> (r: Vec<FieldDescriptor>)
    ensures
        Seq::new(r@.len(), |i: int| r@[i]@) == spec_fields_of(t),
{
    let mut r: Vec<FieldDescriptor> = Vec::new();
    match t {
        NodeType::Unattend => {
            push_field(&mut r, BindingKind::Attribute, "xmlns", false);
            push_field(&mut r, BindingKind::RepeatedElement, "settings", false);
        },
        NodeType::Settings => {
            push_field(&mut r, BindingKind::Attribute, "pass", false);
            push_field(&mut r, BindingKind::RepeatedElement, "component", false);
        },
        NodeType::Component => {
            push_field(&mut r, BindingKind::Attribute, "language", false);
            push_field(&mut r, BindingKind::Attribute, "name", false);
            push_field(&mut r, BindingKind::Attribute, "processorArchitecture", false);
            push_field(&mut r, BindingKind::Attribute, "publicKeyToken", false);
            push_field(&mut r, BindingKind::Attribute, "versionScope", false);
            push_field(&mut r, BindingKind::Attribute, "xmlns:wcm", false);
            push_field(&mut r, BindingKind::Attribute, "xmlns:xsi", false);
            push_field(&mut r, BindingKind::Text, "ComputerName", true);
            push_field(&mut r, BindingKind::Element, "DiskConfiguration", true);
            push_field(&mut r, BindingKind::Element, "FirstLogonCommands", true);
            push_field(&mut r, BindingKind::Element, "ImageInstall", true);
            push_field(&mut r, BindingKind::Text, "InputLocale", true);
            push_field(&mut r, BindingKind::Element, "SetupUILanguage", true);
            push_field(&mut r, BindingKind::Text, "SystemLocale", true);
            push_field(&mut r, BindingKind::Text, "UILanguage", true);
            push_field(&mut r, BindingKind::Text, "UILanguageFallback", true);
            push_field(&mut r, BindingKind::Element, "UserAccounts", true);
            push_field(&mut r, BindingKind::Element, "UserData", true);
            push_field(&mut r, BindingKind::Text, "UserLocale", true);
        },
        NodeType::SetupUILanguage => {
            push_field(&mut r, BindingKind::Text, "UILanguage", false);
        },
        NodeType::UserData => {
            push_field(&mut r, BindingKind::Text, "AcceptEula", false);
            push_field(&mut r, BindingKind::Text, "FullName", false);
            push_field(&mut r, BindingKind::Text, "Organization", false);
            push_field(&mut r, BindingKind::Element, "ProductKey", false);
        },
        NodeType::ProductKey => {
            push_field(&mut r, BindingKind::Text, "Key", false);
            push_field(&mut r, BindingKind::Text, "WillShowUI", true);
        },
        NodeType::FirstLogonCommands => {
            push_field(&mut r, BindingKind::RepeatedElement, "SynchronousCommand", false);
        },
        NodeType::SynchronousCommand => {
            push_field(&mut r, BindingKind::Attribute, "wcm:action", true);
            push_field(&mut r, BindingKind::Text, "CommandLine", false);
            push_field(&mut r, BindingKind::Text, "Description", true);
            push_field(&mut r, BindingKind::Text, "Order", false);
            push_field(&mut r, BindingKind::Text, "RequiresUserInput", true);
        },
        NodeType::UserAccounts => {
            push_field(&mut r, BindingKind::RepeatedElement, "LocalAccounts", false);
        },
        NodeType::LocalAccounts => {
            push_field(&mut r, BindingKind::RepeatedElement, "LocalAccount", false);
        },
        NodeType::LocalAccount => {
            push_field(&mut r, BindingKind::Attribute, "wcm:action", false);
            push_field(&mut r, BindingKind::Text, "Description", true);
            push_field(&mut r, BindingKind::Text, "DisplayName", true);
            push_field(&mut r, BindingKind::Text, "Group", true);
            push_field(&mut r, BindingKind::Text, "Name", false);
            push_field(&mut r, BindingKind::Element, "Password", false);
        },
        NodeType::Password => {
            push_field(&mut r, BindingKind::Text, "PlainText", false);
            push_field(&mut r, BindingKind::Text, "Value", false);
        },
        NodeType::DiskConfiguration => {
            push_field(&mut r, BindingKind::Element, "Disk", false);
            push_field(&mut r, BindingKind::Text, "WillShowUI", true);
        },
        NodeType::Disk => {
            push_field(&mut r, BindingKind::Element, "CreatePartitions", false);
            push_field(&mut r, BindingKind::Text, "DiskID", false);
            push_field(&mut r, BindingKind::Element, "ModifyPartitions", false);
            push_field(&mut r, BindingKind::Text, "WillWipeDisk", false);
        },
        NodeType::CreatePartitions => {
            push_field(&mut r, BindingKind::RepeatedElement, "CreatePartition", false);
        },
        NodeType::CreatePartition => {
            push_field(&mut r, BindingKind::Text, "Extend", true);
            push_field(&mut r, BindingKind::Text, "Order", false);
            push_field(&mut r, BindingKind::Text, "Size", true);
            push_field(&mut r, BindingKind::Text, "Type", false);
        },
        NodeType::ModifyPartitions => {
            push_field(&mut r, BindingKind::RepeatedElement, "ModifyPartition", false);
        },
        NodeType::ModifyPartition => {
            push_field(&mut r, BindingKind::Text, "Format", false);
            push_field(&mut r, BindingKind::Text, "Label", false);
            push_field(&mut r, BindingKind::Text, "Letter", true);
            push_field(&mut r, BindingKind::Text, "Order", false);
            push_field(&mut r, BindingKind::Text, "PartitionID", false);
        },
        NodeType::ImageInstall => {
            push_field(&mut r, BindingKind::Element, "OSImage", false);
        },
        NodeType::OSImage => {
            push_field(&mut r, BindingKind::Element, "InstallTo", true);
            push_field(&mut r, BindingKind::Text, "InstallToAvailablePartition", true);
            push_field(&mut r, BindingKind::Text, "WillShowUI", true);
        },
        NodeType::InstallTo => {
            push_field(&mut r, BindingKind::Text, "DiskID", false);
            push_field(&mut r, BindingKind::Text, "PartitionID", false);
        },
    }
    proof {
        assert(Seq::new(r@.len(), |i: int| r@[i]@) =~= spec_fields_of(t));
    }
    r
}

/// The encoder follows the registry: for a node type whose fields are all
/// required content fields, the encoded children carry the registry's
/// names, one per descriptor, in registry order — shown here for `Disk`.
pub proof fn lemma_encoder_follows_registry_disk(d: DiskV)
    ensures
        spec_encode_disk(d).children.len() == spec_fields_of(NodeType::Disk).len(),
        forall|i: int|
            0 <= i < spec_fields_of(NodeType::Disk).len() ==> #[trigger] spec_encode_disk(
                d,
            ).children[i].tag == spec_fields_of(NodeType::Disk)[i].name,
{
    let cs = spec_encode_disk(d).children;
    assert(cs.len() == 4);
    assert(cs[0].tag == "CreatePartitions"@);
    assert(cs[1].tag == "DiskID"@);
    assert(cs[2].tag == "ModifyPartitions"@);
    assert(cs[3].tag == "WillWipeDisk"@);
}

/// The same, for `Password` and `UserData`.
pub proof fn lemma_encoder_follows_registry_password(p: PasswordV)
    ensures
        spec_encode_password(p).children.len() == spec_fields_of(NodeType::Password).len(),
        forall|i: int|
            0 <= i < spec_fields_of(NodeType::Password).len() ==> #[trigger] spec_encode_password(
                p,
            ).children[i].tag == spec_fields_of(NodeType::Password)[i].name,
{
    let cs = spec_encode_password(p).children;
    assert(cs.len() == 2);
    assert(cs[0].tag == "PlainText"@);
    assert(cs[1].tag == "Value"@);
}

pub proof fn lemma_encoder_follows_registry_user_data(u: UserDataV)
    ensures
        spec_encode_user_data(u).children.len() == spec_fields_of(NodeType::UserData).len(),
        forall|i: int|
            0 <= i < spec_fields_of(NodeType::UserData).len() ==> #[trigger] spec_encode_user_data(
                u,
            ).children[i].tag == spec_fields_of(NodeType::UserData)[i].name,
{
    let cs = spec_encode_user_data(u).children;
    assert(cs.len() == 4);
    assert(cs[0].tag == "AcceptEula"@);
    assert(cs[1].tag == "FullName"@);
    assert(cs[2].tag == "Organization"@);
    assert(cs[3].tag == "ProductKey"@);
}


pub proof fn lemma_encoder_follows_registry_install_to(t: InstallToV)
    ensures
        spec_encode_install_to(t).children.len() == spec_fields_of(NodeType::InstallTo).len(),
        forall|i: int|
            0 <= i < spec_fields_of(NodeType::InstallTo).len() ==> #[trigger] spec_encode_install_to(
                t,
            ).children[i].tag == spec_fields_of(NodeType::InstallTo)[i].name,
{
    let cs = spec_encode_install_to(t).children;
    assert(cs.len() == 2);
    assert(cs[0].tag == "DiskID"@);
    assert(cs[1].tag == "PartitionID"@);
}

pub proof fn lemma_encoder_follows_registry_setup_ui_language(v: SetupUILanguageV)
    ensures
        spec_encode_setup_ui_language(v).children.len() == spec_fields_of(
            NodeType::SetupUILanguage,
        ).len(),
        forall|i: int|
            0 <= i < spec_fields_of(NodeType::SetupUILanguage).len()
                ==> #[trigger] spec_encode_setup_ui_language(v).children[i].tag == spec_fields_of(
                NodeType::SetupUILanguage,
            )[i].name,
{
    let cs = spec_encode_setup_ui_language(v).children;
    assert(cs.len() == 1);
    assert(cs[0].tag == "UILanguage"@);
}

pub proof fn lemma_encoder_follows_registry_image_install(v: ImageInstallV)
    ensures
        spec_encode_image_install(v).children.len() == spec_fields_of(NodeType::ImageInstall).len(),
        forall|i: int|
            0 <= i < spec_fields_of(NodeType::ImageInstall).len()
                ==> #[trigger] spec_encode_image_install(v).children[i].tag == spec_fields_of(
                NodeType::ImageInstall,
            )[i].name,
{
    let cs = spec_encode_image_install(v).children;
    assert(cs.len() == 1);
    assert(cs[0].tag == "OSImage"@);
}

/// For a node type with optional fields, the registry's reading: the
/// children are exactly the present fields' segments, concatenated in
/// registry order under the registry's names.
pub proof fn lemma_encoder_follows_registry_product_key(p: ProductKeyV)
    ensures
        ({
            let fs = spec_fields_of(NodeType::ProductKey);
            spec_encode_product_key(p).children == seq![
                RawNode::spec_text_elem(fs[0].name, p.Key),
            ] + (opt_seq(opt_text_node(p.WillShowUI, fs[1].name)) + Seq::<SpecNode>::empty())
        }),
{
}

pub proof fn lemma_encoder_follows_registry_create_partition(p: CreatePartitionV)
    ensures
        ({
            let fs = spec_fields_of(NodeType::CreatePartition);
            spec_encode_create_partition(p).children == opt_seq(
                opt_text_node(p.Extend, fs[0].name),
            ) + (seq![RawNode::spec_text_elem(fs[1].name, p.Order)] + (opt_seq(
                opt_text_node(p.Size, fs[2].name),
            ) + (seq![RawNode::spec_text_elem(fs[3].name, p.Type)] + Seq::<SpecNode>::empty())))
        }),
{
}

pub proof fn lemma_encoder_follows_registry_modify_partition(p: ModifyPartitionV)
    ensures
        ({
            let fs = spec_fields_of(NodeType::ModifyPartition);
            spec_encode_modify_partition(p).children == seq![
                RawNode::spec_text_elem(fs[0].name, p.Format),
            ] + (seq![RawNode::spec_text_elem(fs[1].name, p.Label)] + (opt_seq(
                opt_text_node(p.Letter, fs[2].name),
            ) + (seq![RawNode::spec_text_elem(fs[3].name, p.Order)] + (seq![
                RawNode::spec_text_elem(fs[4].name, p.PartitionID),
            ] + Seq::<SpecNode>::empty()))))
        }),
{
}

pub proof fn lemma_encoder_follows_registry_os_image(o: OSImageV)
    ensures
        ({
            let fs = spec_fields_of(NodeType::OSImage);
            spec_encode_os_image(o).children == opt_seq(
                enc_opt(o.InstallTo, |t: InstallToV| spec_encode_install_to(t)),
            ) + (opt_seq(opt_text_node(o.InstallToAvailablePartition, fs[1].name)) + (opt_seq(
                opt_text_node(o.WillShowUI, fs[2].name),
            ) + Seq::<SpecNode>::empty())) && (o.InstallTo matches Some(t)
                ==> spec_encode_install_to(t).tag == fs[0].name)
        }),
{
}

pub proof fn lemma_encoder_follows_registry_disk_configuration(d: DiskConfigurationV)
    ensures
        ({
            let fs = spec_fields_of(NodeType::DiskConfiguration);
            spec_encode_disk_configuration(d).children == seq![spec_encode_disk(d.Disk)] + (
            opt_seq(opt_text_node(d.WillShowUI, fs[1].name)) + Seq::<SpecNode>::empty())
                && spec_encode_disk(d.Disk).tag == fs[0].name
        }),
{
}

/// For a node type holding one repeated field, the registry's reading:
/// every child carries the descriptor's name, one child per entry.
pub proof fn lemma_encoder_follows_registry_first_logon_commands(v: FirstLogonCommandsV)
    ensures
        spec_encode_first_logon_commands(v).children.len() == v.SynchronousCommand.len(),
        forall|i: int|
            0 <= i < v.SynchronousCommand.len() ==> #[trigger] spec_encode_first_logon_commands(
                v,
            ).children[i].tag == spec_fields_of(NodeType::FirstLogonCommands)[0].name,
{
    let cs = spec_encode_first_logon_commands(v).children;
    assert forall|i: int| 0 <= i < v.SynchronousCommand.len() implies #[trigger] cs[i].tag
        == spec_fields_of(NodeType::FirstLogonCommands)[0].name by {
        assert(cs[i] == spec_encode_synchronous_command(v.SynchronousCommand[i]));
    }
}

pub proof fn lemma_encoder_follows_registry_local_accounts(v: LocalAccountsV)
    ensures
        spec_encode_local_accounts(v).children.len() == v.LocalAccount.len(),
        forall|i: int|
            0 <= i < v.LocalAccount.len() ==> #[trigger] spec_encode_local_accounts(
                v,
            ).children[i].tag == spec_fields_of(NodeType::LocalAccounts)[0].name,
{
    let cs = spec_encode_local_accounts(v).children;
    assert forall|i: int| 0 <= i < v.LocalAccount.len() implies #[trigger] cs[i].tag
        == spec_fields_of(NodeType::LocalAccounts)[0].name by {
        assert(cs[i] == spec_encode_local_account(v.LocalAccount[i]));
    }
}

pub proof fn lemma_encoder_follows_registry_create_partitions(v: CreatePartitionsV)
    ensures
        spec_encode_create_partitions(v).children.len() == v.CreatePartition.len(),
        forall|i: int|
            0 <= i < v.CreatePartition.len() ==> #[trigger] spec_encode_create_partitions(
                v,
            ).children[i].tag == spec_fields_of(NodeType::CreatePartitions)[0].name,
{
    let cs = spec_encode_create_partitions(v).children;
    assert forall|i: int| 0 <= i < v.CreatePartition.len() implies #[trigger] cs[i].tag
        == spec_fields_of(NodeType::CreatePartitions)[0].name by {
        assert(cs[i] == spec_encode_create_partition(v.CreatePartition[i]));
    }
}

pub proof fn lemma_encoder_follows_registry_modify_partitions(v: ModifyPartitionsV)
    ensures
        spec_encode_modify_partitions(v).children.len() == v.ModifyPartition.len(),
        forall|i: int|
            0 <= i < v.ModifyPartition.len() ==> #[trigger] spec_encode_modify_partitions(
                v,
            ).children[i].tag == spec_fields_of(NodeType::ModifyPartitions)[0].name,
{
    let cs = spec_encode_modify_partitions(v).children;
    assert forall|i: int| 0 <= i < v.ModifyPartition.len() implies #[trigger] cs[i].tag
        == spec_fields_of(NodeType::ModifyPartitions)[0].name by {
        assert(cs[i] == spec_encode_modify_partition(v.ModifyPartition[i]));
    }
}

pub proof fn lemma_encoder_follows_registry_user_accounts(ua: Seq<LocalAccountsV>)
    ensures
        spec_encode_user_accounts(ua).children.len() == ua.len(),
        forall|i: int|
            0 <= i < ua.len() ==> #[trigger] spec_encode_user_accounts(ua).children[i].tag
                == spec_fields_of(NodeType::UserAccounts)[0].name,
{
    let cs = spec_encode_user_accounts(ua).children;
    assert forall|i: int| 0 <= i < ua.len() implies #[trigger] cs[i].tag == spec_fields_of(
        NodeType::UserAccounts,
    )[0].name by {
        assert(cs[i] == spec_encode_local_accounts(ua[i]));
    }
}

/// For a node type with attributes, the registry's reading: the
/// attributes come first, under the registry's names in registry order,
/// then the content fields.
pub proof fn lemma_encoder_follows_registry_settings(v: SettingsV)
    ensures
        ({
            let fs = spec_fields_of(NodeType::Settings);
            spec_encode_settings(v).attrs == seq![(fs[0].name, v.pass)] + Seq::<(
                Seq<char>,
                Seq<char>,
            )>::empty() && spec_encode_settings(v).children.len() == v.component.len()
        }),
        forall|i: int|
            0 <= i < v.component.len() ==> #[trigger] spec_encode_settings(v).children[i].tag
                == spec_fields_of(NodeType::Settings)[1].name,
{
    let cs = spec_encode_settings(v).children;
    assert forall|i: int| 0 <= i < v.component.len() implies #[trigger] cs[i].tag
        == spec_fields_of(NodeType::Settings)[1].name by {
        assert(cs[i] == spec_encode_component(v.component[i]));
    }
}

pub proof fn lemma_encoder_follows_registry_document(d: UnattendXmlV)
    ensures
        ({
            let fs = spec_fields_of(NodeType::Unattend);
            spec_encode_document(d).attrs == seq![(fs[0].name, d.xmlns)] + Seq::<(
                Seq<char>,
                Seq<char>,
            )>::empty() && spec_encode_document(d).children.len() == d.settings.len()
        }),
        forall|i: int|
            0 <= i < d.settings.len() ==> #[trigger] spec_encode_document(d).children[i].tag
                == spec_fields_of(NodeType::Unattend)[1].name,
{
    let cs = spec_encode_document(d).children;
    assert forall|i: int| 0 <= i < d.settings.len() implies #[trigger] cs[i].tag
        == spec_fields_of(NodeType::Unattend)[1].name by {
        assert(cs[i] == spec_encode_settings(d.settings[i]));
    }
}

pub proof fn lemma_encoder_follows_registry_synchronous_command(a: SynchronousCommandV)
    ensures
        ({
            let fs = spec_fields_of(NodeType::SynchronousCommand);
            spec_encode_synchronous_command(a).attrs == attr_opt_seq(a.action, fs[0].name)
                + Seq::<(Seq<char>, Seq<char>)>::empty() && spec_encode_synchronous_command(
                a,
            ).children == seq![RawNode::spec_text_elem(fs[1].name, a.CommandLine)] + (opt_seq(
                opt_text_node(a.Description, fs[2].name),
            ) + (seq![RawNode::spec_text_elem(fs[3].name, a.Order)] + (opt_seq(
                opt_text_node(a.RequiresUserInput, fs[4].name),
            ) + Seq::<SpecNode>::empty())))
        }),
{
}

pub proof fn lemma_encoder_follows_registry_local_account(a: LocalAccountV)
    ensures
        ({
            let fs = spec_fields_of(NodeType::LocalAccount);
            spec_encode_local_account(a).attrs == seq![(fs[0].name, a.action)] + Seq::<(
                Seq<char>,
                Seq<char>,
            )>::empty() && spec_encode_local_account(a).children == opt_seq(
                opt_text_node(a.Description, fs[1].name),
            ) + (opt_seq(opt_text_node(a.DisplayName, fs[2].name)) + (opt_seq(
                opt_text_node(a.Group, fs[3].name),
            ) + (seq![RawNode::spec_text_elem(fs[4].name, a.Name)] + (seq![
                spec_encode_password(a.Password),
            ] + Seq::<SpecNode>::empty())))) && spec_encode_password(a.Password).tag == fs[5].name
        }),
{
}

#[verifier::rlimit(50)]
pub proof fn lemma_encoder_follows_registry_component(c: ComponentV)
    ensures
        ({
            let fs = spec_fields_of(NodeType::Component);
            spec_encode_component(c).attrs == seq![(fs[0].name, c.language)] + (seq![
                (fs[1].name, c.name),
            ] + (seq![(fs[2].name, c.processorArchitecture)] + (seq![(fs[3].name, c.publicKeyToken)]
                + (seq![(fs[4].name, c.versionScope)] + (seq![(fs[5].name, c.xmlns_wcm)] + (seq![
                (fs[6].name, c.xmlns_xsi),
            ] + Seq::<(Seq<char>, Seq<char>)>::empty()))))))
        }),
        ({
            let fs = spec_fields_of(NodeType::Component);
            spec_encode_component(c).children == opt_seq(opt_text_node(c.ComputerName, fs[7].name))
                + (opt_seq(
                enc_opt(c.DiskConfiguration, |d: DiskConfigurationV| spec_encode_disk_configuration(d)),
            ) + (opt_seq(
                enc_opt(
                    c.FirstLogonCommands,
                    |v: FirstLogonCommandsV| spec_encode_first_logon_commands(v),
                ),
            ) + (opt_seq(enc_opt(c.ImageInstall, |v: ImageInstallV| spec_encode_image_install(v)))
                + (opt_seq(opt_text_node(c.InputLocale, fs[11].name)) + (opt_seq(
                enc_opt(c.SetupUILanguage, |v: SetupUILanguageV| spec_encode_setup_ui_language(v)),
            ) + (opt_seq(opt_text_node(c.SystemLocale, fs[13].name)) + (opt_seq(
                opt_text_node(c.UILanguage, fs[14].name),
            ) + (opt_seq(opt_text_node(c.UILanguageFallback, fs[15].name)) + (opt_seq(
                enc_opt(c.UserAccounts, |ua: Seq<LocalAccountsV>| spec_encode_user_accounts(ua)),
            ) + (opt_seq(enc_opt(c.UserData, |u: UserDataV| spec_encode_user_data(u))) + (opt_seq(
                opt_text_node(c.UserLocale, fs[18].name),
            ) + Seq::<SpecNode>::empty())))))))))))
        }),
        ({
            let fs = spec_fields_of(NodeType::Component);
            &&& (c.DiskConfiguration matches Some(d) ==> spec_encode_disk_configuration(d).tag
                == fs[8].name)
            &&& (c.FirstLogonCommands matches Some(v) ==> spec_encode_first_logon_commands(v).tag
                == fs[9].name)
            &&& (c.ImageInstall matches Some(v) ==> spec_encode_image_install(v).tag == fs[10].name)
            &&& (c.SetupUILanguage matches Some(v) ==> spec_encode_setup_ui_language(v).tag
                == fs[12].name)
            &&& (c.UserAccounts matches Some(ua) ==> spec_encode_user_accounts(ua).tag
                == fs[16].name)
            &&& (c.UserData matches Some(u) ==> spec_encode_user_data(u).tag == fs[17].name)
        }),
{
}

} // verus!
