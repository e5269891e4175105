//! The encoder: turns a typed tree back into raw markup nodes, walking the
//! schema registry's canonical field order.
//!
//! Attributes are emitted before any child content; an unset optional field
//! contributes no node at all; a repeated field contributes one sibling per
//! entry, in sequence order. Encoding is total: it cannot fail on any
//! well-typed tree.
#![allow(non_snake_case)]

use vstd::prelude::*;

use crate::model::{
    Component, ComponentV, CreatePartition, CreatePartitionV, CreatePartitions, CreatePartitionsV,
    Disk, DiskConfiguration, DiskConfigurationV, DiskV, FirstLogonCommands, FirstLogonCommandsV,
    ImageInstall, ImageInstallV, InstallTo, InstallToV, LocalAccount, LocalAccountV, LocalAccounts,
    LocalAccountsV, ModifyPartition, ModifyPartitionV, ModifyPartitions, ModifyPartitionsV,
    OSImage, OSImageV, Password, PasswordV, ProductKey, ProductKeyV, Settings, SettingsV,
    SetupUILanguage, SetupUILanguageV, SynchronousCommand, SynchronousCommandV, UnattendXml,
    UnattendXmlV, UserData, UserDataV,
};
use crate::raw::{attr_opt_seq, lemma_nodes_view, nodes_view, opt_seq, RawNode, SpecNode};

verus! {

broadcast use vstd::std_specs::vec::group_vec_axioms, crate::raw::lemma_nodes_view, crate::raw::lemma_nodes_view_push;

/// The node an optional text-element field contributes, if set.
pub open spec fn opt_text_node(o: Option<Seq<char>>, tag: Seq<char>) -> Option<SpecNode> {
    match o {
        Some(s) => Some(RawNode::spec_text_elem(tag, s)),
        None => None,
    }
}

/// The node an optional nested-element field contributes, if set.
pub open spec fn enc_opt<T>(o: Option<T>, g: spec_fn(T) -> SpecNode) -> Option<SpecNode> {
    match o {
        Some(v) => Some(g(v)),
        None => None,
    }
}

fn push_opt_text(ch: &mut Vec<RawNode>, o: &Option<String>, tag: &str)
    ensures
        nodes_view(final(ch)@) == nodes_view(old(ch)@) + opt_seq(
            opt_text_node(crate::model::opt_view(*o), tag@),
        ),
{
    let ghost prev = nodes_view(ch@);
    match o {
        Some(s) => {
            ch.push(RawNode::text_elem(tag, s));
            proof {
                assert(nodes_view(ch@) =~= prev + opt_seq(
                    opt_text_node(crate::model::opt_view(*o), tag@),
                ));
            }
        },
        None => {
            proof {
                assert(nodes_view(ch@) =~= prev + opt_seq(
                    opt_text_node(crate::model::opt_view(*o), tag@),
                ));
            }
        },
    }
}

/// `Password`
pub open spec fn spec_encode_password(p: PasswordV) -> SpecNode {
    SpecNode {
        tag: "Password"@,
        attrs: Seq::empty(),
        children: seq![RawNode::spec_text_elem("PlainText"@, p.PlainText)] + (
        seq![RawNode::spec_text_elem("Value"@, p.Value)] + Seq::empty()),
        text: Seq::empty(),
    }
}

pub fn encode_password(p: &Password) -> (r: RawNode)
    ensures
        r@ == spec_encode_password(p@),
{
    let mut ch: Vec<RawNode> = Vec::new();
    ch.push(RawNode::text_elem("PlainText", &p.PlainText));
    ch.push(RawNode::text_elem("Value", &p.Value));
    let r = RawNode {
        tag: "Password".to_owned(),
        attrs: Vec::new(),
        children: ch,
        text: String::new(),
    };
    proof {
        lemma_nodes_view(ch@);
        assert(r@.attrs =~= Seq::<(Seq<char>, Seq<char>)>::empty());
        assert(r@.children =~= spec_encode_password(p@).children);
    }
    r
}

/// `InstallTo`
pub open spec fn spec_encode_install_to(t: InstallToV) -> SpecNode {
    SpecNode {
        tag: "InstallTo"@,
        attrs: Seq::empty(),
        children: seq![RawNode::spec_text_elem("DiskID"@, t.DiskID)] + (
        seq![RawNode::spec_text_elem("PartitionID"@, t.PartitionID)] + Seq::empty()),
        text: Seq::empty(),
    }
}

pub fn encode_install_to(t: &InstallTo) -> (r: RawNode)
    ensures
        r@ == spec_encode_install_to(t@),
{
    let mut ch: Vec<RawNode> = Vec::new();
    ch.push(RawNode::text_elem("DiskID", &t.DiskID));
    ch.push(RawNode::text_elem("PartitionID", &t.PartitionID));
    let r = RawNode {
        tag: "InstallTo".to_owned(),
        attrs: Vec::new(),
        children: ch,
        text: String::new(),
    };
    proof {
        lemma_nodes_view(ch@);
        assert(r@.attrs =~= Seq::<(Seq<char>, Seq<char>)>::empty());
        assert(r@.children =~= spec_encode_install_to(t@).children);
    }
    r
}

/// `SetupUILanguage`
pub open spec fn spec_encode_setup_ui_language(s: SetupUILanguageV) -> SpecNode {
    SpecNode {
        tag: "SetupUILanguage"@,
        attrs: Seq::empty(),
        children: seq![RawNode::spec_text_elem("UILanguage"@, s.UILanguage)] + Seq::empty(),
        text: Seq::empty(),
    }
}

pub fn encode_setup_ui_language(s: &SetupUILanguage) -> (r: RawNode)
    ensures
        r@ == spec_encode_setup_ui_language(s@),
{
    let mut ch: Vec<RawNode> = Vec::new();
    ch.push(RawNode::text_elem("UILanguage", &s.UILanguage));
    let r = RawNode {
        tag: "SetupUILanguage".to_owned(),
        attrs: Vec::new(),
        children: ch,
        text: String::new(),
    };
    proof {
        lemma_nodes_view(ch@);
        assert(r@.attrs =~= Seq::<(Seq<char>, Seq<char>)>::empty());
        assert(r@.children =~= spec_encode_setup_ui_language(s@).children);
    }
    r
}

/// `ProductKey`
pub open spec fn spec_encode_product_key(p: ProductKeyV) -> SpecNode {
    SpecNode {
        tag: "ProductKey"@,
        attrs: Seq::empty(),
        children: seq![RawNode::spec_text_elem("Key"@, p.Key)] + (opt_seq(
            opt_text_node(p.WillShowUI, "WillShowUI"@),
        ) + Seq::empty()),
        text: Seq::empty(),
    }
}

pub fn encode_product_key(p: &ProductKey) -> (r: RawNode)
    ensures
        r@ == spec_encode_product_key(p@),
{
    let mut ch: Vec<RawNode> = Vec::new();
    ch.push(RawNode::text_elem("Key", &p.Key));
    push_opt_text(&mut ch, &p.WillShowUI, "WillShowUI");
    let r = RawNode {
        tag: "ProductKey".to_owned(),
        attrs: Vec::new(),
        children: ch,
        text: String::new(),
    };
    proof {
        lemma_nodes_view(ch@);
        assert(r@.attrs =~= Seq::<(Seq<char>, Seq<char>)>::empty());
        assert(r@.children =~= spec_encode_product_key(p@).children);
    }
    r
}

/// `UserData`
pub open spec fn spec_encode_user_data(u: UserDataV) -> SpecNode {
    SpecNode {
        tag: "UserData"@,
        attrs: Seq::empty(),
        children: seq![RawNode::spec_text_elem("AcceptEula"@, u.AcceptEula)] + (
        seq![RawNode::spec_text_elem("FullName"@, u.FullName)] + (
        seq![RawNode::spec_text_elem("Organization"@, u.Organization)] + (
        seq![spec_encode_product_key(u.ProductKey)] + Seq::empty()))),
        text: Seq::empty(),
    }
}

pub fn encode_user_data(u: &UserData) -> (r: RawNode)
    ensures
        r@ == spec_encode_user_data(u@),
{
    let mut ch: Vec<RawNode> = Vec::new();
    ch.push(RawNode::text_elem("AcceptEula", &u.AcceptEula));
    ch.push(RawNode::text_elem("FullName", &u.FullName));
    ch.push(RawNode::text_elem("Organization", &u.Organization));
    ch.push(encode_product_key(&u.ProductKey));
    let r = RawNode {
        tag: "UserData".to_owned(),
        attrs: Vec::new(),
        children: ch,
        text: String::new(),
    };
    proof {
        lemma_nodes_view(ch@);
        assert(r@.attrs =~= Seq::<(Seq<char>, Seq<char>)>::empty());
        assert(r@.children =~= spec_encode_user_data(u@).children);
    }
    r
}

/// `SynchronousCommand`: the `wcm:action` marker is an attribute; the rest
/// are text elements.
pub open spec fn spec_encode_synchronous_command(a: SynchronousCommandV) -> SpecNode {
    SpecNode {
        tag: "SynchronousCommand"@,
        attrs: attr_opt_seq(a.action, "wcm:action"@) + Seq::empty(),
        children: seq![RawNode::spec_text_elem("CommandLine"@, a.CommandLine)] + (opt_seq(
            opt_text_node(a.Description, "Description"@),
        ) + (seq![RawNode::spec_text_elem("Order"@, a.Order)] + (opt_seq(
            opt_text_node(a.RequiresUserInput, "RequiresUserInput"@),
        ) + Seq::empty()))),
        text: Seq::empty(),
    }
}

pub fn encode_synchronous_command(a: &SynchronousCommand) -> (r: RawNode)
    ensures
        r@ == spec_encode_synchronous_command(a@),
{
    let mut at: Vec<(String, String)> = Vec::new();
    if let Some(v) = &a.action {
        at.push(("wcm:action".to_owned(), v.clone()));
    }
    let mut ch: Vec<RawNode> = Vec::new();
    ch.push(RawNode::text_elem("CommandLine", &a.CommandLine));
    push_opt_text(&mut ch, &a.Description, "Description");
    ch.push(RawNode::text_elem("Order", &a.Order));
    push_opt_text(&mut ch, &a.RequiresUserInput, "RequiresUserInput");
    let r = RawNode {
        tag: "SynchronousCommand".to_owned(),
        attrs: at,
        children: ch,
        text: String::new(),
    };
    proof {
        lemma_nodes_view(ch@);
        assert(r@.attrs =~= spec_encode_synchronous_command(a@).attrs);
        assert(r@.children =~= spec_encode_synchronous_command(a@).children);
    }
    r
}

/// `LocalAccount`: the `wcm:action` marker is a required attribute.
pub open spec fn spec_encode_local_account(a: LocalAccountV) -> SpecNode {
    SpecNode {
        tag: "LocalAccount"@,
        attrs: seq![("wcm:action"@, a.action)] + Seq::empty(),
        children: opt_seq(opt_text_node(a.Description, "Description"@)) + (opt_seq(
            opt_text_node(a.DisplayName, "DisplayName"@),
        ) + (opt_seq(opt_text_node(a.Group, "Group"@)) + (
        seq![RawNode::spec_text_elem("Name"@, a.Name)] + (
        seq![spec_encode_password(a.Password)] + Seq::empty())))),
        text: Seq::empty(),
    }
}

pub fn encode_local_account(a: &LocalAccount) -> (r: RawNode)
    ensures
        r@ == spec_encode_local_account(a@),
{
    let mut at: Vec<(String, String)> = Vec::new();
    at.push(("wcm:action".to_owned(), a.action.clone()));
    let mut ch: Vec<RawNode> = Vec::new();
    push_opt_text(&mut ch, &a.Description, "Description");
    push_opt_text(&mut ch, &a.DisplayName, "DisplayName");
    push_opt_text(&mut ch, &a.Group, "Group");
    ch.push(RawNode::text_elem("Name", &a.Name));
    ch.push(encode_password(&a.Password));
    let r = RawNode {
        tag: "LocalAccount".to_owned(),
        attrs: at,
        children: ch,
        text: String::new(),
    };
    proof {
        lemma_nodes_view(ch@);
        assert(r@.attrs =~= spec_encode_local_account(a@).attrs);
        assert(r@.children =~= spec_encode_local_account(a@).children);
    }
    r
}

/// `CreatePartition`
pub open spec fn spec_encode_create_partition(p: CreatePartitionV) -> SpecNode {
    SpecNode {
        tag: "CreatePartition"@,
        attrs: Seq::empty(),
        children: opt_seq(opt_text_node(p.Extend, "Extend"@)) + (
        seq![RawNode::spec_text_elem("Order"@, p.Order)] + (opt_seq(
            opt_text_node(p.Size, "Size"@),
        ) + (seq![RawNode::spec_text_elem("Type"@, p.Type)] + Seq::empty()))),
        text: Seq::empty(),
    }
}

pub fn encode_create_partition(p: &CreatePartition) -> (r: RawNode)
    ensures
        r@ == spec_encode_create_partition(p@),
{
    let mut ch: Vec<RawNode> = Vec::new();
    push_opt_text(&mut ch, &p.Extend, "Extend");
    ch.push(RawNode::text_elem("Order", &p.Order));
    push_opt_text(&mut ch, &p.Size, "Size");
    ch.push(RawNode::text_elem("Type", &p.Type));
    let r = RawNode {
        tag: "CreatePartition".to_owned(),
        attrs: Vec::new(),
        children: ch,
        text: String::new(),
    };
    proof {
        lemma_nodes_view(ch@);
        assert(r@.attrs =~= Seq::<(Seq<char>, Seq<char>)>::empty());
        assert(r@.children =~= spec_encode_create_partition(p@).children);
    }
    r
}

/// `ModifyPartition`
pub open spec fn spec_encode_modify_partition(p: ModifyPartitionV) -> SpecNode {
    SpecNode {
        tag: "ModifyPartition"@,
        attrs: Seq::empty(),
        children: seq![RawNode::spec_text_elem("Format"@, p.Format)] + (
        seq![RawNode::spec_text_elem("Label"@, p.Label)] + (opt_seq(
            opt_text_node(p.Letter, "Letter"@),
        ) + (seq![RawNode::spec_text_elem("Order"@, p.Order)] + (
        seq![RawNode::spec_text_elem("PartitionID"@, p.PartitionID)] + Seq::empty())))),
        text: Seq::empty(),
    }
}

pub fn encode_modify_partition(p: &ModifyPartition) -> (r: RawNode)
    ensures
        r@ == spec_encode_modify_partition(p@),
{
    let mut ch: Vec<RawNode> = Vec::new();
    ch.push(RawNode::text_elem("Format", &p.Format));
    ch.push(RawNode::text_elem("Label", &p.Label));
    push_opt_text(&mut ch, &p.Letter, "Letter");
    ch.push(RawNode::text_elem("Order", &p.Order));
    ch.push(RawNode::text_elem("PartitionID", &p.PartitionID));
    let r = RawNode {
        tag: "ModifyPartition".to_owned(),
        attrs: Vec::new(),
        children: ch,
        text: String::new(),
    };
    proof {
        lemma_nodes_view(ch@);
        assert(r@.attrs =~= Seq::<(Seq<char>, Seq<char>)>::empty());
        assert(r@.children =~= spec_encode_modify_partition(p@).children);
    }
    r
}


/// `FirstLogonCommands`
pub open spec fn spec_encode_first_logon_commands(v: FirstLogonCommandsV) -> SpecNode {
    SpecNode {
        tag: "FirstLogonCommands"@,
        attrs: Seq::empty(),
        children: Seq::new(
            v.SynchronousCommand.len(),
            |i: int| spec_encode_synchronous_command(v.SynchronousCommand[i]),
        ) + Seq::empty(),
        text: Seq::empty(),
    }
}

pub fn encode_first_logon_commands(v: &FirstLogonCommands) -> (r: RawNode)
    ensures
        r@ == spec_encode_first_logon_commands(v@),
{
    let mut ch: Vec<RawNode> = Vec::new();
    let mut i: usize = 0;
    proof {
        assert(nodes_view(ch@) =~= Seq::new(
            0,
            |j: int| spec_encode_synchronous_command(v@.SynchronousCommand[j]),
        ));
    }
    while i < v.SynchronousCommand.len()
        invariant
            i <= v.SynchronousCommand.len(),
            v@.SynchronousCommand.len() == v.SynchronousCommand.len(),
            nodes_view(ch@) == Seq::new(
                i as nat,
                |j: int| spec_encode_synchronous_command(v@.SynchronousCommand[j]),
            ),
        decreases v.SynchronousCommand.len() - i,
    {
        ch.push(encode_synchronous_command(&v.SynchronousCommand[i]));
        proof {
            assert(nodes_view(ch@) =~= Seq::new(
                i as nat + 1,
                |j: int| spec_encode_synchronous_command(v@.SynchronousCommand[j]),
            ));
        }
        i = i + 1;
    }
    let r = RawNode {
        tag: "FirstLogonCommands".to_owned(),
        attrs: Vec::new(),
        children: ch,
        text: String::new(),
    };
    proof {
        assert(r@.attrs =~= Seq::<(Seq<char>, Seq<char>)>::empty());
        assert(r@.children =~= spec_encode_first_logon_commands(v@).children);
    }
    r
}

/// `LocalAccounts`
pub open spec fn spec_encode_local_accounts(v: LocalAccountsV) -> SpecNode {
    SpecNode {
        tag: "LocalAccounts"@,
        attrs: Seq::empty(),
        children: Seq::new(
            v.LocalAccount.len(),
            |i: int| spec_encode_local_account(v.LocalAccount[i]),
        ) + Seq::empty(),
        text: Seq::empty(),
    }
}

pub fn encode_local_accounts(v: &LocalAccounts) -> (r: RawNode)
    ensures
        r@ == spec_encode_local_accounts(v@),
{
    let mut ch: Vec<RawNode> = Vec::new();
    let mut i: usize = 0;
    proof {
        assert(nodes_view(ch@) =~= Seq::new(
            0,
            |j: int| spec_encode_local_account(v@.LocalAccount[j]),
        ));
    }
    while i < v.LocalAccount.len()
        invariant
            i <= v.LocalAccount.len(),
            v@.LocalAccount.len() == v.LocalAccount.len(),
            nodes_view(ch@) == Seq::new(
                i as nat,
                |j: int| spec_encode_local_account(v@.LocalAccount[j]),
            ),
        decreases v.LocalAccount.len() - i,
    {
        ch.push(encode_local_account(&v.LocalAccount[i]));
        proof {
            assert(nodes_view(ch@) =~= Seq::new(
                i as nat + 1,
                |j: int| spec_encode_local_account(v@.LocalAccount[j]),
            ));
        }
        i = i + 1;
    }
    let r = RawNode {
        tag: "LocalAccounts".to_owned(),
        attrs: Vec::new(),
        children: ch,
        text: String::new(),
    };
    proof {
        assert(r@.attrs =~= Seq::<(Seq<char>, Seq<char>)>::empty());
        assert(r@.children =~= spec_encode_local_accounts(v@).children);
    }
    r
}

/// `CreatePartitions`
pub open spec fn spec_encode_create_partitions(v: CreatePartitionsV) -> SpecNode {
    SpecNode {
        tag: "CreatePartitions"@,
        attrs: Seq::empty(),
        children: Seq::new(
            v.CreatePartition.len(),
            |i: int| spec_encode_create_partition(v.CreatePartition[i]),
        ) + Seq::empty(),
        text: Seq::empty(),
    }
}

pub fn encode_create_partitions(v: &CreatePartitions) -> (r: RawNode)
    ensures
        r@ == spec_encode_create_partitions(v@),
{
    let mut ch: Vec<RawNode> = Vec::new();
    let mut i: usize = 0;
    proof {
        assert(nodes_view(ch@) =~= Seq::new(
            0,
            |j: int| spec_encode_create_partition(v@.CreatePartition[j]),
        ));
    }
    while i < v.CreatePartition.len()
        invariant
            i <= v.CreatePartition.len(),
            v@.CreatePartition.len() == v.CreatePartition.len(),
            nodes_view(ch@) == Seq::new(
                i as nat,
                |j: int| spec_encode_create_partition(v@.CreatePartition[j]),
            ),
        decreases v.CreatePartition.len() - i,
    {
        ch.push(encode_create_partition(&v.CreatePartition[i]));
        proof {
            assert(nodes_view(ch@) =~= Seq::new(
                i as nat + 1,
                |j: int| spec_encode_create_partition(v@.CreatePartition[j]),
            ));
        }
        i = i + 1;
    }
    let r = RawNode {
        tag: "CreatePartitions".to_owned(),
        attrs: Vec::new(),
        children: ch,
        text: String::new(),
    };
    proof {
        assert(r@.attrs =~= Seq::<(Seq<char>, Seq<char>)>::empty());
        assert(r@.children =~= spec_encode_create_partitions(v@).children);
    }
    r
}

/// `ModifyPartitions`
pub open spec fn spec_encode_modify_partitions(v: ModifyPartitionsV) -> SpecNode {
    SpecNode {
        tag: "ModifyPartitions"@,
        attrs: Seq::empty(),
        children: Seq::new(
            v.ModifyPartition.len(),
            |i: int| spec_encode_modify_partition(v.ModifyPartition[i]),
        ) + Seq::empty(),
        text: Seq::empty(),
    }
}

pub fn encode_modify_partitions(v: &ModifyPartitions) -> (r: RawNode)
    ensures
        r@ == spec_encode_modify_partitions(v@),
{
    let mut ch: Vec<RawNode> = Vec::new();
    let mut i: usize = 0;
    proof {
        assert(nodes_view(ch@) =~= Seq::new(
            0,
            |j: int| spec_encode_modify_partition(v@.ModifyPartition[j]),
        ));
    }
    while i < v.ModifyPartition.len()
        invariant
            i <= v.ModifyPartition.len(),
            v@.ModifyPartition.len() == v.ModifyPartition.len(),
            nodes_view(ch@) == Seq::new(
                i as nat,
                |j: int| spec_encode_modify_partition(v@.ModifyPartition[j]),
            ),
        decreases v.ModifyPartition.len() - i,
    {
        ch.push(encode_modify_partition(&v.ModifyPartition[i]));
        proof {
            assert(nodes_view(ch@) =~= Seq::new(
                i as nat + 1,
                |j: int| spec_encode_modify_partition(v@.ModifyPartition[j]),
            ));
        }
        i = i + 1;
    }
    let r = RawNode {
        tag: "ModifyPartitions".to_owned(),
        attrs: Vec::new(),
        children: ch,
        text: String::new(),
    };
    proof {
        assert(r@.attrs =~= Seq::<(Seq<char>, Seq<char>)>::empty());
        assert(r@.children =~= spec_encode_modify_partitions(v@).children);
    }
    r
}

/// The `UserAccounts` container element: the repeated `LocalAccounts`
/// blocks it holds, in order.
pub open spec fn spec_encode_user_accounts(ua: Seq<LocalAccountsV>) -> SpecNode {
    SpecNode {
        tag: "UserAccounts"@,
        attrs: Seq::empty(),
        children: Seq::new(ua.len(), |i: int| spec_encode_local_accounts(ua[i])) + Seq::empty(),
        text: Seq::empty(),
    }
}

pub fn encode_user_accounts(v: &Vec<LocalAccounts>) -> (r: RawNode)
    ensures
        r@ == spec_encode_user_accounts(Seq::new(v@.len(), |i: int| v@[i]@)),
{
    let ghost ua = Seq::new(v@.len(), |i: int| v@[i]@);
    let mut ch: Vec<RawNode> = Vec::new();
    let mut i: usize = 0;
    proof {
        assert(nodes_view(ch@) =~= Seq::new(0, |j: int| spec_encode_local_accounts(ua[j])));
    }
    while i < v.len()
        invariant
            i <= v.len(),
            ua == Seq::new(v@.len(), |k: int| v@[k]@),
            ua.len() == v.len(),
            nodes_view(ch@) == Seq::new(i as nat, |j: int| spec_encode_local_accounts(ua[j])),
        decreases v.len() - i,
    {
        ch.push(encode_local_accounts(&v[i]));
        proof {
            assert(nodes_view(ch@) =~= Seq::new(
                i as nat + 1,
                |j: int| spec_encode_local_accounts(ua[j]),
            ));
        }
        i = i + 1;
    }
    let r = RawNode {
        tag: "UserAccounts".to_owned(),
        attrs: Vec::new(),
        children: ch,
        text: String::new(),
    };
    proof {
        assert(r@.attrs =~= Seq::<(Seq<char>, Seq<char>)>::empty());
        assert(r@.children =~= spec_encode_user_accounts(ua).children);
    }
    r
}

/// `Disk`
pub open spec fn spec_encode_disk(d: DiskV) -> SpecNode {
    SpecNode {
        tag: "Disk"@,
        attrs: Seq::empty(),
        children: seq![spec_encode_create_partitions(d.CreatePartitions)] + (
        seq![RawNode::spec_text_elem("DiskID"@, d.DiskID)] + (
        seq![spec_encode_modify_partitions(d.ModifyPartitions)] + (
        seq![RawNode::spec_text_elem("WillWipeDisk"@, d.WillWipeDisk)] + Seq::empty()))),
        text: Seq::empty(),
    }
}

pub fn encode_disk(d: &Disk) -> (r: RawNode)
    ensures
        r@ == spec_encode_disk(d@),
{
    let mut ch: Vec<RawNode> = Vec::new();
    ch.push(encode_create_partitions(&d.CreatePartitions));
    ch.push(RawNode::text_elem("DiskID", &d.DiskID));
    ch.push(encode_modify_partitions(&d.ModifyPartitions));
    ch.push(RawNode::text_elem("WillWipeDisk", &d.WillWipeDisk));
    let r = RawNode {
        tag: "Disk".to_owned(),
        attrs: Vec::new(),
        children: ch,
        text: String::new(),
    };
    proof {
        lemma_nodes_view(ch@);
        assert(r@.attrs =~= Seq::<(Seq<char>, Seq<char>)>::empty());
        assert(r@.children =~= spec_encode_disk(d@).children);
    }
    r
}

/// `DiskConfiguration`
pub open spec fn spec_encode_disk_configuration(d: DiskConfigurationV) -> SpecNode {
    SpecNode {
        tag: "DiskConfiguration"@,
        attrs: Seq::empty(),
        children: seq![spec_encode_disk(d.Disk)] + (opt_seq(
            opt_text_node(d.WillShowUI, "WillShowUI"@),
        ) + Seq::empty()),
        text: Seq::empty(),
    }
}

pub fn encode_disk_configuration(d: &DiskConfiguration) -> (r: RawNode)
    ensures
        r@ == spec_encode_disk_configuration(d@),
{
    let mut ch: Vec<RawNode> = Vec::new();
    ch.push(encode_disk(&d.Disk));
    push_opt_text(&mut ch, &d.WillShowUI, "WillShowUI");
    let r = RawNode {
        tag: "DiskConfiguration".to_owned(),
        attrs: Vec::new(),
        children: ch,
        text: String::new(),
    };
    proof {
        lemma_nodes_view(ch@);
        assert(r@.attrs =~= Seq::<(Seq<char>, Seq<char>)>::empty());
        assert(r@.children =~= spec_encode_disk_configuration(d@).children);
    }
    r
}

/// `OSImage`
pub open spec fn spec_encode_os_image(o: OSImageV) -> SpecNode {
    SpecNode {
        tag: "OSImage"@,
        attrs: Seq::empty(),
        children: opt_seq(enc_opt(o.InstallTo, |t: InstallToV| spec_encode_install_to(t))) + (
        opt_seq(opt_text_node(o.InstallToAvailablePartition, "InstallToAvailablePartition"@)) + (
        opt_seq(opt_text_node(o.WillShowUI, "WillShowUI"@)) + Seq::empty())),
        text: Seq::empty(),
    }
}

pub fn encode_os_image(o: &OSImage) -> (r: RawNode)
    ensures
        r@ == spec_encode_os_image(o@),
{
    let mut ch: Vec<RawNode> = Vec::new();
    let ghost s1 = opt_seq(enc_opt(o@.InstallTo, |t: InstallToV| spec_encode_install_to(t)));
    if let Some(t) = &o.InstallTo {
        ch.push(encode_install_to(t));
    }
    proof {
        assert(nodes_view(ch@) =~= s1);
    }
    push_opt_text(&mut ch, &o.InstallToAvailablePartition, "InstallToAvailablePartition");
    push_opt_text(&mut ch, &o.WillShowUI, "WillShowUI");
    let r = RawNode {
        tag: "OSImage".to_owned(),
        attrs: Vec::new(),
        children: ch,
        text: String::new(),
    };
    proof {
        assert(r@.attrs =~= Seq::<(Seq<char>, Seq<char>)>::empty());
        assert(r@.children =~= spec_encode_os_image(o@).children);
    }
    r
}

/// `ImageInstall`
pub open spec fn spec_encode_image_install(v: ImageInstallV) -> SpecNode {
    SpecNode {
        tag: "ImageInstall"@,
        attrs: Seq::empty(),
        children: seq![spec_encode_os_image(v.OSImage)] + Seq::empty(),
        text: Seq::empty(),
    }
}

pub fn encode_image_install(v: &ImageInstall) -> (r: RawNode)
    ensures
        r@ == spec_encode_image_install(v@),
{
    let mut ch: Vec<RawNode> = Vec::new();
    ch.push(encode_os_image(&v.OSImage));
    let r = RawNode {
        tag: "ImageInstall".to_owned(),
        attrs: Vec::new(),
        children: ch,
        text: String::new(),
    };
    proof {
        lemma_nodes_view(ch@);
        assert(r@.attrs =~= Seq::<(Seq<char>, Seq<char>)>::empty());
        assert(r@.children =~= spec_encode_image_install(v@).children);
    }
    r
}


/// `component`: the seven identity attributes, then the twelve optional
/// sub-blocks in the registry's canonical order.
pub open spec fn spec_encode_component(c: ComponentV) -> SpecNode {
    SpecNode {
        tag: "component"@,
        attrs: seq![("language"@, c.language)] + (seq![("name"@, c.name)] + (
        seq![("processorArchitecture"@, c.processorArchitecture)] + (
        seq![("publicKeyToken"@, c.publicKeyToken)] + (seq![("versionScope"@, c.versionScope)] + (
        seq![("xmlns:wcm"@, c.xmlns_wcm)] + (seq![("xmlns:xsi"@, c.xmlns_xsi)] + Seq::empty())))))),
        children: opt_seq(opt_text_node(c.ComputerName, "ComputerName"@)) + (opt_seq(
            enc_opt(
                c.DiskConfiguration,
                |d: DiskConfigurationV| spec_encode_disk_configuration(d),
            ),
        ) + (opt_seq(
            enc_opt(
                c.FirstLogonCommands,
                |v: FirstLogonCommandsV| spec_encode_first_logon_commands(v),
            ),
        ) + (opt_seq(enc_opt(c.ImageInstall, |v: ImageInstallV| spec_encode_image_install(v))) + (
        opt_seq(opt_text_node(c.InputLocale, "InputLocale"@)) + (opt_seq(
            enc_opt(c.SetupUILanguage, |v: SetupUILanguageV| spec_encode_setup_ui_language(v)),
        ) + (opt_seq(opt_text_node(c.SystemLocale, "SystemLocale"@)) + (opt_seq(
            opt_text_node(c.UILanguage, "UILanguage"@),
        ) + (opt_seq(opt_text_node(c.UILanguageFallback, "UILanguageFallback"@)) + (opt_seq(
            enc_opt(c.UserAccounts, |ua: Seq<LocalAccountsV>| spec_encode_user_accounts(ua)),
        ) + (opt_seq(enc_opt(c.UserData, |u: UserDataV| spec_encode_user_data(u))) + (opt_seq(
            opt_text_node(c.UserLocale, "UserLocale"@),
        ) + Seq::empty()))))))))))),
        text: Seq::empty(),
    }
}

#[verifier::rlimit(100)]
#[verifier::spinoff_prover]
fn component_children_head(ch: &mut Vec<RawNode>, c: &Component)
    ensures
        nodes_view(final(ch)@) == nodes_view(old(ch)@) + (opt_seq(
            opt_text_node(c@.ComputerName, "ComputerName"@),
        ) + (opt_seq(
            enc_opt(c@.DiskConfiguration, |d: DiskConfigurationV| spec_encode_disk_configuration(d)),
        ) + (opt_seq(
            enc_opt(
                c@.FirstLogonCommands,
                |v: FirstLogonCommandsV| spec_encode_first_logon_commands(v),
            ),
        ) + (opt_seq(enc_opt(c@.ImageInstall, |v: ImageInstallV| spec_encode_image_install(v))) + (
        opt_seq(opt_text_node(c@.InputLocale, "InputLocale"@)) + (opt_seq(
            enc_opt(c@.SetupUILanguage, |v: SetupUILanguageV| spec_encode_setup_ui_language(v)),
        ) + Seq::empty())))))),
{
    let ghost p0 = nodes_view(ch@);
    let ghost s1 = opt_seq(opt_text_node(c@.ComputerName, "ComputerName"@));
    let ghost s2 = opt_seq(
        enc_opt(c@.DiskConfiguration, |d: DiskConfigurationV| spec_encode_disk_configuration(d)),
    );
    let ghost s3 = opt_seq(
        enc_opt(
            c@.FirstLogonCommands,
            |v: FirstLogonCommandsV| spec_encode_first_logon_commands(v),
        ),
    );
    let ghost s4 = opt_seq(enc_opt(c@.ImageInstall, |v: ImageInstallV| spec_encode_image_install(v)));
    let ghost s5 = opt_seq(opt_text_node(c@.InputLocale, "InputLocale"@));
    let ghost s6 = opt_seq(
        enc_opt(c@.SetupUILanguage, |v: SetupUILanguageV| spec_encode_setup_ui_language(v)),
    );
    push_opt_text(ch, &c.ComputerName, "ComputerName");
    let ghost p2 = nodes_view(ch@);
    if let Some(d) = &c.DiskConfiguration {
        ch.push(encode_disk_configuration(d));
    }
    proof {
        assert(nodes_view(ch@) =~= p2 + s2);
    }
    let ghost p3 = nodes_view(ch@);
    if let Some(v) = &c.FirstLogonCommands {
        ch.push(encode_first_logon_commands(v));
    }
    proof {
        assert(nodes_view(ch@) =~= p3 + s3);
    }
    let ghost p4 = nodes_view(ch@);
    if let Some(v) = &c.ImageInstall {
        ch.push(encode_image_install(v));
    }
    proof {
        assert(nodes_view(ch@) =~= p4 + s4);
    }
    push_opt_text(ch, &c.InputLocale, "InputLocale");
    let ghost p6 = nodes_view(ch@);
    if let Some(v) = &c.SetupUILanguage {
        ch.push(encode_setup_ui_language(v));
    }
    proof {
        assert(nodes_view(ch@) =~= p6 + s6);
        assert(nodes_view(ch@) =~= p0 + (s1 + (s2 + (s3 + (s4 + (s5 + (s6 + Seq::empty())))))));
    }
}

#[verifier::rlimit(100)]
#[verifier::spinoff_prover]
fn component_children_tail(ch: &mut Vec<RawNode>, c: &Component)
    ensures
        nodes_view(final(ch)@) == nodes_view(old(ch)@) + (opt_seq(
            opt_text_node(c@.SystemLocale, "SystemLocale"@),
        ) + (opt_seq(opt_text_node(c@.UILanguage, "UILanguage"@)) + (opt_seq(
            opt_text_node(c@.UILanguageFallback, "UILanguageFallback"@),
        ) + (opt_seq(
            enc_opt(c@.UserAccounts, |ua: Seq<LocalAccountsV>| spec_encode_user_accounts(ua)),
        ) + (opt_seq(enc_opt(c@.UserData, |u: UserDataV| spec_encode_user_data(u))) + (opt_seq(
            opt_text_node(c@.UserLocale, "UserLocale"@),
        ) + Seq::empty())))))),
{
    let ghost p0 = nodes_view(ch@);
    let ghost s7 = opt_seq(opt_text_node(c@.SystemLocale, "SystemLocale"@));
    let ghost s8 = opt_seq(opt_text_node(c@.UILanguage, "UILanguage"@));
    let ghost s9 = opt_seq(opt_text_node(c@.UILanguageFallback, "UILanguageFallback"@));
    let ghost s10 = opt_seq(
        enc_opt(c@.UserAccounts, |ua: Seq<LocalAccountsV>| spec_encode_user_accounts(ua)),
    );
    let ghost s11 = opt_seq(enc_opt(c@.UserData, |u: UserDataV| spec_encode_user_data(u)));
    let ghost s12 = opt_seq(opt_text_node(c@.UserLocale, "UserLocale"@));
    push_opt_text(ch, &c.SystemLocale, "SystemLocale");
    push_opt_text(ch, &c.UILanguage, "UILanguage");
    push_opt_text(ch, &c.UILanguageFallback, "UILanguageFallback");
    let ghost p10 = nodes_view(ch@);
    if let Some(ua) = &c.UserAccounts {
        ch.push(encode_user_accounts(ua));
    }
    proof {
        assert(nodes_view(ch@) =~= p10 + s10);
    }
    let ghost p11 = nodes_view(ch@);
    if let Some(u) = &c.UserData {
        ch.push(encode_user_data(u));
    }
    proof {
        assert(nodes_view(ch@) =~= p11 + s11);
    }
    push_opt_text(ch, &c.UserLocale, "UserLocale");
    proof {
        assert(nodes_view(ch@) =~= p0 + (s7 + (s8 + (s9 + (s10 + (s11 + (s12 + Seq::empty())))))));
    }
}

#[verifier::rlimit(100)]
#[verifier::spinoff_prover]
pub fn encode_component(c: &Component) -> (r: RawNode)
    ensures
        r@ == spec_encode_component(c@),
{
    let mut at: Vec<(String, String)> = Vec::new();
    at.push(("language".to_owned(), c.language.clone()));
    at.push(("name".to_owned(), c.name.clone()));
    at.push(("processorArchitecture".to_owned(), c.processorArchitecture.clone()));
    at.push(("publicKeyToken".to_owned(), c.publicKeyToken.clone()));
    at.push(("versionScope".to_owned(), c.versionScope.clone()));
    at.push(("xmlns:wcm".to_owned(), c.xmlns_wcm.clone()));
    at.push(("xmlns:xsi".to_owned(), c.xmlns_xsi.clone()));
    let mut ch: Vec<RawNode> = Vec::new();
    proof {
        assert(nodes_view(ch@) =~= Seq::<SpecNode>::empty());
    }
    component_children_head(&mut ch, c);
    component_children_tail(&mut ch, c);
    let r = RawNode {
        tag: "component".to_owned(),
        attrs: at,
        children: ch,
        text: String::new(),
    };
    proof {
        assert(r@.attrs =~= spec_encode_component(c@).attrs);
        assert(r@.children =~= spec_encode_component(c@).children);
    }
    r
}

/// `settings`: the `pass` attribute, then the component sequence.
pub open spec fn spec_encode_settings(v: SettingsV) -> SpecNode {
    SpecNode {
        tag: "settings"@,
        attrs: seq![("pass"@, v.pass)] + Seq::empty(),
        children: Seq::new(v.component.len(), |i: int| spec_encode_component(v.component[i]))
            + Seq::empty(),
        text: Seq::empty(),
    }
}

pub fn encode_settings(v: &Settings) -> (r: RawNode)
    ensures
        r@ == spec_encode_settings(v@),
{
    let mut at: Vec<(String, String)> = Vec::new();
    at.push(("pass".to_owned(), v.pass.clone()));
    let mut ch: Vec<RawNode> = Vec::new();
    let mut i: usize = 0;
    proof {
        assert(nodes_view(ch@) =~= Seq::new(0, |j: int| spec_encode_component(v@.component[j])));
    }
    while i < v.component.len()
        invariant
            i <= v.component.len(),
            v@.component.len() == v.component.len(),
            nodes_view(ch@) == Seq::new(i as nat, |j: int| spec_encode_component(v@.component[j])),
        decreases v.component.len() - i,
    {
        ch.push(encode_component(&v.component[i]));
        proof {
            assert(nodes_view(ch@) =~= Seq::new(
                i as nat + 1,
                |j: int| spec_encode_component(v@.component[j]),
            ));
        }
        i = i + 1;
    }
    let r = RawNode {
        tag: "settings".to_owned(),
        attrs: at,
        children: ch,
        text: String::new(),
    };
    proof {
        assert(r@.attrs =~= spec_encode_settings(v@).attrs);
        assert(r@.children =~= spec_encode_settings(v@).children);
    }
    r
}

/// The document root: the `xmlns` attribute, then the settings sequence.
pub open spec fn spec_encode_document(d: UnattendXmlV) -> SpecNode {
    SpecNode {
        tag: "unattend"@,
        attrs: seq![("xmlns"@, d.xmlns)] + Seq::empty(),
        children: Seq::new(d.settings.len(), |i: int| spec_encode_settings(d.settings[i]))
            + Seq::empty(),
        text: Seq::empty(),
    }
}

pub fn encode_document(d: &UnattendXml) -> (r: RawNode)
    ensures
        r@ == spec_encode_document(d@),
{
    let mut at: Vec<(String, String)> = Vec::new();
    at.push(("xmlns".to_owned(), d.xmlns.clone()));
    let mut ch: Vec<RawNode> = Vec::new();
    let mut i: usize = 0;
    proof {
        assert(nodes_view(ch@) =~= Seq::new(0, |j: int| spec_encode_settings(d@.settings[j])));
    }
    while i < d.settings.len()
        invariant
            i <= d.settings.len(),
            d@.settings.len() == d.settings.len(),
            nodes_view(ch@) == Seq::new(i as nat, |j: int| spec_encode_settings(d@.settings[j])),
        decreases d.settings.len() - i,
    {
        ch.push(encode_settings(&d.settings[i]));
        proof {
            assert(nodes_view(ch@) =~= Seq::new(
                i as nat + 1,
                |j: int| spec_encode_settings(d@.settings[j]),
            ));
        }
        i = i + 1;
    }
    let r = RawNode {
        tag: "unattend".to_owned(),
        attrs: at,
        children: ch,
        text: String::new(),
    };
    proof {
        assert(r@.attrs =~= spec_encode_document(d@).attrs);
        assert(r@.children =~= spec_encode_document(d@).children);
    }
    r
}

} // verus!
