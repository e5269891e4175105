//! The decoder: turns a raw markup node into a typed tree, consulting the
//! schema registry's field kinds.
//!
//! A required field that is absent is a `MissingRequiredField` failure, and
//! the failure aborts the whole decode: no partial tree is ever returned.
//! Unknown child elements and unknown attributes are skipped, never
//! rejected.
#![allow(non_snake_case)]

use vstd::prelude::*;

use crate::model::{
    Component, ComponentV, CreatePartition, CreatePartitionV, CreatePartitions, CreatePartitionsV,
    Disk, DiskConfiguration, DiskConfigurationV, DiskV, FirstLogonCommands, FirstLogonCommandsV,
    ImageInstall, ImageInstallV, InstallTo, InstallToV, LocalAccount, LocalAccountV, LocalAccounts,
    LocalAccountsV, ModifyPartition, ModifyPartitionV, ModifyPartitions, ModifyPartitionsV,
    OSImage, OSImageV, Password, PasswordV, ProductKey, ProductKeyV, Settings, SettingsV,
    SetupUILanguage, SetupUILanguageV, SynchronousCommand, SynchronousCommandV, UnattendXml,
    UnattendXmlV, UserData, UserDataV,
};
use crate::raw::{
    all_with, attr_first, first_with, lemma_all_with_concat, lemma_all_with_push, node_view,
    nodes_view, RawNode, SpecNode,
};
use crate::strutil::str_eq;

verus! {

broadcast use vstd::std_specs::vec::group_vec_axioms, crate::raw::lemma_nodes_view;

/// Why a decode or parse call failed.
#[derive(Debug, Clone)]
pub enum DecodeError {
    /// A required attribute, element or text payload was absent; the string
    /// names the innermost field that was missing.
    MissingRequiredField(String),
    /// The markup itself is not well formed; the string says why.
    MalformedMarkup(String),
}

impl DecodeError {
    /// A short description of the failure: the carried string of either
    /// variant.
    pub fn message(&self) -> (r: &String)
        ensures
            match self {
                DecodeError::MissingRequiredField(s) => r@ == s@,
                DecodeError::MalformedMarkup(s) => r@ == s@,
            },
    {
        match self {
            DecodeError::MissingRequiredField(s) => s,
            DecodeError::MalformedMarkup(s) => s,
        }
    }
}

fn missing_field(path: &str) -> (e: DecodeError)
    ensures
        e is MissingRequiredField,
{
    DecodeError::MissingRequiredField(path.to_owned())
}

/// The character data of the first child with the given tag, if present.
pub open spec fn text_of_child(n: SpecNode, tag: Seq<char>) -> Option<Seq<char>> {
    match first_with(n.children, tag) {
        Some(c) => Some(c.text),
        None => None,
    }
}

/// Decodes every node of a sequence with `f`, failing when any single
/// node fails: the all-or-nothing policy for repeated fields.
pub open spec fn dec_list<T>(s: Seq<SpecNode>, f: spec_fn(SpecNode) -> Option<T>) -> Option<Seq<T>>
    decreases s.len(),
{
    if s.len() == 0 {
        Some(Seq::empty())
    } else {
        match f(s[0]) {
            None => None,
            Some(v) => match dec_list(s.drop_first(), f) {
                None => None,
                Some(r) => Some(seq![v] + r),
            },
        }
    }
}

pub proof fn lemma_dec_list_snoc<T>(s: Seq<SpecNode>, x: SpecNode, f: spec_fn(SpecNode) -> Option<T>)
    ensures
        dec_list(s.push(x), f) == (match dec_list(s, f) {
            Some(r) => match f(x) {
                Some(v) => Some(r.push(v)),
                None => None,
            },
            None => None::<Seq<T>>,
        }),
    decreases s.len(),
{
    if s.len() == 0 {
        reveal_with_fuel(dec_list, 2);
        assert(s.push(x)[0] == x);
        assert(s.push(x).drop_first() =~= Seq::<SpecNode>::empty());
        match f(x) {
            Some(v) => {
                assert(dec_list(s.push(x), f) == Some(seq![v] + Seq::<T>::empty()));
                assert(seq![v] + Seq::<T>::empty() =~= Seq::<T>::empty().push(v));
                assert(dec_list(s, f) == Some(Seq::<T>::empty()));
            },
            None => {},
        }
    } else {
        assert(s.push(x)[0] == s[0]);
        assert(s.push(x).drop_first() =~= s.drop_first().push(x));
        lemma_dec_list_snoc(s.drop_first(), x, f);
        match (f(s[0]), dec_list(s.drop_first(), f), f(x)) {
            (Some(v), Some(r), Some(w)) => {
                assert(seq![v] + r.push(w) =~= (seq![v] + r).push(w));
            },
            _ => {},
        }
    }
}

pub proof fn lemma_dec_list_none_concat<T>(
    s1: Seq<SpecNode>,
    s2: Seq<SpecNode>,
    f: spec_fn(SpecNode) -> Option<T>,
)
    requires
        dec_list(s1, f) is None,
    ensures
        dec_list(s1 + s2, f) is None,
    decreases s1.len(),
{
    assert(s1.len() > 0);
    assert((s1 + s2)[0] == s1[0]);
    assert((s1 + s2).drop_first() =~= s1.drop_first() + s2);
    if f(s1[0]) is Some {
        lemma_dec_list_none_concat(s1.drop_first(), s2, f);
    }
}

/// Decoding a sequence of nodes each produced by an encoder `g` that `f`
/// inverts recovers exactly the original values, in order.
pub proof fn lemma_dec_list_enc<T>(
    xs: Seq<T>,
    f: spec_fn(SpecNode) -> Option<T>,
    g: spec_fn(T) -> SpecNode,
)
    requires
        forall|x: T| #[trigger] f(g(x)) == Some(x),
    ensures
        dec_list(Seq::new(xs.len(), |i: int| g(xs[i])), f) == Some(xs),
    decreases xs.len(),
{
    let nodes = Seq::new(xs.len(), |i: int| g(xs[i]));
    if xs.len() == 0 {
        assert(nodes.len() == 0);
        assert(Seq::<T>::empty() =~= xs);
    } else {
        lemma_dec_list_enc(xs.drop_first(), f, g);
        assert(nodes[0] == g(xs[0]));
        assert(nodes.drop_first() =~= Seq::new(xs.drop_first().len(), |i: int| g(xs.drop_first()[i])));
        assert(seq![xs[0]] + xs.drop_first() =~= xs);
    }
}

/// `Password`: two required text elements.
pub open spec fn spec_decode_password(n: SpecNode) -> Option<PasswordV> {
    if text_of_child(n, "PlainText"@) is Some && text_of_child(n, "Value"@) is Some {
        Some(
            PasswordV {
                PlainText: text_of_child(n, "PlainText"@)->0,
                Value: text_of_child(n, "Value"@)->0,
            },
        )
    } else {
        None
    }
}

pub fn decode_password(n: &RawNode) -> (r: Result<Password, DecodeError>)
    ensures
        (r is Ok) == (spec_decode_password(n@) is Some),
        r matches Ok(v) ==> Some(v@) == spec_decode_password(n@),
        r matches Err(e) ==> e is MissingRequiredField,
{
    let PlainText = match n.first_child("PlainText") {
        Some(c) => c.text.clone(),
        None => {
            return Err(missing_field("Password/PlainText"));
        },
    };
    let Value = match n.first_child("Value") {
        Some(c) => c.text.clone(),
        None => {
            return Err(missing_field("Password/Value"));
        },
    };
    Ok(Password { PlainText, Value })
}

/// `InstallTo`: two required text elements.
pub open spec fn spec_decode_install_to(n: SpecNode) -> Option<InstallToV> {
    if text_of_child(n, "DiskID"@) is Some && text_of_child(n, "PartitionID"@) is Some {
        Some(
            InstallToV {
                DiskID: text_of_child(n, "DiskID"@)->0,
                PartitionID: text_of_child(n, "PartitionID"@)->0,
            },
        )
    } else {
        None
    }
}

pub fn decode_install_to(n: &RawNode) -> (r: Result<InstallTo, DecodeError>)
    ensures
        (r is Ok) == (spec_decode_install_to(n@) is Some),
        r matches Ok(v) ==> Some(v@) == spec_decode_install_to(n@),
        r matches Err(e) ==> e is MissingRequiredField,
{
    let DiskID = match n.first_child("DiskID") {
        Some(c) => c.text.clone(),
        None => {
            return Err(missing_field("InstallTo/DiskID"));
        },
    };
    let PartitionID = match n.first_child("PartitionID") {
        Some(c) => c.text.clone(),
        None => {
            return Err(missing_field("InstallTo/PartitionID"));
        },
    };
    Ok(InstallTo { DiskID, PartitionID })
}

/// `SetupUILanguage`: one required text element.
pub open spec fn spec_decode_setup_ui_language(n: SpecNode) -> Option<SetupUILanguageV> {
    if text_of_child(n, "UILanguage"@) is Some {
        Some(SetupUILanguageV { UILanguage: text_of_child(n, "UILanguage"@)->0 })
    } else {
        None
    }
}

pub fn decode_setup_ui_language(n: &RawNode) -> (r: Result<SetupUILanguage, DecodeError>)
    ensures
        (r is Ok) == (spec_decode_setup_ui_language(n@) is Some),
        r matches Ok(v) ==> Some(v@) == spec_decode_setup_ui_language(n@),
        r matches Err(e) ==> e is MissingRequiredField,
{
    let UILanguage = match n.first_child("UILanguage") {
        Some(c) => c.text.clone(),
        None => {
            return Err(missing_field("SetupUILanguage/UILanguage"));
        },
    };
    Ok(SetupUILanguage { UILanguage })
}

/// `ProductKey`: a required `Key` and an optional `WillShowUI`.
pub open spec fn spec_decode_product_key(n: SpecNode) -> Option<ProductKeyV> {
    if text_of_child(n, "Key"@) is Some {
        Some(
            ProductKeyV {
                Key: text_of_child(n, "Key"@)->0,
                WillShowUI: text_of_child(n, "WillShowUI"@),
            },
        )
    } else {
        None
    }
}

pub fn decode_product_key(n: &RawNode) -> (r: Result<ProductKey, DecodeError>)
    ensures
        (r is Ok) == (spec_decode_product_key(n@) is Some),
        r matches Ok(v) ==> Some(v@) == spec_decode_product_key(n@),
        r matches Err(e) ==> e is MissingRequiredField,
{
    let Key = match n.first_child("Key") {
        Some(c) => c.text.clone(),
        None => {
            return Err(missing_field("ProductKey/Key"));
        },
    };
    let WillShowUI = match n.first_child("WillShowUI") {
        Some(c) => Some(c.text.clone()),
        None => None,
    };
    Ok(ProductKey { Key, WillShowUI })
}

/// `UserData`: three required text elements and a required `ProductKey`.
pub open spec fn spec_decode_user_data(n: SpecNode) -> Option<UserDataV> {
    if text_of_child(n, "AcceptEula"@) is Some && text_of_child(n, "FullName"@) is Some
        && text_of_child(n, "Organization"@) is Some && (match first_with(
        n.children,
        "ProductKey"@,
    ) {
        Some(c) => spec_decode_product_key(c) is Some,
        None => false,
    }) {
        Some(
            UserDataV {
                AcceptEula: text_of_child(n, "AcceptEula"@)->0,
                FullName: text_of_child(n, "FullName"@)->0,
                Organization: text_of_child(n, "Organization"@)->0,
                ProductKey: spec_decode_product_key(first_with(n.children, "ProductKey"@)->0)->0,
            },
        )
    } else {
        None
    }
}

pub fn decode_user_data(n: &RawNode) -> (r: Result<UserData, DecodeError>)
    ensures
        (r is Ok) == (spec_decode_user_data(n@) is Some),
        r matches Ok(v) ==> Some(v@) == spec_decode_user_data(n@),
        r matches Err(e) ==> e is MissingRequiredField,
{
    let AcceptEula = match n.first_child("AcceptEula") {
        Some(c) => c.text.clone(),
        None => {
            return Err(missing_field("UserData/AcceptEula"));
        },
    };
    let FullName = match n.first_child("FullName") {
        Some(c) => c.text.clone(),
        None => {
            return Err(missing_field("UserData/FullName"));
        },
    };
    let Organization = match n.first_child("Organization") {
        Some(c) => c.text.clone(),
        None => {
            return Err(missing_field("UserData/Organization"));
        },
    };
    let ProductKey = match n.first_child("ProductKey") {
        Some(c) => match decode_product_key(c) {
            Ok(v) => v,
            Err(e) => {
                return Err(e);
            },
        },
        None => {
            return Err(missing_field("UserData/ProductKey"));
        },
    };
    Ok(UserData { AcceptEula, FullName, Organization, ProductKey })
}

/// `SynchronousCommand`: required `CommandLine` and `Order` text elements,
/// optional `Description` and `RequiresUserInput` text elements, and an
/// optional `wcm:action` marker attribute.
pub open spec fn spec_decode_synchronous_command(n: SpecNode) -> Option<SynchronousCommandV> {
    if text_of_child(n, "CommandLine"@) is Some && text_of_child(n, "Order"@) is Some {
        Some(
            SynchronousCommandV {
                CommandLine: text_of_child(n, "CommandLine"@)->0,
                Description: text_of_child(n, "Description"@),
                Order: text_of_child(n, "Order"@)->0,
                RequiresUserInput: text_of_child(n, "RequiresUserInput"@),
                action: attr_first(n.attrs, "wcm:action"@),
            },
        )
    } else {
        None
    }
}

pub fn decode_synchronous_command(n: &RawNode) -> (r: Result<SynchronousCommand, DecodeError>)
    ensures
        (r is Ok) == (spec_decode_synchronous_command(n@) is Some),
        r matches Ok(v) ==> Some(v@) == spec_decode_synchronous_command(n@),
        r matches Err(e) ==> e is MissingRequiredField,
{
    let CommandLine = match n.first_child("CommandLine") {
        Some(c) => c.text.clone(),
        None => {
            return Err(missing_field("SynchronousCommand/CommandLine"));
        },
    };
    let Description = match n.first_child("Description") {
        Some(c) => Some(c.text.clone()),
        None => None,
    };
    let Order = match n.first_child("Order") {
        Some(c) => c.text.clone(),
        None => {
            return Err(missing_field("SynchronousCommand/Order"));
        },
    };
    let RequiresUserInput = match n.first_child("RequiresUserInput") {
        Some(c) => Some(c.text.clone()),
        None => None,
    };
    let action = match n.get_attr("wcm:action") {
        Some(v) => Some(v.clone()),
        None => None,
    };
    Ok(SynchronousCommand { CommandLine, Description, Order, RequiresUserInput, action })
}

/// `FirstLogonCommands`: the bare ordered sequence of `SynchronousCommand`
/// children, collected in document order.
pub open spec fn spec_decode_first_logon_commands(n: SpecNode) -> Option<FirstLogonCommandsV> {
    match dec_list(
        all_with(n.children, "SynchronousCommand"@),
        |c: SpecNode| spec_decode_synchronous_command(c),
    ) {
        Some(l) => Some(FirstLogonCommandsV { SynchronousCommand: l }),
        None => None,
    }
}

pub fn decode_first_logon_commands(n: &RawNode) -> (r: Result<FirstLogonCommands, DecodeError>)
    ensures
        (r is Ok) == (spec_decode_first_logon_commands(n@) is Some),
        r matches Ok(v) ==> Some(v@) == spec_decode_first_logon_commands(n@),
        r matches Err(e) ==> e is MissingRequiredField,
{
    let ghost f = |c: SpecNode| spec_decode_synchronous_command(c);
    let ghost cs = n@.children;
    let ghost tg = "SynchronousCommand"@;
    let mut out: Vec<SynchronousCommand> = Vec::new();
    let mut i: usize = 0;
    proof {
        assert(cs == nodes_view(n.children@));
        assert(cs.take(0) =~= Seq::<SpecNode>::empty());
        assert(Seq::new(out@.len(), |j: int| out@[j]@) =~= Seq::<SynchronousCommandV>::empty());
    }
    while i < n.children.len()
        invariant
            i <= n.children.len(),
            cs == n@.children,
            cs == nodes_view(n.children@),
            cs.len() == n.children.len(),
            f == (|c: SpecNode| spec_decode_synchronous_command(c)),
            tg == "SynchronousCommand"@,
            dec_list(all_with(cs.take(i as int), tg), f) == Some(
                Seq::new(out@.len(), |j: int| out@[j]@),
            ),
        decreases n.children.len() - i,
    {
        let c = &n.children[i];
        proof {
            assert(c@ == cs[i as int]);
            assert(cs.take(i as int + 1) =~= cs.take(i as int).push(cs[i as int]));
            lemma_all_with_push(cs.take(i as int), cs[i as int], tg);
        }
        if str_eq(c.tag.as_str(), "SynchronousCommand") {
            let ghost before = Seq::new(out@.len(), |j: int| out@[j]@);
            proof {
                lemma_dec_list_snoc(all_with(cs.take(i as int), tg), cs[i as int], f);
            }
            match decode_synchronous_command(c) {
                Ok(v) => {
                    out.push(v);
                    proof {
                        assert(Seq::new(out@.len(), |j: int| out@[j]@) =~= before.push(v@));
                    }
                },
                Err(e) => {
                    proof {
                        assert(cs.take(i as int + 1) + cs.skip(i as int + 1) =~= cs);
                        lemma_all_with_concat(cs.take(i as int + 1), cs.skip(i as int + 1), tg);
                        lemma_dec_list_none_concat(
                            all_with(cs.take(i as int + 1), tg),
                            all_with(cs.skip(i as int + 1), tg),
                            f,
                        );
                    }
                    return Err(e);
                },
            }
        }
        i = i + 1;
    }
    proof {
        assert(cs.take(i as int) =~= cs);
    }
    Ok(FirstLogonCommands { SynchronousCommand: out })
}


/// `LocalAccount`: a required `Name` and `Password`, three optional text
/// elements, and a required `wcm:action` marker attribute.
pub open spec fn spec_decode_local_account(n: SpecNode) -> Option<LocalAccountV> {
    if text_of_child(n, "Name"@) is Some && (match first_with(n.children, "Password"@) {
        Some(c) => spec_decode_password(c) is Some,
        None => false,
    }) && attr_first(n.attrs, "wcm:action"@) is Some {
        Some(
            LocalAccountV {
                Description: text_of_child(n, "Description"@),
                DisplayName: text_of_child(n, "DisplayName"@),
                Group: text_of_child(n, "Group"@),
                Name: text_of_child(n, "Name"@)->0,
                Password: spec_decode_password(first_with(n.children, "Password"@)->0)->0,
                action: attr_first(n.attrs, "wcm:action"@)->0,
            },
        )
    } else {
        None
    }
}

pub fn decode_local_account(n: &RawNode) -> (r: Result<LocalAccount, DecodeError>)
    ensures
        (r is Ok) == (spec_decode_local_account(n@) is Some),
        r matches Ok(v) ==> Some(v@) == spec_decode_local_account(n@),
        r matches Err(e) ==> e is MissingRequiredField,
{
    let Description = match n.first_child("Description") {
        Some(c) => Some(c.text.clone()),
        None => None,
    };
    let DisplayName = match n.first_child("DisplayName") {
        Some(c) => Some(c.text.clone()),
        None => None,
    };
    let Group = match n.first_child("Group") {
        Some(c) => Some(c.text.clone()),
        None => None,
    };
    let Name = match n.first_child("Name") {
        Some(c) => c.text.clone(),
        None => {
            return Err(missing_field("LocalAccount/Name"));
        },
    };
    let Password = match n.first_child("Password") {
        Some(c) => match decode_password(c) {
            Ok(v) => v,
            Err(e) => {
                return Err(e);
            },
        },
        None => {
            return Err(missing_field("LocalAccount/Password"));
        },
    };
    let action = match n.get_attr("wcm:action") {
        Some(v) => v.clone(),
        None => {
            return Err(missing_field("LocalAccount/@wcm:action"));
        },
    };
    Ok(LocalAccount { Description, DisplayName, Group, Name, Password, action })
}

/// `LocalAccounts`: the bare ordered sequence of `LocalAccount` children,
/// collected in document order.
pub open spec fn spec_decode_local_accounts(n: SpecNode) -> Option<LocalAccountsV> {
    match dec_list(all_with(n.children, "LocalAccount"@), |c: SpecNode| spec_decode_local_account(c)) {
        Some(l) => Some(LocalAccountsV { LocalAccount: l }),
        None => None,
    }
}

pub fn decode_local_accounts(n: &RawNode) -> (r: Result<LocalAccounts, DecodeError>)
    ensures
        (r is Ok) == (spec_decode_local_accounts(n@) is Some),
        r matches Ok(v) ==> Some(v@) == spec_decode_local_accounts(n@),
        r matches Err(e) ==> e is MissingRequiredField,
{
    let ghost f = |c: SpecNode| spec_decode_local_account(c);
    let ghost cs = n@.children;
    let ghost tg = "LocalAccount"@;
    let mut out: Vec<LocalAccount> = Vec::new();
    let mut i: usize = 0;
    proof {
        assert(cs == nodes_view(n.children@));
        assert(cs.take(0) =~= Seq::<SpecNode>::empty());
        assert(Seq::new(out@.len(), |j: int| out@[j]@) =~= Seq::<LocalAccountV>::empty());
    }
    while i < n.children.len()
        invariant
            i <= n.children.len(),
            cs == n@.children,
            cs == nodes_view(n.children@),
            cs.len() == n.children.len(),
            f == (|c: SpecNode| spec_decode_local_account(c)),
            tg == "LocalAccount"@,
            dec_list(all_with(cs.take(i as int), tg), f) == Some(
                Seq::new(out@.len(), |j: int| out@[j]@),
            ),
        decreases n.children.len() - i,
    {
        let c = &n.children[i];
        proof {
            assert(c@ == cs[i as int]);
            assert(cs.take(i as int + 1) =~= cs.take(i as int).push(cs[i as int]));
            lemma_all_with_push(cs.take(i as int), cs[i as int], tg);
        }
        if str_eq(c.tag.as_str(), "LocalAccount") {
            let ghost before = Seq::new(out@.len(), |j: int| out@[j]@);
            proof {
                lemma_dec_list_snoc(all_with(cs.take(i as int), tg), cs[i as int], f);
            }
            match decode_local_account(c) {
                Ok(v) => {
                    out.push(v);
                    proof {
                        assert(Seq::new(out@.len(), |j: int| out@[j]@) =~= before.push(v@));
                    }
                },
                Err(e) => {
                    proof {
                        assert(cs.take(i as int + 1) + cs.skip(i as int + 1) =~= cs);
                        lemma_all_with_concat(cs.take(i as int + 1), cs.skip(i as int + 1), tg);
                        lemma_dec_list_none_concat(
                            all_with(cs.take(i as int + 1), tg),
                            all_with(cs.skip(i as int + 1), tg),
                            f,
                        );
                    }
                    return Err(e);
                },
            }
        }
        i = i + 1;
    }
    proof {
        assert(cs.take(i as int) =~= cs);
    }
    Ok(LocalAccounts { LocalAccount: out })
}

/// `CreatePartition`: required `Order` and `Type`, optional `Extend` and
/// `Size`, all text elements.
pub open spec fn spec_decode_create_partition(n: SpecNode) -> Option<CreatePartitionV> {
    if text_of_child(n, "Order"@) is Some && text_of_child(n, "Type"@) is Some {
        Some(
            CreatePartitionV {
                Extend: text_of_child(n, "Extend"@),
                Order: text_of_child(n, "Order"@)->0,
                Size: text_of_child(n, "Size"@),
                Type: text_of_child(n, "Type"@)->0,
            },
        )
    } else {
        None
    }
}

pub fn decode_create_partition(n: &RawNode) -> (r: Result<CreatePartition, DecodeError>)
    ensures
        (r is Ok) == (spec_decode_create_partition(n@) is Some),
        r matches Ok(v) ==> Some(v@) == spec_decode_create_partition(n@),
        r matches Err(e) ==> e is MissingRequiredField,
{
    let Extend = match n.first_child("Extend") {
        Some(c) => Some(c.text.clone()),
        None => None,
    };
    let Order = match n.first_child("Order") {
        Some(c) => c.text.clone(),
        None => {
            return Err(missing_field("CreatePartition/Order"));
        },
    };
    let Size = match n.first_child("Size") {
        Some(c) => Some(c.text.clone()),
        None => None,
    };
    let Type = match n.first_child("Type") {
        Some(c) => c.text.clone(),
        None => {
            return Err(missing_field("CreatePartition/Type"));
        },
    };
    Ok(CreatePartition { Extend, Order, Size, Type })
}

/// `CreatePartitions`: the bare ordered sequence of `CreatePartition` children,
/// collected in document order.
pub open spec fn spec_decode_create_partitions(n: SpecNode) -> Option<CreatePartitionsV> {
    match dec_list(all_with(n.children, "CreatePartition"@), |c: SpecNode| spec_decode_create_partition(c)) {
        Some(l) => Some(CreatePartitionsV { CreatePartition: l }),
        None => None,
    }
}

pub fn decode_create_partitions(n: &RawNode) -> (r: Result<CreatePartitions, DecodeError>)
    ensures
        (r is Ok) == (spec_decode_create_partitions(n@) is Some),
        r matches Ok(v) ==> Some(v@) == spec_decode_create_partitions(n@),
        r matches Err(e) ==> e is MissingRequiredField,
{
    let ghost f = |c: SpecNode| spec_decode_create_partition(c);
    let ghost cs = n@.children;
    let ghost tg = "CreatePartition"@;
    let mut out: Vec<CreatePartition> = Vec::new();
    let mut i: usize = 0;
    proof {
        assert(cs == nodes_view(n.children@));
        assert(cs.take(0) =~= Seq::<SpecNode>::empty());
        assert(Seq::new(out@.len(), |j: int| out@[j]@) =~= Seq::<CreatePartitionV>::empty());
    }
    while i < n.children.len()
        invariant
            i <= n.children.len(),
            cs == n@.children,
            cs == nodes_view(n.children@),
            cs.len() == n.children.len(),
            f == (|c: SpecNode| spec_decode_create_partition(c)),
            tg == "CreatePartition"@,
            dec_list(all_with(cs.take(i as int), tg), f) == Some(
                Seq::new(out@.len(), |j: int| out@[j]@),
            ),
        decreases n.children.len() - i,
    {
        let c = &n.children[i];
        proof {
            assert(c@ == cs[i as int]);
            assert(cs.take(i as int + 1) =~= cs.take(i as int).push(cs[i as int]));
            lemma_all_with_push(cs.take(i as int), cs[i as int], tg);
        }
        if str_eq(c.tag.as_str(), "CreatePartition") {
            let ghost before = Seq::new(out@.len(), |j: int| out@[j]@);
            proof {
                lemma_dec_list_snoc(all_with(cs.take(i as int), tg), cs[i as int], f);
            }
            match decode_create_partition(c) {
                Ok(v) => {
                    out.push(v);
                    proof {
                        assert(Seq::new(out@.len(), |j: int| out@[j]@) =~= before.push(v@));
                    }
                },
                Err(e) => {
                    proof {
                        assert(cs.take(i as int + 1) + cs.skip(i as int + 1) =~= cs);
                        lemma_all_with_concat(cs.take(i as int + 1), cs.skip(i as int + 1), tg);
                        lemma_dec_list_none_concat(
                            all_with(cs.take(i as int + 1), tg),
                            all_with(cs.skip(i as int + 1), tg),
                            f,
                        );
                    }
                    return Err(e);
                },
            }
        }
        i = i + 1;
    }
    proof {
        assert(cs.take(i as int) =~= cs);
    }
    Ok(CreatePartitions { CreatePartition: out })
}

/// `ModifyPartition`: required `Format`, `Label`, `Order` and
/// `PartitionID`, optional `Letter`, all text elements.
pub open spec fn spec_decode_modify_partition(n: SpecNode) -> Option<ModifyPartitionV> {
    if text_of_child(n, "Format"@) is Some && text_of_child(n, "Label"@) is Some && text_of_child(
        n,
        "Order"@,
    ) is Some && text_of_child(n, "PartitionID"@) is Some {
        Some(
            ModifyPartitionV {
                Format: text_of_child(n, "Format"@)->0,
                Label: text_of_child(n, "Label"@)->0,
                Letter: text_of_child(n, "Letter"@),
                Order: text_of_child(n, "Order"@)->0,
                PartitionID: text_of_child(n, "PartitionID"@)->0,
            },
        )
    } else {
        None
    }
}

pub fn decode_modify_partition(n: &RawNode) -> (r: Result<ModifyPartition, DecodeError>)
    ensures
        (r is Ok) == (spec_decode_modify_partition(n@) is Some),
        r matches Ok(v) ==> Some(v@) == spec_decode_modify_partition(n@),
        r matches Err(e) ==> e is MissingRequiredField,
{
    let Format = match n.first_child("Format") {
        Some(c) => c.text.clone(),
        None => {
            return Err(missing_field("ModifyPartition/Format"));
        },
    };
    let Label = match n.first_child("Label") {
        Some(c) => c.text.clone(),
        None => {
            return Err(missing_field("ModifyPartition/Label"));
        },
    };
    let Letter = match n.first_child("Letter") {
        Some(c) => Some(c.text.clone()),
        None => None,
    };
    let Order = match n.first_child("Order") {
        Some(c) => c.text.clone(),
        None => {
            return Err(missing_field("ModifyPartition/Order"));
        },
    };
    let PartitionID = match n.first_child("PartitionID") {
        Some(c) => c.text.clone(),
        None => {
            return Err(missing_field("ModifyPartition/PartitionID"));
        },
    };
    Ok(ModifyPartition { Format, Label, Letter, Order, PartitionID })
}

/// `ModifyPartitions`: the bare ordered sequence of `ModifyPartition` children,
/// collected in document order.
pub open spec fn spec_decode_modify_partitions(n: SpecNode) -> Option<ModifyPartitionsV> {
    match dec_list(all_with(n.children, "ModifyPartition"@), |c: SpecNode| spec_decode_modify_partition(c)) {
        Some(l) => Some(ModifyPartitionsV { ModifyPartition: l }),
        None => None,
    }
}

pub fn decode_modify_partitions(n: &RawNode) -> (r: Result<ModifyPartitions, DecodeError>)
    ensures
        (r is Ok) == (spec_decode_modify_partitions(n@) is Some),
        r matches Ok(v) ==> Some(v@) == spec_decode_modify_partitions(n@),
        r matches Err(e) ==> e is MissingRequiredField,
{
    let ghost f = |c: SpecNode| spec_decode_modify_partition(c);
    let ghost cs = n@.children;
    let ghost tg = "ModifyPartition"@;
    let mut out: Vec<ModifyPartition> = Vec::new();
    let mut i: usize = 0;
    proof {
        assert(cs == nodes_view(n.children@));
        assert(cs.take(0) =~= Seq::<SpecNode>::empty());
        assert(Seq::new(out@.len(), |j: int| out@[j]@) =~= Seq::<ModifyPartitionV>::empty());
    }
    while i < n.children.len()
        invariant
            i <= n.children.len(),
            cs == n@.children,
            cs == nodes_view(n.children@),
            cs.len() == n.children.len(),
            f == (|c: SpecNode| spec_decode_modify_partition(c)),
            tg == "ModifyPartition"@,
            dec_list(all_with(cs.take(i as int), tg), f) == Some(
                Seq::new(out@.len(), |j: int| out@[j]@),
            ),
        decreases n.children.len() - i,
    {
        let c = &n.children[i];
        proof {
            assert(c@ == cs[i as int]);
            assert(cs.take(i as int + 1) =~= cs.take(i as int).push(cs[i as int]));
            lemma_all_with_push(cs.take(i as int), cs[i as int], tg);
        }
        if str_eq(c.tag.as_str(), "ModifyPartition") {
            let ghost before = Seq::new(out@.len(), |j: int| out@[j]@);
            proof {
                lemma_dec_list_snoc(all_with(cs.take(i as int), tg), cs[i as int], f);
            }
            match decode_modify_partition(c) {
                Ok(v) => {
                    out.push(v);
                    proof {
                        assert(Seq::new(out@.len(), |j: int| out@[j]@) =~= before.push(v@));
                    }
                },
                Err(e) => {
                    proof {
                        assert(cs.take(i as int + 1) + cs.skip(i as int + 1) =~= cs);
                        lemma_all_with_concat(cs.take(i as int + 1), cs.skip(i as int + 1), tg);
                        lemma_dec_list_none_concat(
                            all_with(cs.take(i as int + 1), tg),
                            all_with(cs.skip(i as int + 1), tg),
                            f,
                        );
                    }
                    return Err(e);
                },
            }
        }
        i = i + 1;
    }
    proof {
        assert(cs.take(i as int) =~= cs);
    }
    Ok(ModifyPartitions { ModifyPartition: out })
}

/// `Disk`: required `CreatePartitions`, `DiskID`, `ModifyPartitions` and
/// `WillWipeDisk`.
pub open spec fn spec_decode_disk(n: SpecNode) -> Option<DiskV> {
    if (match first_with(n.children, "CreatePartitions"@) {
        Some(c) => spec_decode_create_partitions(c) is Some,
        None => false,
    }) && text_of_child(n, "DiskID"@) is Some && (match first_with(n.children, "ModifyPartitions"@) {
        Some(c) => spec_decode_modify_partitions(c) is Some,
        None => false,
    }) && text_of_child(n, "WillWipeDisk"@) is Some {
        Some(
            DiskV {
                CreatePartitions: spec_decode_create_partitions(
                    first_with(n.children, "CreatePartitions"@)->0,
                )->0,
                DiskID: text_of_child(n, "DiskID"@)->0,
                ModifyPartitions: spec_decode_modify_partitions(
                    first_with(n.children, "ModifyPartitions"@)->0,
                )->0,
                WillWipeDisk: text_of_child(n, "WillWipeDisk"@)->0,
            },
        )
    } else {
        None
    }
}

pub fn decode_disk(n: &RawNode) -> (r: Result<Disk, DecodeError>)
    ensures
        (r is Ok) == (spec_decode_disk(n@) is Some),
        r matches Ok(v) ==> Some(v@) == spec_decode_disk(n@),
        r matches Err(e) ==> e is MissingRequiredField,
{
    let CreatePartitions = match n.first_child("CreatePartitions") {
        Some(c) => match decode_create_partitions(c) {
            Ok(v) => v,
            Err(e) => {
                return Err(e);
            },
        },
        None => {
            return Err(missing_field("Disk/CreatePartitions"));
        },
    };
    let DiskID = match n.first_child("DiskID") {
        Some(c) => c.text.clone(),
        None => {
            return Err(missing_field("Disk/DiskID"));
        },
    };
    let ModifyPartitions = match n.first_child("ModifyPartitions") {
        Some(c) => match decode_modify_partitions(c) {
            Ok(v) => v,
            Err(e) => {
                return Err(e);
            },
        },
        None => {
            return Err(missing_field("Disk/ModifyPartitions"));
        },
    };
    let WillWipeDisk = match n.first_child("WillWipeDisk") {
        Some(c) => c.text.clone(),
        None => {
            return Err(missing_field("Disk/WillWipeDisk"));
        },
    };
    Ok(Disk { CreatePartitions, DiskID, ModifyPartitions, WillWipeDisk })
}

/// `DiskConfiguration`: a required `Disk` and an optional `WillShowUI`.
pub open spec fn spec_decode_disk_configuration(n: SpecNode) -> Option<DiskConfigurationV> {
    if (match first_with(n.children, "Disk"@) {
        Some(c) => spec_decode_disk(c) is Some,
        None => false,
    }) {
        Some(
            DiskConfigurationV {
                Disk: spec_decode_disk(first_with(n.children, "Disk"@)->0)->0,
                WillShowUI: text_of_child(n, "WillShowUI"@),
            },
        )
    } else {
        None
    }
}

pub fn decode_disk_configuration(n: &RawNode) -> (r: Result<DiskConfiguration, DecodeError>)
    ensures
        (r is Ok) == (spec_decode_disk_configuration(n@) is Some),
        r matches Ok(v) ==> Some(v@) == spec_decode_disk_configuration(n@),
        r matches Err(e) ==> e is MissingRequiredField,
{
    let Disk = match n.first_child("Disk") {
        Some(c) => match decode_disk(c) {
            Ok(v) => v,
            Err(e) => {
                return Err(e);
            },
        },
        None => {
            return Err(missing_field("DiskConfiguration/Disk"));
        },
    };
    let WillShowUI = match n.first_child("WillShowUI") {
        Some(c) => Some(c.text.clone()),
        None => None,
    };
    Ok(DiskConfiguration { Disk, WillShowUI })
}

/// `OSImage`: an optional `InstallTo` and two optional text elements.
pub open spec fn spec_decode_os_image(n: SpecNode) -> Option<OSImageV> {
    if (match first_with(n.children, "InstallTo"@) {
        Some(c) => spec_decode_install_to(c) is Some,
        None => true,
    }) {
        Some(
            OSImageV {
                InstallTo: match first_with(n.children, "InstallTo"@) {
                    Some(c) => Some(spec_decode_install_to(c)->0),
                    None => None,
                },
                InstallToAvailablePartition: text_of_child(n, "InstallToAvailablePartition"@),
                WillShowUI: text_of_child(n, "WillShowUI"@),
            },
        )
    } else {
        None
    }
}

pub fn decode_os_image(n: &RawNode) -> (r: Result<OSImage, DecodeError>)
    ensures
        (r is Ok) == (spec_decode_os_image(n@) is Some),
        r matches Ok(v) ==> Some(v@) == spec_decode_os_image(n@),
        r matches Err(e) ==> e is MissingRequiredField,
{
    let InstallTo = match n.first_child("InstallTo") {
        Some(c) => match decode_install_to(c) {
            Ok(v) => Some(v),
            Err(e) => {
                return Err(e);
            },
        },
        None => None,
    };
    let InstallToAvailablePartition = match n.first_child("InstallToAvailablePartition") {
        Some(c) => Some(c.text.clone()),
        None => None,
    };
    let WillShowUI = match n.first_child("WillShowUI") {
        Some(c) => Some(c.text.clone()),
        None => None,
    };
    Ok(OSImage { InstallTo, InstallToAvailablePartition, WillShowUI })
}

/// `ImageInstall`: a required `OSImage`.
pub open spec fn spec_decode_image_install(n: SpecNode) -> Option<ImageInstallV> {
    if (match first_with(n.children, "OSImage"@) {
        Some(c) => spec_decode_os_image(c) is Some,
        None => false,
    }) {
        Some(ImageInstallV { OSImage: spec_decode_os_image(first_with(n.children, "OSImage"@)->0)->0 })
    } else {
        None
    }
}

pub fn decode_image_install(n: &RawNode) -> (r: Result<ImageInstall, DecodeError>)
    ensures
        (r is Ok) == (spec_decode_image_install(n@) is Some),
        r matches Ok(v) ==> Some(v@) == spec_decode_image_install(n@),
        r matches Err(e) ==> e is MissingRequiredField,
{
    let OSImage = match n.first_child("OSImage") {
        Some(c) => match decode_os_image(c) {
            Ok(v) => v,
            Err(e) => {
                return Err(e);
            },
        },
        None => {
            return Err(missing_field("ImageInstall/OSImage"));
        },
    };
    Ok(ImageInstall { OSImage })
}


/// The content of a `UserAccounts` element: the bare ordered sequence of
/// `LocalAccounts` children, collected in document order.
pub open spec fn spec_decode_user_accounts(n: SpecNode) -> Option<Seq<LocalAccountsV>> {
    dec_list(all_with(n.children, "LocalAccounts"@), |c: SpecNode| spec_decode_local_accounts(c))
}

pub fn decode_user_accounts(n: &RawNode) -> (r: Result<Vec<LocalAccounts>, DecodeError>)
    ensures
        (r is Ok) == (spec_decode_user_accounts(n@) is Some),
        r matches Ok(v) ==> Some(Seq::new(v@.len(), |j: int| v@[j]@)) == spec_decode_user_accounts(
            n@,
        ),
        r matches Err(e) ==> e is MissingRequiredField,
{
    let ghost f = |c: SpecNode| spec_decode_local_accounts(c);
    let ghost cs = n@.children;
    let ghost tg = "LocalAccounts"@;
    let mut out: Vec<LocalAccounts> = Vec::new();
    let mut i: usize = 0;
    proof {
        assert(cs == nodes_view(n.children@));
        assert(cs.take(0) =~= Seq::<SpecNode>::empty());
        assert(Seq::new(out@.len(), |j: int| out@[j]@) =~= Seq::<LocalAccountsV>::empty());
    }
    while i < n.children.len()
        invariant
            i <= n.children.len(),
            cs == n@.children,
            cs == nodes_view(n.children@),
            cs.len() == n.children.len(),
            f == (|c: SpecNode| spec_decode_local_accounts(c)),
            tg == "LocalAccounts"@,
            dec_list(all_with(cs.take(i as int), tg), f) == Some(
                Seq::new(out@.len(), |j: int| out@[j]@),
            ),
        decreases n.children.len() - i,
    {
        let c = &n.children[i];
        proof {
            assert(c@ == cs[i as int]);
            assert(cs.take(i as int + 1) =~= cs.take(i as int).push(cs[i as int]));
            lemma_all_with_push(cs.take(i as int), cs[i as int], tg);
        }
        if str_eq(c.tag.as_str(), "LocalAccounts") {
            let ghost before = Seq::new(out@.len(), |j: int| out@[j]@);
            proof {
                lemma_dec_list_snoc(all_with(cs.take(i as int), tg), cs[i as int], f);
            }
            match decode_local_accounts(c) {
                Ok(v) => {
                    out.push(v);
                    proof {
                        assert(Seq::new(out@.len(), |j: int| out@[j]@) =~= before.push(v@));
                    }
                },
                Err(e) => {
                    proof {
                        assert(cs.take(i as int + 1) + cs.skip(i as int + 1) =~= cs);
                        lemma_all_with_concat(cs.take(i as int + 1), cs.skip(i as int + 1), tg);
                        lemma_dec_list_none_concat(
                            all_with(cs.take(i as int + 1), tg),
                            all_with(cs.skip(i as int + 1), tg),
                            f,
                        );
                    }
                    return Err(e);
                },
            }
        }
        i = i + 1;
    }
    proof {
        assert(cs.take(i as int) =~= cs);
    }
    Ok(out)
}

/// `Component`: seven required identity attributes and twelve optional
/// sub-blocks, each either a text element, a nested element, or (for
/// `UserAccounts`) a container of repeated elements.
pub open spec fn spec_decode_component(n: SpecNode) -> Option<ComponentV> {
    if attr_first(n.attrs, "language"@) is Some && attr_first(n.attrs, "name"@) is Some
        && attr_first(n.attrs, "processorArchitecture"@) is Some && attr_first(
        n.attrs,
        "publicKeyToken"@,
    ) is Some && attr_first(n.attrs, "versionScope"@) is Some && attr_first(
        n.attrs,
        "xmlns:wcm"@,
    ) is Some && attr_first(n.attrs, "xmlns:xsi"@) is Some && (match first_with(
        n.children,
        "DiskConfiguration"@,
    ) {
        Some(c) => spec_decode_disk_configuration(c) is Some,
        None => true,
    }) && (match first_with(n.children, "FirstLogonCommands"@) {
        Some(c) => spec_decode_first_logon_commands(c) is Some,
        None => true,
    }) && (match first_with(n.children, "ImageInstall"@) {
        Some(c) => spec_decode_image_install(c) is Some,
        None => true,
    }) && (match first_with(n.children, "SetupUILanguage"@) {
        Some(c) => spec_decode_setup_ui_language(c) is Some,
        None => true,
    }) && (match first_with(n.children, "UserAccounts"@) {
        Some(c) => spec_decode_user_accounts(c) is Some,
        None => true,
    }) && (match first_with(n.children, "UserData"@) {
        Some(c) => spec_decode_user_data(c) is Some,
        None => true,
    }) {
        Some(
            ComponentV {
                ComputerName: text_of_child(n, "ComputerName"@),
                DiskConfiguration: match first_with(n.children, "DiskConfiguration"@) {
                    Some(c) => Some(spec_decode_disk_configuration(c)->0),
                    None => None,
                },
                FirstLogonCommands: match first_with(n.children, "FirstLogonCommands"@) {
                    Some(c) => Some(spec_decode_first_logon_commands(c)->0),
                    None => None,
                },
                ImageInstall: match first_with(n.children, "ImageInstall"@) {
                    Some(c) => Some(spec_decode_image_install(c)->0),
                    None => None,
                },
                InputLocale: text_of_child(n, "InputLocale"@),
                SetupUILanguage: match first_with(n.children, "SetupUILanguage"@) {
                    Some(c) => Some(spec_decode_setup_ui_language(c)->0),
                    None => None,
                },
                SystemLocale: text_of_child(n, "SystemLocale"@),
                UILanguage: text_of_child(n, "UILanguage"@),
                UILanguageFallback: text_of_child(n, "UILanguageFallback"@),
                UserAccounts: match first_with(n.children, "UserAccounts"@) {
                    Some(c) => Some(spec_decode_user_accounts(c)->0),
                    None => None,
                },
                UserData: match first_with(n.children, "UserData"@) {
                    Some(c) => Some(spec_decode_user_data(c)->0),
                    None => None,
                },
                UserLocale: text_of_child(n, "UserLocale"@),
                language: attr_first(n.attrs, "language"@)->0,
                name: attr_first(n.attrs, "name"@)->0,
                processorArchitecture: attr_first(n.attrs, "processorArchitecture"@)->0,
                publicKeyToken: attr_first(n.attrs, "publicKeyToken"@)->0,
                versionScope: attr_first(n.attrs, "versionScope"@)->0,
                xmlns_wcm: attr_first(n.attrs, "xmlns:wcm"@)->0,
                xmlns_xsi: attr_first(n.attrs, "xmlns:xsi"@)->0,
            },
        )
    } else {
        None
    }
}

pub fn decode_component(n: &RawNode) -> (r: Result<Component, DecodeError>)
    ensures
        (r is Ok) == (spec_decode_component(n@) is Some),
        r matches Ok(v) ==> Some(v@) == spec_decode_component(n@),
        r matches Err(e) ==> e is MissingRequiredField,
{
    let ComputerName = match n.first_child("ComputerName") {
        Some(c) => Some(c.text.clone()),
        None => None,
    };
    let DiskConfiguration = match n.first_child("DiskConfiguration") {
        Some(c) => match decode_disk_configuration(c) {
            Ok(v) => Some(v),
            Err(e) => {
                return Err(e);
            },
        },
        None => None,
    };
    let FirstLogonCommands = match n.first_child("FirstLogonCommands") {
        Some(c) => match decode_first_logon_commands(c) {
            Ok(v) => Some(v),
            Err(e) => {
                return Err(e);
            },
        },
        None => None,
    };
    let ImageInstall = match n.first_child("ImageInstall") {
        Some(c) => match decode_image_install(c) {
            Ok(v) => Some(v),
            Err(e) => {
                return Err(e);
            },
        },
        None => None,
    };
    let InputLocale = match n.first_child("InputLocale") {
        Some(c) => Some(c.text.clone()),
        None => None,
    };
    let SetupUILanguage = match n.first_child("SetupUILanguage") {
        Some(c) => match decode_setup_ui_language(c) {
            Ok(v) => Some(v),
            Err(e) => {
                return Err(e);
            },
        },
        None => None,
    };
    let SystemLocale = match n.first_child("SystemLocale") {
        Some(c) => Some(c.text.clone()),
        None => None,
    };
    let UILanguage = match n.first_child("UILanguage") {
        Some(c) => Some(c.text.clone()),
        None => None,
    };
    let UILanguageFallback = match n.first_child("UILanguageFallback") {
        Some(c) => Some(c.text.clone()),
        None => None,
    };
    let UserAccounts = match n.first_child("UserAccounts") {
        Some(c) => match decode_user_accounts(c) {
            Ok(v) => Some(v),
            Err(e) => {
                return Err(e);
            },
        },
        None => None,
    };
    let UserData = match n.first_child("UserData") {
        Some(c) => match decode_user_data(c) {
            Ok(v) => Some(v),
            Err(e) => {
                return Err(e);
            },
        },
        None => None,
    };
    let UserLocale = match n.first_child("UserLocale") {
        Some(c) => Some(c.text.clone()),
        None => None,
    };
    let language = match n.get_attr("language") {
        Some(v) => v.clone(),
        None => {
            return Err(missing_field("component/@language"));
        },
    };
    let name = match n.get_attr("name") {
        Some(v) => v.clone(),
        None => {
            return Err(missing_field("component/@name"));
        },
    };
    let processorArchitecture = match n.get_attr("processorArchitecture") {
        Some(v) => v.clone(),
        None => {
            return Err(missing_field("component/@processorArchitecture"));
        },
    };
    let publicKeyToken = match n.get_attr("publicKeyToken") {
        Some(v) => v.clone(),
        None => {
            return Err(missing_field("component/@publicKeyToken"));
        },
    };
    let versionScope = match n.get_attr("versionScope") {
        Some(v) => v.clone(),
        None => {
            return Err(missing_field("component/@versionScope"));
        },
    };
    let xmlns_wcm = match n.get_attr("xmlns:wcm") {
        Some(v) => v.clone(),
        None => {
            return Err(missing_field("component/@xmlns:wcm"));
        },
    };
    let xmlns_xsi = match n.get_attr("xmlns:xsi") {
        Some(v) => v.clone(),
        None => {
            return Err(missing_field("component/@xmlns:xsi"));
        },
    };
    Ok(
        Component {
            ComputerName,
            DiskConfiguration,
            FirstLogonCommands,
            ImageInstall,
            InputLocale,
            SetupUILanguage,
            SystemLocale,
            UILanguage,
            UILanguageFallback,
            UserAccounts,
            UserData,
            UserLocale,
            language,
            name,
            processorArchitecture,
            publicKeyToken,
            versionScope,
            xmlns_wcm,
            xmlns_xsi,
        },
    )
}


/// `settings`: a required `pass` attribute and the ordered sequence of
/// `component` children.
pub open spec fn spec_decode_settings(n: SpecNode) -> Option<SettingsV> {
    if attr_first(n.attrs, "pass"@) is Some && dec_list(
        all_with(n.children, "component"@),
        |c: SpecNode| spec_decode_component(c),
    ) is Some {
        Some(
            SettingsV {
                component: dec_list(
                    all_with(n.children, "component"@),
                    |c: SpecNode| spec_decode_component(c),
                )->0,
                pass: attr_first(n.attrs, "pass"@)->0,
            },
        )
    } else {
        None
    }
}

pub fn decode_settings(n: &RawNode) -> (r: Result<Settings, DecodeError>)
    ensures
        (r is Ok) == (spec_decode_settings(n@) is Some),
        r matches Ok(v) ==> Some(v@) == spec_decode_settings(n@),
        r matches Err(e) ==> e is MissingRequiredField,
{
    let pass = match n.get_attr("pass") {
        Some(v) => v.clone(),
        None => {
            return Err(missing_field("settings/@pass"));
        },
    };
    let ghost f = |c: SpecNode| spec_decode_component(c);
    let ghost cs = n@.children;
    let ghost tg = "component"@;
    let mut out: Vec<Component> = Vec::new();
    let mut i: usize = 0;
    proof {
        assert(cs == nodes_view(n.children@));
        assert(cs.take(0) =~= Seq::<SpecNode>::empty());
        assert(Seq::new(out@.len(), |j: int| out@[j]@) =~= Seq::<ComponentV>::empty());
    }
    while i < n.children.len()
        invariant
            i <= n.children.len(),
            cs == n@.children,
            cs == nodes_view(n.children@),
            cs.len() == n.children.len(),
            f == (|c: SpecNode| spec_decode_component(c)),
            tg == "component"@,
            dec_list(all_with(cs.take(i as int), tg), f) == Some(
                Seq::new(out@.len(), |j: int| out@[j]@),
            ),
        decreases n.children.len() - i,
    {
        let c = &n.children[i];
        proof {
            assert(c@ == cs[i as int]);
            assert(cs.take(i as int + 1) =~= cs.take(i as int).push(cs[i as int]));
            lemma_all_with_push(cs.take(i as int), cs[i as int], tg);
        }
        if str_eq(c.tag.as_str(), "component") {
            let ghost before = Seq::new(out@.len(), |j: int| out@[j]@);
            proof {
                lemma_dec_list_snoc(all_with(cs.take(i as int), tg), cs[i as int], f);
            }
            match decode_component(c) {
                Ok(v) => {
                    out.push(v);
                    proof {
                        assert(Seq::new(out@.len(), |j: int| out@[j]@) =~= before.push(v@));
                    }
                },
                Err(e) => {
                    proof {
                        assert(cs.take(i as int + 1) + cs.skip(i as int + 1) =~= cs);
                        lemma_all_with_concat(cs.take(i as int + 1), cs.skip(i as int + 1), tg);
                        lemma_dec_list_none_concat(
                            all_with(cs.take(i as int + 1), tg),
                            all_with(cs.skip(i as int + 1), tg),
                            f,
                        );
                    }
                    return Err(e);
                },
            }
        }
        i = i + 1;
    }
    proof {
        assert(cs.take(i as int) =~= cs);
    }
    Ok(Settings { component: out, pass })
}

/// The document root: a required `xmlns` attribute and the ordered
/// sequence of `settings` children. The root's own tag is not examined.
pub open spec fn spec_decode_document(n: SpecNode) -> Option<UnattendXmlV> {
    if attr_first(n.attrs, "xmlns"@) is Some && dec_list(
        all_with(n.children, "settings"@),
        |c: SpecNode| spec_decode_settings(c),
    ) is Some {
        Some(
            UnattendXmlV {
                xmlns: attr_first(n.attrs, "xmlns"@)->0,
                settings: dec_list(
                    all_with(n.children, "settings"@),
                    |c: SpecNode| spec_decode_settings(c),
                )->0,
            },
        )
    } else {
        None
    }
}

pub fn decode_document(n: &RawNode) -> (r: Result<UnattendXml, DecodeError>)
    ensures
        (r is Ok) == (spec_decode_document(n@) is Some),
        r matches Ok(v) ==> Some(v@) == spec_decode_document(n@),
        r matches Err(e) ==> e is MissingRequiredField,
{
    let xmlns = match n.get_attr("xmlns") {
        Some(v) => v.clone(),
        None => {
            return Err(missing_field("unattend/@xmlns"));
        },
    };
    let ghost f = |c: SpecNode| spec_decode_settings(c);
    let ghost cs = n@.children;
    let ghost tg = "settings"@;
    let mut out: Vec<Settings> = Vec::new();
    let mut i: usize = 0;
    proof {
        assert(cs == nodes_view(n.children@));
        assert(cs.take(0) =~= Seq::<SpecNode>::empty());
        assert(Seq::new(out@.len(), |j: int| out@[j]@) =~= Seq::<SettingsV>::empty());
    }
    while i < n.children.len()
        invariant
            i <= n.children.len(),
            cs == n@.children,
            cs == nodes_view(n.children@),
            cs.len() == n.children.len(),
            f == (|c: SpecNode| spec_decode_settings(c)),
            tg == "settings"@,
            dec_list(all_with(cs.take(i as int), tg), f) == Some(
                Seq::new(out@.len(), |j: int| out@[j]@),
            ),
        decreases n.children.len() - i,
    {
        let c = &n.children[i];
        proof {
            assert(c@ == cs[i as int]);
            assert(cs.take(i as int + 1) =~= cs.take(i as int).push(cs[i as int]));
            lemma_all_with_push(cs.take(i as int), cs[i as int], tg);
        }
        if str_eq(c.tag.as_str(), "settings") {
            let ghost before = Seq::new(out@.len(), |j: int| out@[j]@);
            proof {
                lemma_dec_list_snoc(all_with(cs.take(i as int), tg), cs[i as int], f);
            }
            match decode_settings(c) {
                Ok(v) => {
                    out.push(v);
                    proof {
                        assert(Seq::new(out@.len(), |j: int| out@[j]@) =~= before.push(v@));
                    }
                },
                Err(e) => {
                    proof {
                        assert(cs.take(i as int + 1) + cs.skip(i as int + 1) =~= cs);
                        lemma_all_with_concat(cs.take(i as int + 1), cs.skip(i as int + 1), tg);
                        lemma_dec_list_none_concat(
                            all_with(cs.take(i as int + 1), tg),
                            all_with(cs.skip(i as int + 1), tg),
                            f,
                        );
                    }
                    return Err(e);
                },
            }
        }
        i = i + 1;
    }
    proof {
        assert(cs.take(i as int) =~= cs);
    }
    Ok(UnattendXml { xmlns, settings: out })
}

} // verus!
