//! The binding layer's laws: decoding inverts encoding, field for field, on
//! every value of the typed tree; an unset optional field is encoded as no
//! node at all; repeated fields keep their order in both directions.
#![allow(non_snake_case)]

use vstd::prelude::*;

use crate::decode::{
    dec_list, spec_decode_component, spec_decode_create_partition, spec_decode_create_partitions,
    spec_decode_disk, spec_decode_disk_configuration, spec_decode_document,
    spec_decode_first_logon_commands, spec_decode_image_install, spec_decode_install_to,
    spec_decode_local_account, spec_decode_local_accounts, spec_decode_modify_partition,
    spec_decode_modify_partitions, spec_decode_os_image, spec_decode_password,
    spec_decode_product_key, spec_decode_settings, spec_decode_setup_ui_language,
    spec_decode_synchronous_command, spec_decode_user_accounts, spec_decode_user_data,
    text_of_child,
};
use crate::encode::{
    enc_opt, opt_text_node, spec_encode_component, spec_encode_create_partition,
    spec_encode_create_partitions, spec_encode_disk, spec_encode_disk_configuration,
    spec_encode_document, spec_encode_first_logon_commands, spec_encode_image_install,
    spec_encode_install_to, spec_encode_local_account, spec_encode_local_accounts,
    spec_encode_modify_partition, spec_encode_modify_partitions, spec_encode_os_image,
    spec_encode_password, spec_encode_product_key, spec_encode_settings,
    spec_encode_setup_ui_language, spec_encode_synchronous_command, spec_encode_user_accounts,
    spec_encode_user_data,
};
use crate::model::{
    ComponentV, CreatePartitionV, CreatePartitionsV, DiskConfigurationV, DiskV,
    FirstLogonCommandsV, ImageInstallV, InstallToV, LocalAccountV, LocalAccountsV,
    ModifyPartitionV, ModifyPartitionsV, OSImageV, PasswordV, ProductKeyV, SettingsV,
    SetupUILanguageV, SynchronousCommandV, UnattendXmlV, UserDataV,
};
use crate::raw::{
    all_with, first_with, lemma_attr_opt_step, lemma_attr_step, lemma_opt_step, lemma_rep_step,
    lemma_req_step, opt_seq, RawNode, SpecNode,
};

verus! {

broadcast use vstd::string::group_string_axioms;

/// Decoding inverts encoding for `Password`.
pub proof fn lemma_round_trip_password(p: PasswordV)
    ensures
        spec_decode_password(spec_encode_password(p)) == Some(p),
{
    reveal_strlit("PlainText");
    reveal_strlit("Value");
    let n = spec_encode_password(p);
    let t2 = RawNode::spec_text_elem("Value"@, p.Value);
    let t1 = RawNode::spec_text_elem("PlainText"@, p.PlainText);
    lemma_req_step(t2, "Value"@, Seq::empty());
    lemma_req_step(t1, "PlainText"@, seq![t2] + Seq::empty());
    assert("PlainText"@.len() == 9 && "Value"@.len() == 5);
    assert(spec_decode_password(n)->0 =~= p);
}

/// Decoding inverts encoding for `InstallTo`.
pub proof fn lemma_round_trip_install_to(t: InstallToV)
    ensures
        spec_decode_install_to(spec_encode_install_to(t)) == Some(t),
{
    reveal_strlit("DiskID");
    reveal_strlit("PartitionID");
    let n = spec_encode_install_to(t);
    let t2 = RawNode::spec_text_elem("PartitionID"@, t.PartitionID);
    lemma_req_step(t2, "PartitionID"@, Seq::empty());
    lemma_req_step(RawNode::spec_text_elem("DiskID"@, t.DiskID), "DiskID"@, seq![t2] + Seq::empty());
    assert("DiskID"@.len() == 6 && "PartitionID"@.len() == 11);
    assert(spec_decode_install_to(n)->0 =~= t);
}

/// Decoding inverts encoding for `SetupUILanguage`.
pub proof fn lemma_round_trip_setup_ui_language(s: SetupUILanguageV)
    ensures
        spec_decode_setup_ui_language(spec_encode_setup_ui_language(s)) == Some(s),
{
    reveal_strlit("UILanguage");
    let n = spec_encode_setup_ui_language(s);
    lemma_req_step(RawNode::spec_text_elem("UILanguage"@, s.UILanguage), "UILanguage"@, Seq::empty());
    assert(spec_decode_setup_ui_language(n)->0 =~= s);
}

/// Decoding inverts encoding for `ProductKey`; in particular an unset
/// `WillShowUI` comes back unset, never as an empty placeholder.
pub proof fn lemma_round_trip_product_key(p: ProductKeyV)
    ensures
        spec_decode_product_key(spec_encode_product_key(p)) == Some(p),
{
    reveal_strlit("Key");
    reveal_strlit("WillShowUI");
    let n = spec_encode_product_key(p);
    let s2 = opt_text_node(p.WillShowUI, "WillShowUI"@);
    lemma_opt_step(s2, "WillShowUI"@, Seq::empty());
    lemma_req_step(RawNode::spec_text_elem("Key"@, p.Key), "Key"@, opt_seq(s2) + Seq::empty());
    assert("Key"@.len() == 3 && "WillShowUI"@.len() == 10);
    assert(spec_decode_product_key(n)->0 =~= p);
}

/// Decoding inverts encoding for `UserData`.
pub proof fn lemma_round_trip_user_data(u: UserDataV)
    ensures
        spec_decode_user_data(spec_encode_user_data(u)) == Some(u),
{
    reveal_strlit("AcceptEula");
    reveal_strlit("FullName");
    reveal_strlit("Organization");
    reveal_strlit("ProductKey");
    let n = spec_encode_user_data(u);
    let pk = spec_encode_product_key(u.ProductKey);
    let r4 = seq![pk] + Seq::<SpecNode>::empty();
    let t3 = RawNode::spec_text_elem("Organization"@, u.Organization);
    let r3 = seq![t3] + r4;
    let t2 = RawNode::spec_text_elem("FullName"@, u.FullName);
    let r2 = seq![t2] + r3;
    lemma_req_step(pk, "ProductKey"@, Seq::empty());
    lemma_req_step(t3, "Organization"@, r4);
    lemma_req_step(t2, "FullName"@, r3);
    lemma_req_step(RawNode::spec_text_elem("AcceptEula"@, u.AcceptEula), "AcceptEula"@, r2);
    lemma_round_trip_product_key(u.ProductKey);
    assert("AcceptEula"@.len() == 10 && "FullName"@.len() == 8 && "Organization"@.len() == 12
        && "ProductKey"@.len() == 10);
    assert("AcceptEula"@[0] == 'A' && "ProductKey"@[0] == 'P');
    assert(spec_decode_user_data(n)->0 =~= u);
}

/// Decoding inverts encoding for `SynchronousCommand`.
pub proof fn lemma_round_trip_synchronous_command(a: SynchronousCommandV)
    ensures
        spec_decode_synchronous_command(spec_encode_synchronous_command(a)) == Some(a),
{
    reveal_strlit("CommandLine");
    reveal_strlit("Description");
    reveal_strlit("Order");
    reveal_strlit("RequiresUserInput");
    reveal_strlit("wcm:action");
    let n = spec_encode_synchronous_command(a);
    let s4 = opt_text_node(a.RequiresUserInput, "RequiresUserInput"@);
    let r4 = opt_seq(s4) + Seq::<SpecNode>::empty();
    let t3 = RawNode::spec_text_elem("Order"@, a.Order);
    let r3 = seq![t3] + r4;
    let s2 = opt_text_node(a.Description, "Description"@);
    let r2 = opt_seq(s2) + r3;
    lemma_opt_step(s4, "RequiresUserInput"@, Seq::empty());
    lemma_req_step(t3, "Order"@, r4);
    lemma_opt_step(s2, "Description"@, r3);
    lemma_req_step(RawNode::spec_text_elem("CommandLine"@, a.CommandLine), "CommandLine"@, r2);
    lemma_attr_opt_step(a.action, "wcm:action"@, Seq::empty());
    assert("CommandLine"@.len() == 11 && "Description"@.len() == 11 && "Order"@.len() == 5
        && "RequiresUserInput"@.len() == 17);
    assert("CommandLine"@[0] == 'C' && "Description"@[0] == 'D');
    assert(spec_decode_synchronous_command(n)->0 =~= a);
}

/// Decoding inverts encoding for `CreatePartition`.
pub proof fn lemma_round_trip_create_partition(p: CreatePartitionV)
    ensures
        spec_decode_create_partition(spec_encode_create_partition(p)) == Some(p),
{
    reveal_strlit("Extend");
    reveal_strlit("Order");
    reveal_strlit("Size");
    reveal_strlit("Type");
    let n = spec_encode_create_partition(p);
    let t4 = RawNode::spec_text_elem("Type"@, p.Type);
    let r4 = seq![t4] + Seq::<SpecNode>::empty();
    let s3 = opt_text_node(p.Size, "Size"@);
    let r3 = opt_seq(s3) + r4;
    let t2 = RawNode::spec_text_elem("Order"@, p.Order);
    let r2 = seq![t2] + r3;
    lemma_req_step(t4, "Type"@, Seq::empty());
    lemma_opt_step(s3, "Size"@, r4);
    lemma_req_step(t2, "Order"@, r3);
    lemma_opt_step(opt_text_node(p.Extend, "Extend"@), "Extend"@, r2);
    assert("Extend"@.len() == 6 && "Order"@.len() == 5 && "Size"@.len() == 4 && "Type"@.len()
        == 4);
    assert("Size"@[0] == 'S' && "Type"@[0] == 'T');
    assert(spec_decode_create_partition(n)->0 =~= p);
}

/// Decoding inverts encoding for `ModifyPartition`.
pub proof fn lemma_round_trip_modify_partition(p: ModifyPartitionV)
    ensures
        spec_decode_modify_partition(spec_encode_modify_partition(p)) == Some(p),
{
    reveal_strlit("Format");
    reveal_strlit("Label");
    reveal_strlit("Letter");
    reveal_strlit("Order");
    reveal_strlit("PartitionID");
    let n = spec_encode_modify_partition(p);
    let t5 = RawNode::spec_text_elem("PartitionID"@, p.PartitionID);
    let r5 = seq![t5] + Seq::<SpecNode>::empty();
    let t4 = RawNode::spec_text_elem("Order"@, p.Order);
    let r4 = seq![t4] + r5;
    let s3 = opt_text_node(p.Letter, "Letter"@);
    let r3 = opt_seq(s3) + r4;
    let t2 = RawNode::spec_text_elem("Label"@, p.Label);
    let r2 = seq![t2] + r3;
    lemma_req_step(t5, "PartitionID"@, Seq::empty());
    lemma_req_step(t4, "Order"@, r5);
    lemma_opt_step(s3, "Letter"@, r4);
    lemma_req_step(t2, "Label"@, r3);
    lemma_req_step(RawNode::spec_text_elem("Format"@, p.Format), "Format"@, r2);
    assert("Format"@.len() == 6 && "Label"@.len() == 5 && "Letter"@.len() == 6 && "Order"@.len()
        == 5 && "PartitionID"@.len() == 11);
    assert("Format"@[0] == 'F' && "Letter"@[0] == 'L' && "Label"@[0] == 'L' && "Order"@[0] == 'O');
    assert(spec_decode_modify_partition(n)->0 =~= p);
}

/// Decoding inverts encoding for `LocalAccount`.
pub proof fn lemma_round_trip_local_account(a: LocalAccountV)
    ensures
        spec_decode_local_account(spec_encode_local_account(a)) == Some(a),
{
    reveal_strlit("Description");
    reveal_strlit("DisplayName");
    reveal_strlit("Group");
    reveal_strlit("Name");
    reveal_strlit("Password");
    reveal_strlit("wcm:action");
    let n = spec_encode_local_account(a);
    let pw = spec_encode_password(a.Password);
    let r5 = seq![pw] + Seq::<SpecNode>::empty();
    let t4 = RawNode::spec_text_elem("Name"@, a.Name);
    let r4 = seq![t4] + r5;
    let s3 = opt_text_node(a.Group, "Group"@);
    let r3 = opt_seq(s3) + r4;
    let s2 = opt_text_node(a.DisplayName, "DisplayName"@);
    let r2 = opt_seq(s2) + r3;
    lemma_req_step(pw, "Password"@, Seq::empty());
    lemma_req_step(t4, "Name"@, r5);
    lemma_opt_step(s3, "Group"@, r4);
    lemma_opt_step(s2, "DisplayName"@, r3);
    lemma_opt_step(opt_text_node(a.Description, "Description"@), "Description"@, r2);
    lemma_attr_step("wcm:action"@, a.action, Seq::empty());
    lemma_round_trip_password(a.Password);
    assert("Description"@.len() == 11 && "DisplayName"@.len() == 11 && "Group"@.len() == 5
        && "Name"@.len() == 4 && "Password"@.len() == 8);
    assert("Description"@[1] == 'e' && "DisplayName"@[1] == 'i');
    assert(spec_decode_local_account(n)->0 =~= a);
}


/// Decoding inverts encoding for `FirstLogonCommands`; the entries come back in
/// their original order.
pub proof fn lemma_round_trip_first_logon_commands(v: FirstLogonCommandsV)
    ensures
        spec_decode_first_logon_commands(spec_encode_first_logon_commands(v)) == Some(v),
{
    reveal_strlit("SynchronousCommand");
    let n = spec_encode_first_logon_commands(v);
    let f = |c: SpecNode| spec_decode_synchronous_command(c);
    let g = |x: SynchronousCommandV| spec_encode_synchronous_command(x);
    let nodes = Seq::new(v.SynchronousCommand.len(), |i: int| spec_encode_synchronous_command(v.SynchronousCommand[i]));
    assert forall|i: int| 0 <= i < nodes.len() implies (#[trigger] nodes[i]).tag
        == "SynchronousCommand"@ by {}
    lemma_rep_step(nodes, "SynchronousCommand"@, Seq::empty());
    assert(all_with(n.children, "SynchronousCommand"@) =~= nodes);
    assert forall|x: SynchronousCommandV| #[trigger] f(g(x)) == Some(x) by {
        lemma_round_trip_synchronous_command(x);
    }
    crate::decode::lemma_dec_list_enc(v.SynchronousCommand, f, g);
    assert(Seq::new(v.SynchronousCommand.len(), |i: int| g(v.SynchronousCommand[i])) =~= nodes);
    assert(spec_decode_first_logon_commands(n)->0 =~= v);
}

/// Decoding inverts encoding for `LocalAccounts`; the entries come back in
/// their original order.
pub proof fn lemma_round_trip_local_accounts(v: LocalAccountsV)
    ensures
        spec_decode_local_accounts(spec_encode_local_accounts(v)) == Some(v),
{
    reveal_strlit("LocalAccount");
    let n = spec_encode_local_accounts(v);
    let f = |c: SpecNode| spec_decode_local_account(c);
    let g = |x: LocalAccountV| spec_encode_local_account(x);
    let nodes = Seq::new(v.LocalAccount.len(), |i: int| spec_encode_local_account(v.LocalAccount[i]));
    assert forall|i: int| 0 <= i < nodes.len() implies (#[trigger] nodes[i]).tag
        == "LocalAccount"@ by {}
    lemma_rep_step(nodes, "LocalAccount"@, Seq::empty());
    assert(all_with(n.children, "LocalAccount"@) =~= nodes);
    assert forall|x: LocalAccountV| #[trigger] f(g(x)) == Some(x) by {
        lemma_round_trip_local_account(x);
    }
    crate::decode::lemma_dec_list_enc(v.LocalAccount, f, g);
    assert(Seq::new(v.LocalAccount.len(), |i: int| g(v.LocalAccount[i])) =~= nodes);
    assert(spec_decode_local_accounts(n)->0 =~= v);
}

/// Decoding inverts encoding for `CreatePartitions`; the entries come back in
/// their original order.
pub proof fn lemma_round_trip_create_partitions(v: CreatePartitionsV)
    ensures
        spec_decode_create_partitions(spec_encode_create_partitions(v)) == Some(v),
{
    reveal_strlit("CreatePartition");
    let n = spec_encode_create_partitions(v);
    let f = |c: SpecNode| spec_decode_create_partition(c);
    let g = |x: CreatePartitionV| spec_encode_create_partition(x);
    let nodes = Seq::new(v.CreatePartition.len(), |i: int| spec_encode_create_partition(v.CreatePartition[i]));
    assert forall|i: int| 0 <= i < nodes.len() implies (#[trigger] nodes[i]).tag
        == "CreatePartition"@ by {}
    lemma_rep_step(nodes, "CreatePartition"@, Seq::empty());
    assert(all_with(n.children, "CreatePartition"@) =~= nodes);
    assert forall|x: CreatePartitionV| #[trigger] f(g(x)) == Some(x) by {
        lemma_round_trip_create_partition(x);
    }
    crate::decode::lemma_dec_list_enc(v.CreatePartition, f, g);
    assert(Seq::new(v.CreatePartition.len(), |i: int| g(v.CreatePartition[i])) =~= nodes);
    assert(spec_decode_create_partitions(n)->0 =~= v);
}

/// Decoding inverts encoding for `ModifyPartitions`; the entries come back in
/// their original order.
pub proof fn lemma_round_trip_modify_partitions(v: ModifyPartitionsV)
    ensures
        spec_decode_modify_partitions(spec_encode_modify_partitions(v)) == Some(v),
{
    reveal_strlit("ModifyPartition");
    let n = spec_encode_modify_partitions(v);
    let f = |c: SpecNode| spec_decode_modify_partition(c);
    let g = |x: ModifyPartitionV| spec_encode_modify_partition(x);
    let nodes = Seq::new(v.ModifyPartition.len(), |i: int| spec_encode_modify_partition(v.ModifyPartition[i]));
    assert forall|i: int| 0 <= i < nodes.len() implies (#[trigger] nodes[i]).tag
        == "ModifyPartition"@ by {}
    lemma_rep_step(nodes, "ModifyPartition"@, Seq::empty());
    assert(all_with(n.children, "ModifyPartition"@) =~= nodes);
    assert forall|x: ModifyPartitionV| #[trigger] f(g(x)) == Some(x) by {
        lemma_round_trip_modify_partition(x);
    }
    crate::decode::lemma_dec_list_enc(v.ModifyPartition, f, g);
    assert(Seq::new(v.ModifyPartition.len(), |i: int| g(v.ModifyPartition[i])) =~= nodes);
    assert(spec_decode_modify_partitions(n)->0 =~= v);
}

/// Decoding inverts encoding for the `UserAccounts` container.
pub proof fn lemma_round_trip_user_accounts(ua: Seq<LocalAccountsV>)
    ensures
        spec_decode_user_accounts(spec_encode_user_accounts(ua)) == Some(ua),
{
    reveal_strlit("LocalAccounts");
    let n = spec_encode_user_accounts(ua);
    let f = |c: SpecNode| spec_decode_local_accounts(c);
    let g = |x: LocalAccountsV| spec_encode_local_accounts(x);
    let nodes = Seq::new(ua.len(), |i: int| spec_encode_local_accounts(ua[i]));
    assert forall|i: int| 0 <= i < nodes.len() implies (#[trigger] nodes[i]).tag
        == "LocalAccounts"@ by {}
    lemma_rep_step(nodes, "LocalAccounts"@, Seq::empty());
    assert(all_with(n.children, "LocalAccounts"@) =~= nodes);
    assert forall|x: LocalAccountsV| #[trigger] f(g(x)) == Some(x) by {
        lemma_round_trip_local_accounts(x);
    }
    crate::decode::lemma_dec_list_enc(ua, f, g);
    assert(Seq::new(ua.len(), |i: int| g(ua[i])) =~= nodes);
    assert(spec_decode_user_accounts(n)->0 =~= ua);
}

/// Decoding inverts encoding for `Disk`.
pub proof fn lemma_round_trip_disk(d: DiskV)
    ensures
        spec_decode_disk(spec_encode_disk(d)) == Some(d),
{
    reveal_strlit("CreatePartitions");
    reveal_strlit("DiskID");
    reveal_strlit("ModifyPartitions");
    reveal_strlit("WillWipeDisk");
    let n = spec_encode_disk(d);
    let t4 = RawNode::spec_text_elem("WillWipeDisk"@, d.WillWipeDisk);
    let r4 = seq![t4] + Seq::<SpecNode>::empty();
    let mp = spec_encode_modify_partitions(d.ModifyPartitions);
    let r3 = seq![mp] + r4;
    let t2 = RawNode::spec_text_elem("DiskID"@, d.DiskID);
    let r2 = seq![t2] + r3;
    lemma_req_step(t4, "WillWipeDisk"@, Seq::empty());
    lemma_req_step(mp, "ModifyPartitions"@, r4);
    lemma_req_step(t2, "DiskID"@, r3);
    lemma_req_step(spec_encode_create_partitions(d.CreatePartitions), "CreatePartitions"@, r2);
    lemma_round_trip_create_partitions(d.CreatePartitions);
    lemma_round_trip_modify_partitions(d.ModifyPartitions);
    assert("CreatePartitions"@.len() == 16 && "DiskID"@.len() == 6 && "ModifyPartitions"@.len()
        == 16 && "WillWipeDisk"@.len() == 12);
    assert("CreatePartitions"@[0] == 'C' && "ModifyPartitions"@[0] == 'M');
    assert(spec_decode_disk(n)->0 =~= d);
}

/// Decoding inverts encoding for `DiskConfiguration`.
pub proof fn lemma_round_trip_disk_configuration(d: DiskConfigurationV)
    ensures
        spec_decode_disk_configuration(spec_encode_disk_configuration(d)) == Some(d),
{
    reveal_strlit("Disk");
    reveal_strlit("WillShowUI");
    let n = spec_encode_disk_configuration(d);
    let s2 = opt_text_node(d.WillShowUI, "WillShowUI"@);
    lemma_opt_step(s2, "WillShowUI"@, Seq::empty());
    lemma_req_step(spec_encode_disk(d.Disk), "Disk"@, opt_seq(s2) + Seq::empty());
    lemma_round_trip_disk(d.Disk);
    assert("Disk"@.len() == 4 && "WillShowUI"@.len() == 10);
    assert(spec_decode_disk_configuration(n)->0 =~= d);
}

/// Decoding inverts encoding for `OSImage`.
pub proof fn lemma_round_trip_os_image(o: OSImageV)
    ensures
        spec_decode_os_image(spec_encode_os_image(o)) == Some(o),
{
    reveal_strlit("InstallTo");
    reveal_strlit("InstallToAvailablePartition");
    reveal_strlit("WillShowUI");
    let n = spec_encode_os_image(o);
    let s3 = opt_text_node(o.WillShowUI, "WillShowUI"@);
    let r3 = opt_seq(s3) + Seq::<SpecNode>::empty();
    let s2 = opt_text_node(o.InstallToAvailablePartition, "InstallToAvailablePartition"@);
    let r2 = opt_seq(s2) + r3;
    let s1 = enc_opt(o.InstallTo, |t: InstallToV| spec_encode_install_to(t));
    lemma_opt_step(s3, "WillShowUI"@, Seq::empty());
    lemma_opt_step(s2, "InstallToAvailablePartition"@, r3);
    lemma_opt_step(s1, "InstallTo"@, r2);
    match o.InstallTo {
        Some(t) => {
            lemma_round_trip_install_to(t);
        },
        None => {},
    }
    assert("InstallTo"@.len() == 9 && "InstallToAvailablePartition"@.len() == 27
        && "WillShowUI"@.len() == 10);
    assert(spec_decode_os_image(n)->0 =~= o);
}

/// Decoding inverts encoding for `ImageInstall`.
pub proof fn lemma_round_trip_image_install(v: ImageInstallV)
    ensures
        spec_decode_image_install(spec_encode_image_install(v)) == Some(v),
{
    reveal_strlit("OSImage");
    let n = spec_encode_image_install(v);
    lemma_req_step(spec_encode_os_image(v.OSImage), "OSImage"@, Seq::empty());
    lemma_round_trip_os_image(v.OSImage);
    assert(spec_decode_image_install(n)->0 =~= v);
}

/// Decoding inverts encoding for `Component`: every identity attribute and
/// every optional sub-block, set or unset, comes back exactly as built.
#[verifier::rlimit(100)]
#[verifier::spinoff_prover]
pub proof fn lemma_round_trip_component(c: ComponentV)
    ensures
        spec_decode_component(spec_encode_component(c)) == Some(c),
{
    reveal_strlit("ComputerName");
    reveal_strlit("DiskConfiguration");
    reveal_strlit("FirstLogonCommands");
    reveal_strlit("ImageInstall");
    reveal_strlit("InputLocale");
    reveal_strlit("SetupUILanguage");
    reveal_strlit("SystemLocale");
    reveal_strlit("UILanguage");
    reveal_strlit("UILanguageFallback");
    reveal_strlit("UserAccounts");
    reveal_strlit("UserData");
    reveal_strlit("UserLocale");
    reveal_strlit("language");
    reveal_strlit("name");
    reveal_strlit("processorArchitecture");
    reveal_strlit("publicKeyToken");
    reveal_strlit("versionScope");
    reveal_strlit("xmlns:wcm");
    reveal_strlit("xmlns:xsi");
    let n = spec_encode_component(c);
    let a7: Seq<(Seq<char>, Seq<char>)> = seq![("xmlns:xsi"@, c.xmlns_xsi)] + Seq::empty();
    let a6 = seq![("xmlns:wcm"@, c.xmlns_wcm)] + a7;
    let a5 = seq![("versionScope"@, c.versionScope)] + a6;
    let a4 = seq![("publicKeyToken"@, c.publicKeyToken)] + a5;
    let a3 = seq![("processorArchitecture"@, c.processorArchitecture)] + a4;
    let a2 = seq![("name"@, c.name)] + a3;
    lemma_attr_step("xmlns:xsi"@, c.xmlns_xsi, Seq::empty());
    lemma_attr_step("xmlns:wcm"@, c.xmlns_wcm, a7);
    lemma_attr_step("versionScope"@, c.versionScope, a6);
    lemma_attr_step("publicKeyToken"@, c.publicKeyToken, a5);
    lemma_attr_step("processorArchitecture"@, c.processorArchitecture, a4);
    lemma_attr_step("name"@, c.name, a3);
    lemma_attr_step("language"@, c.language, a2);
    assert("language"@.len() == 8 && "name"@.len() == 4 && "processorArchitecture"@.len() == 21
        && "publicKeyToken"@.len() == 14 && "versionScope"@.len() == 12 && "xmlns:wcm"@.len() == 9
        && "xmlns:xsi"@.len() == 9);
    assert("xmlns:wcm"@[6] == 'w' && "xmlns:xsi"@[6] == 'x');

    let s12 = opt_seq(opt_text_node(c.UserLocale, "UserLocale"@));
    let r12 = s12 + Seq::<SpecNode>::empty();
    let s11 = opt_seq(enc_opt(c.UserData, |u: UserDataV| spec_encode_user_data(u)));
    let r11 = s11 + r12;
    let s10 = opt_seq(
        enc_opt(c.UserAccounts, |ua: Seq<LocalAccountsV>| spec_encode_user_accounts(ua)),
    );
    let r10 = s10 + r11;
    let s9 = opt_seq(opt_text_node(c.UILanguageFallback, "UILanguageFallback"@));
    let r9 = s9 + r10;
    let s8 = opt_seq(opt_text_node(c.UILanguage, "UILanguage"@));
    let r8 = s8 + r9;
    let s7 = opt_seq(opt_text_node(c.SystemLocale, "SystemLocale"@));
    let r7 = s7 + r8;
    let s6 = opt_seq(
        enc_opt(c.SetupUILanguage, |v: SetupUILanguageV| spec_encode_setup_ui_language(v)),
    );
    let r6 = s6 + r7;
    let s5 = opt_seq(opt_text_node(c.InputLocale, "InputLocale"@));
    let r5 = s5 + r6;
    let s4 = opt_seq(enc_opt(c.ImageInstall, |v: ImageInstallV| spec_encode_image_install(v)));
    let r4 = s4 + r5;
    let s3 = opt_seq(
        enc_opt(
            c.FirstLogonCommands,
            |v: FirstLogonCommandsV| spec_encode_first_logon_commands(v),
        ),
    );
    let r3 = s3 + r4;
    let s2 = opt_seq(
        enc_opt(c.DiskConfiguration, |d: DiskConfigurationV| spec_encode_disk_configuration(d)),
    );
    let r2 = s2 + r3;
    lemma_opt_step(opt_text_node(c.UserLocale, "UserLocale"@), "UserLocale"@, Seq::empty());
    lemma_opt_step(enc_opt(c.UserData, |u: UserDataV| spec_encode_user_data(u)), "UserData"@, r12);
    lemma_opt_step(
        enc_opt(c.UserAccounts, |ua: Seq<LocalAccountsV>| spec_encode_user_accounts(ua)),
        "UserAccounts"@,
        r11,
    );
    lemma_opt_step(
        opt_text_node(c.UILanguageFallback, "UILanguageFallback"@),
        "UILanguageFallback"@,
        r10,
    );
    lemma_opt_step(opt_text_node(c.UILanguage, "UILanguage"@), "UILanguage"@, r9);
    lemma_opt_step(opt_text_node(c.SystemLocale, "SystemLocale"@), "SystemLocale"@, r8);
    lemma_opt_step(
        enc_opt(c.SetupUILanguage, |v: SetupUILanguageV| spec_encode_setup_ui_language(v)),
        "SetupUILanguage"@,
        r7,
    );
    lemma_opt_step(opt_text_node(c.InputLocale, "InputLocale"@), "InputLocale"@, r6);
    lemma_opt_step(
        enc_opt(c.ImageInstall, |v: ImageInstallV| spec_encode_image_install(v)),
        "ImageInstall"@,
        r5,
    );
    lemma_opt_step(
        enc_opt(
            c.FirstLogonCommands,
            |v: FirstLogonCommandsV| spec_encode_first_logon_commands(v),
        ),
        "FirstLogonCommands"@,
        r4,
    );
    lemma_opt_step(
        enc_opt(c.DiskConfiguration, |d: DiskConfigurationV| spec_encode_disk_configuration(d)),
        "DiskConfiguration"@,
        r3,
    );
    lemma_opt_step(opt_text_node(c.ComputerName, "ComputerName"@), "ComputerName"@, r2);
    assert("ComputerName"@.len() == 12 && "DiskConfiguration"@.len() == 17
        && "FirstLogonCommands"@.len() == 18 && "ImageInstall"@.len() == 12
        && "InputLocale"@.len() == 11 && "SetupUILanguage"@.len() == 15 && "SystemLocale"@.len()
        == 12 && "UILanguage"@.len() == 10 && "UILanguageFallback"@.len() == 18
        && "UserAccounts"@.len() == 12 && "UserData"@.len() == 8 && "UserLocale"@.len() == 10);
    assert("ComputerName"@[0] == 'C' && "SystemLocale"@[0] == 'S' && "UserAccounts"@[0] == 'U'
        && "ImageInstall"@[0] == 'I');
    assert("FirstLogonCommands"@[0] == 'F' && "UILanguageFallback"@[0] == 'U');
    assert("UILanguage"@[1] == 'I' && "UserLocale"@[1] == 's');
    match c.DiskConfiguration {
        Some(d) => {
            lemma_round_trip_disk_configuration(d);
        },
        None => {},
    }
    match c.FirstLogonCommands {
        Some(v) => {
            lemma_round_trip_first_logon_commands(v);
        },
        None => {},
    }
    match c.ImageInstall {
        Some(v) => {
            lemma_round_trip_image_install(v);
        },
        None => {},
    }
    match c.SetupUILanguage {
        Some(v) => {
            lemma_round_trip_setup_ui_language(v);
        },
        None => {},
    }
    match c.UserAccounts {
        Some(ua) => {
            lemma_round_trip_user_accounts(ua);
        },
        None => {},
    }
    match c.UserData {
        Some(u) => {
            lemma_round_trip_user_data(u);
        },
        None => {},
    }
    assert(spec_decode_component(n)->0 =~= c);
}

/// Decoding inverts encoding for a `settings` block.
pub proof fn lemma_round_trip_settings(v: SettingsV)
    ensures
        spec_decode_settings(spec_encode_settings(v)) == Some(v),
{
    reveal_strlit("component");
    reveal_strlit("pass");
    let n = spec_encode_settings(v);
    lemma_attr_step("pass"@, v.pass, Seq::empty());
    let f = |c: SpecNode| spec_decode_component(c);
    let g = |x: ComponentV| spec_encode_component(x);
    let nodes = Seq::new(v.component.len(), |i: int| spec_encode_component(v.component[i]));
    assert forall|i: int| 0 <= i < nodes.len() implies (#[trigger] nodes[i]).tag
        == "component"@ by {}
    lemma_rep_step(nodes, "component"@, Seq::empty());
    assert(all_with(n.children, "component"@) =~= nodes);
    assert forall|x: ComponentV| #[trigger] f(g(x)) == Some(x) by {
        lemma_round_trip_component(x);
    }
    crate::decode::lemma_dec_list_enc(v.component, f, g);
    assert(Seq::new(v.component.len(), |i: int| g(v.component[i])) =~= nodes);
    assert(spec_decode_settings(n)->0 =~= v);
}

/// The round-trip law at the document root: for every typed document,
/// decoding the encoded raw tree yields the document back, field for field.
/// Together with the contracts of `encode_document` and `decode_document`
/// this pins the whole binding layer: what the encoder writes, the decoder
/// reads back unchanged.
pub proof fn lemma_round_trip_document(d: UnattendXmlV)
    ensures
        spec_decode_document(spec_encode_document(d)) == Some(d),
{
    reveal_strlit("settings");
    reveal_strlit("xmlns");
    let n = spec_encode_document(d);
    lemma_attr_step("xmlns"@, d.xmlns, Seq::empty());
    let f = |c: SpecNode| spec_decode_settings(c);
    let g = |x: SettingsV| spec_encode_settings(x);
    let nodes = Seq::new(d.settings.len(), |i: int| spec_encode_settings(d.settings[i]));
    assert forall|i: int| 0 <= i < nodes.len() implies (#[trigger] nodes[i]).tag
        == "settings"@ by {}
    lemma_rep_step(nodes, "settings"@, Seq::empty());
    assert(all_with(n.children, "settings"@) =~= nodes);
    assert forall|x: SettingsV| #[trigger] f(g(x)) == Some(x) by {
        lemma_round_trip_settings(x);
    }
    crate::decode::lemma_dec_list_enc(d.settings, f, g);
    assert(Seq::new(d.settings.len(), |i: int| g(d.settings[i])) =~= nodes);
    assert(spec_decode_document(n)->0 =~= d);
}


/// Each entry of a decoded repeated field comes from the matching
/// occurrence at the same position: decoding neither drops, reorders nor
/// merges occurrences.
pub proof fn lemma_dec_list_index<T>(s: Seq<SpecNode>, f: spec_fn(SpecNode) -> Option<T>)
    requires
        dec_list(s, f) is Some,
    ensures
        dec_list(s, f)->0.len() == s.len(),
        forall|i: int| 0 <= i < s.len() ==> #[trigger] f(s[i]) == Some(dec_list(s, f)->0[i]),
    decreases s.len(),
{
    if s.len() > 0 {
        lemma_dec_list_index(s.drop_first(), f);
        let r = dec_list(s, f)->0;
        let rr = dec_list(s.drop_first(), f)->0;
        assert(r == seq![f(s[0])->0] + rr);
        assert forall|i: int| 0 <= i < s.len() implies #[trigger] f(s[i]) == Some(r[i]) by {
            if i > 0 {
                assert(s.drop_first()[i - 1] == s[i]);
                assert(r[i] == rr[i - 1]);
            }
        }
    }
}

/// The omission law, encoding side: a `Component` whose optional
/// `ComputerName` is unset contributes no `ComputerName` child at all —
/// not an empty placeholder.
pub proof fn lemma_unset_field_encodes_nothing(c: ComponentV)
    requires
        c.ComputerName is None,
    ensures
        first_with(spec_encode_component(c).children, "ComputerName"@) is None,
        all_with(spec_encode_component(c).children, "ComputerName"@) == Seq::<SpecNode>::empty(),
{
    lemma_round_trip_component(c);
    crate::raw::lemma_first_none_all_empty(spec_encode_component(c).children, "ComputerName"@);
}

/// The omission law, decoding side: a component element with no
/// `ComputerName` child decodes, when it decodes at all, to a component
/// whose `ComputerName` is unset — never to a default or empty value.
pub proof fn lemma_absent_field_decodes_unset(n: SpecNode)
    requires
        first_with(n.children, "ComputerName"@) is None,
        spec_decode_component(n) is Some,
    ensures
        spec_decode_component(n)->0.ComputerName is None,
{
}

/// Order preservation: a decoded `CreatePartitions` block holds one entry
/// per `CreatePartition` occurrence, in document order, and re-encoding
/// emits those entries in the same order — no sorting and no
/// deduplication.
pub proof fn lemma_create_partition_order(n: SpecNode)
    requires
        spec_decode_create_partitions(n) is Some,
    ensures
        ({
            let v = spec_decode_create_partitions(n)->0;
            let occ = all_with(n.children, "CreatePartition"@);
            &&& v.CreatePartition.len() == occ.len()
            &&& forall|i: int|
                0 <= i < occ.len() ==> #[trigger] spec_decode_create_partition(occ[i]) == Some(
                    v.CreatePartition[i],
                )
            &&& forall|i: int|
                0 <= i < occ.len() ==> #[trigger] spec_encode_create_partitions(
                    v,
                ).children[i] == spec_encode_create_partition(v.CreatePartition[i])
        }),
{
    let f = |c: SpecNode| spec_decode_create_partition(c);
    let occ = all_with(n.children, "CreatePartition"@);
    lemma_dec_list_index(occ, f);
    let v = spec_decode_create_partitions(n)->0;
    assert forall|i: int| 0 <= i < occ.len() implies #[trigger] spec_decode_create_partition(
        occ[i],
    ) == Some(v.CreatePartition[i]) by {
        assert(f(occ[i]) == Some(dec_list(occ, f)->0[i]));
    }
    assert forall|i: int| 0 <= i < occ.len() implies #[trigger] spec_encode_create_partitions(
        v,
    ).children[i] == spec_encode_create_partition(v.CreatePartition[i]) by {
        assert(spec_encode_create_partitions(v).children[i] == (Seq::new(
            v.CreatePartition.len(),
            |j: int| spec_encode_create_partition(v.CreatePartition[j]),
        ) + Seq::empty())[i]);
    }
}


/// Unknown-element tolerance: inserting an unmodeled sibling element
/// anywhere among a `ModifyPartition`'s children changes nothing about how
/// the element decodes — the stranger is skipped, not rejected. Since
/// re-encoding works from the decoded value alone, the stranger is absent
/// from the re-encoded markup.
pub proof fn lemma_unknown_child_ignored(n: SpecNode, k: int, x: SpecNode)
    requires
        0 <= k <= n.children.len(),
        x.tag != "Format"@,
        x.tag != "Label"@,
        x.tag != "Letter"@,
        x.tag != "Order"@,
        x.tag != "PartitionID"@,
    ensures
        spec_decode_modify_partition(
            SpecNode { children: n.children.insert(k, x), ..n },
        ) == spec_decode_modify_partition(n),
{
    crate::raw::lemma_first_with_insert(n.children, k, x, "Format"@);
    crate::raw::lemma_first_with_insert(n.children, k, x, "Label"@);
    crate::raw::lemma_first_with_insert(n.children, k, x, "Letter"@);
    crate::raw::lemma_first_with_insert(n.children, k, x, "Order"@);
    crate::raw::lemma_first_with_insert(n.children, k, x, "PartitionID"@);
}


/// Unknown-element tolerance at the component level: an unmodeled sibling
/// element inserted anywhere among a component's sub-blocks changes
/// nothing about how the component decodes.
pub proof fn lemma_unknown_component_child_ignored(n: SpecNode, k: int, x: SpecNode)
    requires
        0 <= k <= n.children.len(),
        x.tag != "ComputerName"@,
        x.tag != "DiskConfiguration"@,
        x.tag != "FirstLogonCommands"@,
        x.tag != "ImageInstall"@,
        x.tag != "InputLocale"@,
        x.tag != "SetupUILanguage"@,
        x.tag != "SystemLocale"@,
        x.tag != "UILanguage"@,
        x.tag != "UILanguageFallback"@,
        x.tag != "UserAccounts"@,
        x.tag != "UserData"@,
        x.tag != "UserLocale"@,
    ensures
        spec_decode_component(SpecNode { children: n.children.insert(k, x), ..n })
            == spec_decode_component(n),
{
    crate::raw::lemma_first_with_insert(n.children, k, x, "ComputerName"@);
    crate::raw::lemma_first_with_insert(n.children, k, x, "DiskConfiguration"@);
    crate::raw::lemma_first_with_insert(n.children, k, x, "FirstLogonCommands"@);
    crate::raw::lemma_first_with_insert(n.children, k, x, "ImageInstall"@);
    crate::raw::lemma_first_with_insert(n.children, k, x, "InputLocale"@);
    crate::raw::lemma_first_with_insert(n.children, k, x, "SetupUILanguage"@);
    crate::raw::lemma_first_with_insert(n.children, k, x, "SystemLocale"@);
    crate::raw::lemma_first_with_insert(n.children, k, x, "UILanguage"@);
    crate::raw::lemma_first_with_insert(n.children, k, x, "UILanguageFallback"@);
    crate::raw::lemma_first_with_insert(n.children, k, x, "UserAccounts"@);
    crate::raw::lemma_first_with_insert(n.children, k, x, "UserData"@);
    crate::raw::lemma_first_with_insert(n.children, k, x, "UserLocale"@);
}

/// The parse-side round trip, up to the lexer: for any document, the
/// canonical token sequence of its encoded tree (what the lexer yields
/// for the rendered text when no entity references are needed) builds
/// back exactly that tree, and the tree decodes back to the document.
/// The only step outside this chain is the lexing itself.
pub proof fn lemma_round_trip_through_tokens(d: UnattendXmlV)
    ensures
        crate::tree::sp_tree(crate::tree::node_tokens(spec_encode_document(d))) == Some(
            spec_encode_document(d),
        ),
        spec_decode_document(spec_encode_document(d)) == Some(d),
{
    crate::tree::lemma_parse_tree_tokens(spec_encode_document(d));
    lemma_round_trip_document(d);
}

} // verus!
