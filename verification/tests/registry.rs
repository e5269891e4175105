//! The schema registry's tables on concrete node types.

use unattend::{fields_of, BindingKind, NodeType};

#[test]
fn modify_partition_fields() {
    let fs = fields_of(NodeType::ModifyPartition);
    let names: Vec<&str> = fs.iter().map(|f| f.name).collect();
    assert_eq!(names, vec!["Format", "Label", "Letter", "Order", "PartitionID"]);
    let optional: Vec<bool> = fs.iter().map(|f| f.optional).collect();
    assert_eq!(optional, vec![false, false, true, false, false]);
    assert!(fs.iter().all(|f| f.kind == BindingKind::Text));
}

#[test]
fn component_attributes_come_first() {
    let fs = fields_of(NodeType::Component);
    assert_eq!(fs.len(), 19);
    assert!(fs[..7].iter().all(|f| f.kind == BindingKind::Attribute && !f.optional));
    assert!(fs[7..].iter().all(|f| f.kind != BindingKind::Attribute && f.optional));
    assert_eq!(fs[7].name, "ComputerName");
    assert_eq!(fs[18].name, "UserLocale");
}

#[test]
fn repeated_fields_are_bare_sequences() {
    for t in [
        NodeType::Unattend,
        NodeType::Settings,
        NodeType::FirstLogonCommands,
        NodeType::LocalAccounts,
        NodeType::CreatePartitions,
        NodeType::ModifyPartitions,
    ] {
        let fs = fields_of(t);
        assert_eq!(fs.iter().filter(|f| f.kind == BindingKind::RepeatedElement).count(), 1);
    }
}
