//! Round-trip fidelity: a document built in memory, rendered to text and
//! parsed back, is field-for-field the same document.

use unattend::{
    Component, CreatePartition, CreatePartitions, Disk, DiskConfiguration, FirstLogonCommands,
    ImageInstall, InstallTo, LocalAccount, LocalAccounts, ModifyPartition, ModifyPartitions,
    OSImage, Password, ProductKey, Settings, SetupUILanguage, SynchronousCommand, UnattendXml,
    UserData,
};

fn sample_document() -> UnattendXml {
    let disk = Disk {
        CreatePartitions: CreatePartitions {
            CreatePartition: vec![
                CreatePartition {
                    Extend: None,
                    Order: "1".to_owned(),
                    Size: Some("100".to_owned()),
                    Type: "Primary".to_owned(),
                },
                CreatePartition {
                    Extend: Some("true".to_owned()),
                    Order: "2".to_owned(),
                    Size: None,
                    Type: "Primary".to_owned(),
                },
            ],
        },
        DiskID: "0".to_owned(),
        ModifyPartitions: ModifyPartitions {
            ModifyPartition: vec![ModifyPartition {
                Format: "NTFS".to_owned(),
                Label: "OS".to_owned(),
                Letter: Some("C".to_owned()),
                Order: "1".to_owned(),
                PartitionID: "2".to_owned(),
            }],
        },
        WillWipeDisk: "true".to_owned(),
    };
    let setup = Component {
        DiskConfiguration: Some(DiskConfiguration { Disk: disk, WillShowUI: Some("OnError".to_owned()) }),
        ImageInstall: Some(ImageInstall {
            OSImage: OSImage {
                InstallTo: Some(InstallTo {
                    DiskID: "0".to_owned(),
                    PartitionID: "2".to_owned(),
                }),
                InstallToAvailablePartition: Some("false".to_owned()),
                WillShowUI: None,
            },
        }),
        UserData: Some(UserData {
            AcceptEula: "true".to_owned(),
            FullName: "Jo & Co <admins>".to_owned(),
            Organization: "\"Example\"".to_owned(),
            ProductKey: ProductKey {
                Key: "W269N-WFGWX-YVC9B-4J6C9-T83GX".to_owned(),
                WillShowUI: Some("Never".to_owned()),
            },
        }),
        SetupUILanguage: Some(SetupUILanguage { UILanguage: "en-US".to_owned() }),
        InputLocale: Some("0c09:00000409".to_owned()),
        name: "Microsoft-Windows-Setup".to_owned(),
        ..Component::default()
    };
    let shell = Component {
        ComputerName: Some("example-pc".to_owned()),
        FirstLogonCommands: Some(FirstLogonCommands {
            SynchronousCommand: vec![
                SynchronousCommand {
                    CommandLine: "cmd /c echo a > b & exit".to_owned(),
                    Description: Some("first".to_owned()),
                    Order: "1".to_owned(),
                    RequiresUserInput: Some("false".to_owned()),
                    action: Some("add".to_owned()),
                },
                SynchronousCommand {
                    CommandLine: "powershell -Command \"Get-Date\"".to_owned(),
                    Description: None,
                    Order: "2".to_owned(),
                    RequiresUserInput: None,
                    action: None,
                },
            ],
        }),
        UserAccounts: Some(vec![LocalAccounts {
            LocalAccount: vec![LocalAccount {
                Description: None,
                DisplayName: Some("Admin".to_owned()),
                Group: Some("Administrators".to_owned()),
                Name: "admin".to_owned(),
                Password: Password {
                    PlainText: "true".to_owned(),
                    Value: "p'a\"s<s>&".to_owned(),
                },
                action: "add".to_owned(),
            }],
        }]),
        name: "Microsoft-Windows-Shell-Setup".to_owned(),
        ..Component::default()
    };
    UnattendXml {
        xmlns: "urn:schemas-microsoft-com:unattend".to_owned(),
        settings: vec![
            Settings { component: vec![setup], pass: "windowsPE".to_owned() },
            Settings { component: vec![shell], pass: "oobeSystem".to_owned() },
        ],
    }
}

#[test]
fn render_then_parse_is_identity() {
    let doc = sample_document();
    let text = unattend::render(&doc);
    let back = unattend::parse(&text).unwrap();
    assert_eq!(back, doc);
}

#[test]
fn render_twice_is_deterministic() {
    let doc = sample_document();
    let a = unattend::render(&doc);
    let b = unattend::render(&unattend::parse(&a).unwrap());
    assert_eq!(a, b);
}

#[test]
fn empty_document_round_trips() {
    let doc = UnattendXml { xmlns: "urn:x".to_owned(), settings: vec![] };
    let back = unattend::parse(&unattend::render(&doc)).unwrap();
    assert_eq!(back, doc);
}

#[test]
fn component_default_values() {
    let c = Component::default();
    assert!(c.ComputerName.is_none());
    assert!(c.DiskConfiguration.is_none());
    assert!(c.UserData.is_none());
    assert_eq!(c.language, "neutral");
    assert_eq!(c.name, "");
    assert_eq!(c.processorArchitecture, "amd64");
    assert_eq!(c.publicKeyToken, "31bf3856ad364e35");
    assert_eq!(c.versionScope, "nonSxS");
    assert_eq!(c.xmlns_wcm, "http://schemas.microsoft.com/WMIConfig/2002/State");
    assert_eq!(c.xmlns_xsi, "http://www.w3.org/2001/XMLSchema-instance");
}
