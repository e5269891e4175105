//! The typed configuration tree for a Windows installer answer file.
//!
//! Every leaf value is kept as an exact string: this layer guarantees
//! structural fidelity only and never interprets or normalizes a value.
#![allow(non_snake_case)]

use vstd::prelude::*;

verus! {

/// A whole answer-file document: the root configuration object.
#[derive(Clone, Debug, PartialEq)]
pub struct UnattendXml {
    pub xmlns: String,
    pub settings: Vec<Settings>,
}

#[verifier::ext_equal]
pub ghost struct UnattendXmlV {
    pub xmlns: Seq<char>,
    pub settings: Seq<SettingsV>,
}

impl View for UnattendXml {
    type V = UnattendXmlV;

    open spec fn view(&self) -> UnattendXmlV {
        UnattendXmlV {
            xmlns: self.xmlns@,
            settings: Seq::new(self.settings@.len(), |i: int| self.settings@[i]@),
        }
    }
}

/// One settings block, scoped to an installer phase.
#[derive(Clone, Debug, PartialEq)]
pub struct Settings {
    pub component: Vec<Component>,
    pub pass: String,
}

#[verifier::ext_equal]
pub ghost struct SettingsV {
    pub component: Seq<ComponentV>,
    pub pass: Seq<char>,
}

impl View for Settings {
    type V = SettingsV;

    open spec fn view(&self) -> SettingsV {
        SettingsV {
            component: Seq::new(self.component@.len(), |i: int| self.component@[i]@),
            pass: self.pass@,
        }
    }
}

/// A named, versioned configuration unit within a pass, holding a set of
/// optional sub-blocks.
#[derive(Clone, Debug, PartialEq)]
pub struct Component {
    pub ComputerName: Option<String>,
    pub DiskConfiguration: Option<DiskConfiguration>,
    pub FirstLogonCommands: Option<FirstLogonCommands>,
    pub ImageInstall: Option<ImageInstall>,
    pub InputLocale: Option<String>,
    pub SetupUILanguage: Option<SetupUILanguage>,
    pub SystemLocale: Option<String>,
    pub UILanguage: Option<String>,
    pub UILanguageFallback: Option<String>,
    pub UserAccounts: Option<Vec<LocalAccounts>>,
    pub UserData: Option<UserData>,
    pub UserLocale: Option<String>,
    pub language: String,
    pub name: String,
    pub processorArchitecture: String,
    pub publicKeyToken: String,
    pub versionScope: String,
    pub xmlns_wcm: String,
    pub xmlns_xsi: String,
}

#[verifier::ext_equal]
pub ghost struct ComponentV {
    pub ComputerName: Option<Seq<char>>,
    pub DiskConfiguration: Option<DiskConfigurationV>,
    pub FirstLogonCommands: Option<FirstLogonCommandsV>,
    pub ImageInstall: Option<ImageInstallV>,
    pub InputLocale: Option<Seq<char>>,
    pub SetupUILanguage: Option<SetupUILanguageV>,
    pub SystemLocale: Option<Seq<char>>,
    pub UILanguage: Option<Seq<char>>,
    pub UILanguageFallback: Option<Seq<char>>,
    pub UserAccounts: Option<Seq<LocalAccountsV>>,
    pub UserData: Option<UserDataV>,
    pub UserLocale: Option<Seq<char>>,
    pub language: Seq<char>,
    pub name: Seq<char>,
    pub processorArchitecture: Seq<char>,
    pub publicKeyToken: Seq<char>,
    pub versionScope: Seq<char>,
    pub xmlns_wcm: Seq<char>,
    pub xmlns_xsi: Seq<char>,
}

pub open spec fn opt_view(o: Option<String>) -> Option<Seq<char>> {
    match o {
        Some(s) => Some(s@),
        None => None,
    }
}

impl View for Component {
    type V = ComponentV;

    open spec fn view(&self) -> ComponentV {
        ComponentV {
            ComputerName: opt_view(self.ComputerName),
            DiskConfiguration: match self.DiskConfiguration {
                Some(d) => Some(d@),
                None => None,
            },
            FirstLogonCommands: match self.FirstLogonCommands {
                Some(f) => Some(f@),
                None => None,
            },
            ImageInstall: match self.ImageInstall {
                Some(x) => Some(x@),
                None => None,
            },
            InputLocale: opt_view(self.InputLocale),
            SetupUILanguage: match self.SetupUILanguage {
                Some(s) => Some(s@),
                None => None,
            },
            SystemLocale: opt_view(self.SystemLocale),
            UILanguage: opt_view(self.UILanguage),
            UILanguageFallback: opt_view(self.UILanguageFallback),
            UserAccounts: match self.UserAccounts {
                Some(v) => Some(Seq::new(v@.len(), |i: int| v@[i]@)),
                None => None,
            },
            UserData: match self.UserData {
                Some(u) => Some(u@),
                None => None,
            },
            UserLocale: opt_view(self.UserLocale),
            language: self.language@,
            name: self.name@,
            processorArchitecture: self.processorArchitecture@,
            publicKeyToken: self.publicKeyToken@,
            versionScope: self.versionScope@,
            xmlns_wcm: self.xmlns_wcm@,
            xmlns_xsi: self.xmlns_xsi@,
        }
    }
}

impl Default for Component {
    /// An empty component with the documented default identity attributes.
    fn default() -> (r: Self)
        ensures
            r.ComputerName is None,
            r.DiskConfiguration is None,
            r.FirstLogonCommands is None,
            r.ImageInstall is None,
            r.InputLocale is None,
            r.SetupUILanguage is None,
            r.SystemLocale is None,
            r.UILanguage is None,
            r.UILanguageFallback is None,
            r.UserAccounts is None,
            r.UserData is None,
            r.UserLocale is None,
            r.language@ == "neutral"@,
            r.name@ == ""@,
            r.processorArchitecture@ == "amd64"@,
            r.publicKeyToken@ == "31bf3856ad364e35"@,
            r.versionScope@ == "nonSxS"@,
            r.xmlns_wcm@ == "http://schemas.microsoft.com/WMIConfig/2002/State"@,
            r.xmlns_xsi@ == "http://www.w3.org/2001/XMLSchema-instance"@,
    {
        Component {
            ComputerName: None,
            DiskConfiguration: None,
            FirstLogonCommands: None,
            ImageInstall: None,
            InputLocale: None,
            SetupUILanguage: None,
            SystemLocale: None,
            UILanguage: None,
            UILanguageFallback: None,
            UserAccounts: None,
            UserData: None,
            UserLocale: None,
            language: "neutral".to_owned(),
            name: "".to_owned(),
            processorArchitecture: "amd64".to_owned(),
            publicKeyToken: "31bf3856ad364e35".to_owned(),
            versionScope: "nonSxS".to_owned(),
            xmlns_wcm: "http://schemas.microsoft.com/WMIConfig/2002/State".to_owned(),
            xmlns_xsi: "http://www.w3.org/2001/XMLSchema-instance".to_owned(),
        }
    }
}

/// The language used by the setup user interface.
#[derive(Clone, Debug, PartialEq)]
pub struct SetupUILanguage {
    pub UILanguage: String,
}

#[verifier::ext_equal]
pub ghost struct SetupUILanguageV {
    pub UILanguage: Seq<char>,
}

impl View for SetupUILanguage {
    type V = SetupUILanguageV;

    open spec fn view(&self) -> SetupUILanguageV {
        SetupUILanguageV { UILanguage: self.UILanguage@ }
    }
}

/// User identity and licensing data for the setup pass.
#[derive(Clone, Debug, PartialEq)]
pub struct UserData {
    pub AcceptEula: String,
    pub FullName: String,
    pub Organization: String,
    pub ProductKey: ProductKey,
}

#[verifier::ext_equal]
pub ghost struct UserDataV {
    pub AcceptEula: Seq<char>,
    pub FullName: Seq<char>,
    pub Organization: Seq<char>,
    pub ProductKey: ProductKeyV,
}

impl View for UserData {
    type V = UserDataV;

    open spec fn view(&self) -> UserDataV {
        UserDataV {
            AcceptEula: self.AcceptEula@,
            FullName: self.FullName@,
            Organization: self.Organization@,
            ProductKey: self.ProductKey@,
        }
    }
}

/// A product key, kept as the exact string the caller supplied.
#[derive(Clone, Debug, PartialEq)]
pub struct ProductKey {
    pub Key: String,
    pub WillShowUI: Option<String>,
}

#[verifier::ext_equal]
pub ghost struct ProductKeyV {
    pub Key: Seq<char>,
    pub WillShowUI: Option<Seq<char>>,
}

impl View for ProductKey {
    type V = ProductKeyV;

    open spec fn view(&self) -> ProductKeyV {
        ProductKeyV { Key: self.Key@, WillShowUI: opt_view(self.WillShowUI) }
    }
}

/// The ordered list of commands run at first logon.
#[derive(Clone, Debug, PartialEq)]
pub struct FirstLogonCommands {
    pub SynchronousCommand: Vec<SynchronousCommand>,
}

#[verifier::ext_equal]
pub ghost struct FirstLogonCommandsV {
    pub SynchronousCommand: Seq<SynchronousCommandV>,
}

impl View for FirstLogonCommands {
    type V = FirstLogonCommandsV;

    open spec fn view(&self) -> FirstLogonCommandsV {
        FirstLogonCommandsV {
            SynchronousCommand: Seq::new(
                self.SynchronousCommand@.len(),
                |i: int| self.SynchronousCommand@[i]@,
            ),
        }
    }
}

/// One first-logon command; `Order` decides the execution sequence and is
/// kept as an opaque string.
#[derive(Clone, Debug, PartialEq)]
pub struct SynchronousCommand {
    pub CommandLine: String,
    pub Description: Option<String>,
    pub Order: String,
    pub RequiresUserInput: Option<String>,
    pub action: Option<String>,
}

#[verifier::ext_equal]
pub ghost struct SynchronousCommandV {
    pub CommandLine: Seq<char>,
    pub Description: Option<Seq<char>>,
    pub Order: Seq<char>,
    pub RequiresUserInput: Option<Seq<char>>,
    pub action: Option<Seq<char>>,
}

impl View for SynchronousCommand {
    type V = SynchronousCommandV;

    open spec fn view(&self) -> SynchronousCommandV {
        SynchronousCommandV {
            CommandLine: self.CommandLine@,
            Description: opt_view(self.Description),
            Order: self.Order@,
            RequiresUserInput: opt_view(self.RequiresUserInput),
            action: opt_view(self.action),
        }
    }
}

/// The ordered list of local accounts to create.
#[derive(Clone, Debug, PartialEq)]
pub struct LocalAccounts {
    pub LocalAccount: Vec<LocalAccount>,
}

#[verifier::ext_equal]
pub ghost struct LocalAccountsV {
    pub LocalAccount: Seq<LocalAccountV>,
}

impl View for LocalAccounts {
    type V = LocalAccountsV;

    open spec fn view(&self) -> LocalAccountsV {
        LocalAccountsV {
            LocalAccount: Seq::new(self.LocalAccount@.len(), |i: int| self.LocalAccount@[i]@),
        }
    }
}

/// One local account to create.
#[derive(Clone, Debug, PartialEq)]
pub struct LocalAccount {
    pub Description: Option<String>,
    pub DisplayName: Option<String>,
    pub Group: Option<String>,
    pub Name: String,
    pub Password: Password,
    pub action: String,
}

#[verifier::ext_equal]
pub ghost struct LocalAccountV {
    pub Description: Option<Seq<char>>,
    pub DisplayName: Option<Seq<char>>,
    pub Group: Option<Seq<char>>,
    pub Name: Seq<char>,
    pub Password: PasswordV,
    pub action: Seq<char>,
}

impl View for LocalAccount {
    type V = LocalAccountV;

    open spec fn view(&self) -> LocalAccountV {
        LocalAccountV {
            Description: opt_view(self.Description),
            DisplayName: opt_view(self.DisplayName),
            Group: opt_view(self.Group),
            Name: self.Name@,
            Password: self.Password@,
            action: self.action@,
        }
    }
}

/// An account password, kept exactly as supplied.
#[derive(Clone, Debug, PartialEq)]
pub struct Password {
    pub PlainText: String,
    pub Value: String,
}

#[verifier::ext_equal]
pub ghost struct PasswordV {
    pub PlainText: Seq<char>,
    pub Value: Seq<char>,
}

impl View for Password {
    type V = PasswordV;

    open spec fn view(&self) -> PasswordV {
        PasswordV { PlainText: self.PlainText@, Value: self.Value@ }
    }
}

/// Disk layout configuration for the setup pass.
#[derive(Clone, Debug, PartialEq)]
pub struct DiskConfiguration {
    pub Disk: Disk,
    pub WillShowUI: Option<String>,
}

#[verifier::ext_equal]
pub ghost struct DiskConfigurationV {
    pub Disk: DiskV,
    pub WillShowUI: Option<Seq<char>>,
}

impl View for DiskConfiguration {
    type V = DiskConfigurationV;

    open spec fn view(&self) -> DiskConfigurationV {
        DiskConfigurationV { Disk: self.Disk@, WillShowUI: opt_view(self.WillShowUI) }
    }
}

/// One disk, with the partitions to create and to modify, in order.
#[derive(Clone, Debug, PartialEq)]
pub struct Disk {
    pub CreatePartitions: CreatePartitions,
    pub DiskID: String,
    pub ModifyPartitions: ModifyPartitions,
    pub WillWipeDisk: String,
}

#[verifier::ext_equal]
pub ghost struct DiskV {
    pub CreatePartitions: CreatePartitionsV,
    pub DiskID: Seq<char>,
    pub ModifyPartitions: ModifyPartitionsV,
    pub WillWipeDisk: Seq<char>,
}

impl View for Disk {
    type V = DiskV;

    open spec fn view(&self) -> DiskV {
        DiskV {
            CreatePartitions: self.CreatePartitions@,
            DiskID: self.DiskID@,
            ModifyPartitions: self.ModifyPartitions@,
            WillWipeDisk: self.WillWipeDisk@,
        }
    }
}

/// The ordered list of partitions to create.
#[derive(Clone, Debug, PartialEq)]
pub struct CreatePartitions {
    pub CreatePartition: Vec<CreatePartition>,
}

#[verifier::ext_equal]
pub ghost struct CreatePartitionsV {
    pub CreatePartition: Seq<CreatePartitionV>,
}

impl View for CreatePartitions {
    type V = CreatePartitionsV;

    open spec fn view(&self) -> CreatePartitionsV {
        CreatePartitionsV {
            CreatePartition: Seq::new(self.CreatePartition@.len(), |i: int| self.CreatePartition@[i]@),
        }
    }
}

/// One partition to create; `Order` and `Size` are opaque strings.
#[derive(Clone, Debug, PartialEq)]
pub struct CreatePartition {
    pub Extend: Option<String>,
    pub Order: String,
    pub Size: Option<String>,
    pub Type: String,
}

#[verifier::ext_equal]
pub ghost struct CreatePartitionV {
    pub Extend: Option<Seq<char>>,
    pub Order: Seq<char>,
    pub Size: Option<Seq<char>>,
    pub Type: Seq<char>,
}

impl View for CreatePartition {
    type V = CreatePartitionV;

    open spec fn view(&self) -> CreatePartitionV {
        CreatePartitionV {
            Extend: opt_view(self.Extend),
            Order: self.Order@,
            Size: opt_view(self.Size),
            Type: self.Type@,
        }
    }
}

/// The ordered list of partitions to modify.
#[derive(Clone, Debug, PartialEq)]
pub struct ModifyPartitions {
    pub ModifyPartition: Vec<ModifyPartition>,
}

#[verifier::ext_equal]
pub ghost struct ModifyPartitionsV {
    pub ModifyPartition: Seq<ModifyPartitionV>,
}

impl View for ModifyPartitions {
    type V = ModifyPartitionsV;

    open spec fn view(&self) -> ModifyPartitionsV {
        ModifyPartitionsV {
            ModifyPartition: Seq::new(self.ModifyPartition@.len(), |i: int| self.ModifyPartition@[i]@),
        }
    }
}

/// One partition to modify; `Order` and `PartitionID` are opaque strings.
#[derive(Clone, Debug, PartialEq)]
pub struct ModifyPartition {
    pub Format: String,
    pub Label: String,
    pub Letter: Option<String>,
    pub Order: String,
    pub PartitionID: String,
}

#[verifier::ext_equal]
pub ghost struct ModifyPartitionV {
    pub Format: Seq<char>,
    pub Label: Seq<char>,
    pub Letter: Option<Seq<char>>,
    pub Order: Seq<char>,
    pub PartitionID: Seq<char>,
}

impl View for ModifyPartition {
    type V = ModifyPartitionV;

    open spec fn view(&self) -> ModifyPartitionV {
        ModifyPartitionV {
            Format: self.Format@,
            Label: self.Label@,
            Letter: opt_view(self.Letter),
            Order: self.Order@,
            PartitionID: self.PartitionID@,
        }
    }
}

/// Where the operating-system image is installed.
#[derive(Clone, Debug, PartialEq)]
pub struct ImageInstall {
    pub OSImage: OSImage,
}

#[verifier::ext_equal]
pub ghost struct ImageInstallV {
    pub OSImage: OSImageV,
}

impl View for ImageInstall {
    type V = ImageInstallV;

    open spec fn view(&self) -> ImageInstallV {
        ImageInstallV { OSImage: self.OSImage@ }
    }
}

/// The image to install and its target.
#[derive(Clone, Debug, PartialEq)]
pub struct OSImage {
    pub InstallTo: Option<InstallTo>,
    pub InstallToAvailablePartition: Option<String>,
    pub WillShowUI: Option<String>,
}

#[verifier::ext_equal]
pub ghost struct OSImageV {
    pub InstallTo: Option<InstallToV>,
    pub InstallToAvailablePartition: Option<Seq<char>>,
    pub WillShowUI: Option<Seq<char>>,
}

impl View for OSImage {
    type V = OSImageV;

    open spec fn view(&self) -> OSImageV {
        OSImageV {
            InstallTo: match self.InstallTo {
                Some(t) => Some(t@),
                None => None,
            },
            InstallToAvailablePartition: opt_view(self.InstallToAvailablePartition),
            WillShowUI: opt_view(self.WillShowUI),
        }
    }
}

/// The disk and partition an image is installed to; both identifiers are
/// opaque strings.
#[derive(Clone, Debug, PartialEq)]
pub struct InstallTo {
    pub DiskID: String,
    pub PartitionID: String,
}

#[verifier::ext_equal]
pub ghost struct InstallToV {
    pub DiskID: Seq<char>,
    pub PartitionID: Seq<char>,
}

impl View for InstallTo {
    type V = InstallToV;

    open spec fn view(&self) -> InstallToV {
        InstallToV { DiskID: self.DiskID@, PartitionID: self.PartitionID@ }
    }
}

} // verus!
