//! The decoder's and encoder's documented policies on concrete inputs:
//! omission of unset fields, order preservation, tolerance of unknown
//! content, required-field failures, and exact rendering.

use unattend::{Component, DecodeError, Settings, UnattendXml};

fn doc_around(component_body: &str) -> String {
    let mut s = String::from(
        r#"<unattend xmlns="urn:schemas-microsoft-com:unattend"><settings pass="windowsPE"><component name="Microsoft-Windows-Setup" processorArchitecture="amd64" publicKeyToken="31bf3856ad364e35" language="neutral" versionScope="nonSxS" xmlns:wcm="http://schemas.microsoft.com/WMIConfig/2002/State" xmlns:xsi="http://www.w3.org/2001/XMLSchema-instance">"#,
    );
    s.push_str(component_body);
    s.push_str("</component></settings></unattend>");
    s
}

#[test]
fn unset_optional_field_is_not_encoded() {
    let doc = UnattendXml {
        xmlns: "urn:x".to_owned(),
        settings: vec![Settings {
            component: vec![Component::default()],
            pass: "specialize".to_owned(),
        }],
    };
    let text = unattend::render(&doc);
    assert!(!text.contains("ComputerName"));
    assert!(!text.contains("UserData"));
}

#[test]
fn absent_optional_field_decodes_unset() {
    let doc = unattend::parse(&doc_around("<InputLocale>en-AU</InputLocale>")).unwrap();
    let c = &doc.settings[0].component[0];
    assert_eq!(c.InputLocale.as_deref(), Some("en-AU"));
    assert!(c.ComputerName.is_none());
    assert!(c.SystemLocale.is_none());
}

#[test]
fn sibling_order_is_preserved() {
    let body = r#"<DiskConfiguration><Disk>
        <CreatePartitions>
          <CreatePartition><Order>7</Order><Type>EFI</Type></CreatePartition>
          <CreatePartition><Order>3</Order><Type>MSR</Type></CreatePartition>
          <CreatePartition><Order>5</Order><Type>Primary</Type></CreatePartition>
        </CreatePartitions>
        <DiskID>0</DiskID>
        <ModifyPartitions></ModifyPartitions>
        <WillWipeDisk>true</WillWipeDisk>
      </Disk></DiskConfiguration>"#;
    let doc = unattend::parse(&doc_around(body)).unwrap();
    let dc = doc.settings[0].component[0].DiskConfiguration.as_ref().unwrap();
    let orders: Vec<&str> = dc
        .Disk
        .CreatePartitions
        .CreatePartition
        .iter()
        .map(|p| p.Order.as_str())
        .collect();
    assert_eq!(orders, vec!["7", "3", "5"]);
    let rendered = unattend::render(&doc);
    let p7 = rendered.find("<Order>7</Order>").unwrap();
    let p3 = rendered.find("<Order>3</Order>").unwrap();
    let p5 = rendered.find("<Order>5</Order>").unwrap();
    assert!(p7 < p3 && p3 < p5);
}

#[test]
fn unknown_sibling_element_is_tolerated_and_dropped() {
    let body = r#"<DiskConfiguration><Disk>
        <CreatePartitions></CreatePartitions>
        <ModifyPartitions>
          <ModifyPartition>
            <Active>true</Active>
            <Format>NTFS</Format>
            <Label>OS</Label>
            <Order>1</Order>
            <PartitionID>1</PartitionID>
            <TypeID>0x27</TypeID>
          </ModifyPartition>
        </ModifyPartitions>
        <DiskID>0</DiskID>
        <WillWipeDisk>true</WillWipeDisk>
      </Disk></DiskConfiguration>"#;
    let doc = unattend::parse(&doc_around(body)).unwrap();
    let dc = doc.settings[0].component[0].DiskConfiguration.as_ref().unwrap();
    let mp = &dc.Disk.ModifyPartitions.ModifyPartition[0];
    assert_eq!(mp.Format, "NTFS");
    assert_eq!(mp.Label, "OS");
    let rendered = unattend::render(&doc);
    assert!(!rendered.contains("Active"));
    assert!(!rendered.contains("TypeID"));
}

#[test]
fn disk_scenario_preserves_identifier_strings() {
    let body = r#"<DiskConfiguration><Disk>
        <CreatePartitions>
          <CreatePartition><Order>1</Order><Type>Primary</Type><Size>100</Size></CreatePartition>
          <CreatePartition><Order>2</Order><Type>Primary</Type><Extend>true</Extend></CreatePartition>
        </CreatePartitions>
        <ModifyPartitions>
          <ModifyPartition><PartitionID>1</PartitionID><Format>NTFS</Format><Label>System Reserved</Label><Order>1</Order></ModifyPartition>
          <ModifyPartition><PartitionID>2</PartitionID><Format>NTFS</Format><Label>OS</Label><Letter>C</Letter><Order>2</Order></ModifyPartition>
        </ModifyPartitions>
        <DiskID>0</DiskID>
        <WillWipeDisk>true</WillWipeDisk>
      </Disk></DiskConfiguration>
      <ImageInstall><OSImage><InstallTo><DiskID>0</DiskID><PartitionID>2</PartitionID></InstallTo></OSImage></ImageInstall>"#;
    let doc = unattend::parse(&doc_around(body)).unwrap();
    let c = &doc.settings[0].component[0];
    let disk = &c.DiskConfiguration.as_ref().unwrap().Disk;
    assert_eq!(disk.DiskID, "0");
    assert_eq!(disk.WillWipeDisk, "true");
    let cp = &disk.CreatePartitions.CreatePartition;
    assert_eq!(cp[0].Order, "1");
    assert_eq!(cp[0].Size.as_deref(), Some("100"));
    assert_eq!(cp[1].Extend.as_deref(), Some("true"));
    let mp = &disk.ModifyPartitions.ModifyPartition;
    assert_eq!(mp[0].PartitionID, "1");
    assert_eq!(mp[0].Label, "System Reserved");
    assert_eq!(mp[1].Letter.as_deref(), Some("C"));
    let it = c.ImageInstall.as_ref().unwrap().OSImage.InstallTo.as_ref().unwrap();
    assert_eq!(it.DiskID, "0");
    assert_eq!(it.PartitionID, "2");
    let rendered = unattend::render(&doc);
    let back = unattend::parse(&rendered).unwrap();
    assert_eq!(back, doc);
    assert!(rendered.contains("<PartitionID>2</PartitionID>"));
    assert!(rendered.contains("<Letter>C</Letter>"));
    assert!(rendered.contains("<Label>System Reserved</Label>"));
}

#[test]
fn missing_required_field_fails_whole_parse() {
    let body = r#"<DiskConfiguration><Disk>
        <CreatePartitions></CreatePartitions>
        <ModifyPartitions>
          <ModifyPartition><Label>OS</Label><Order>1</Order><PartitionID>1</PartitionID></ModifyPartition>
        </ModifyPartitions>
        <DiskID>0</DiskID>
        <WillWipeDisk>true</WillWipeDisk>
      </Disk></DiskConfiguration>"#;
    let err = unattend::parse(&doc_around(body)).unwrap_err();
    assert!(matches!(err, DecodeError::MissingRequiredField(_)));
}

#[test]
fn missing_required_attribute_fails() {
    let text = r#"<unattend xmlns="urn:x"><settings><component name="n" processorArchitecture="a" publicKeyToken="k" language="l" versionScope="v" xmlns:wcm="w" xmlns:xsi="x"></component></settings></unattend>"#;
    let err = unattend::parse(text).unwrap_err();
    assert!(matches!(err, DecodeError::MissingRequiredField(_)));
}

#[test]
fn ill_formed_markup_is_malformed() {
    let err = unattend::parse("<unattend xmlns=\"u\"><settings pass=\"a\">").unwrap_err();
    assert!(matches!(err, DecodeError::MalformedMarkup(_)));
}

#[test]
fn mismatched_closing_tag_is_malformed() {
    let err = unattend::parse("<unattend xmlns=\"u\"></different>").unwrap_err();
    assert!(matches!(err, DecodeError::MalformedMarkup(_)));
}

#[test]
fn entity_references_are_resolved() {
    let body = "<ComputerName>a&amp;b&lt;c&gt;d&#65;e&#x42;f</ComputerName>";
    let doc = unattend::parse(&doc_around(body)).unwrap();
    let c = &doc.settings[0].component[0];
    assert_eq!(c.ComputerName.as_deref(), Some("a&b<c>dAeBf"));
}

#[test]
fn rendered_text_is_exact() {
    let doc = UnattendXml {
        xmlns: "urn:x&y".to_owned(),
        settings: vec![Settings { component: vec![], pass: "oobeSystem".to_owned() }],
    };
    let text = unattend::render(&doc);
    assert_eq!(
        text,
        "<unattend xmlns=\"urn:x&amp;y\"><settings pass=\"oobeSystem\"/></unattend>"
    );
}

#[test]
fn escaped_values_survive_the_trip() {
    let body = "<ComputerName>q\"w'x</ComputerName>";
    let doc = unattend::parse(&doc_around(body)).unwrap();
    let c = &doc.settings[0].component[0];
    assert_eq!(c.ComputerName.as_deref(), Some("q\"w'x"));
    let back = unattend::parse(&unattend::render(&doc)).unwrap();
    assert_eq!(back, doc);
}

#[test]
fn cdata_is_taken_literally() {
    let body = "<ComputerName><![CDATA[a<b&c]]></ComputerName>";
    let doc = unattend::parse(&doc_around(body)).unwrap();
    let c = &doc.settings[0].component[0];
    assert_eq!(c.ComputerName.as_deref(), Some("a<b&c"));
}

#[test]
fn comments_between_elements_are_skipped() {
    let body = "<!-- locale notes --><InputLocale>en-AU</InputLocale><!-- end -->";
    let doc = unattend::parse(&doc_around(body)).unwrap();
    let c = &doc.settings[0].component[0];
    assert_eq!(c.InputLocale.as_deref(), Some("en-AU"));
}

#[test]
fn attribute_escapes_round_trip() {
    let text = r#"<unattend xmlns="urn:a&amp;b&quot;c&apos;d&lt;e"></unattend>"#;
    let doc = unattend::parse(text).unwrap();
    assert_eq!(doc.xmlns, "urn:a&b\"c'd<e");
    let back = unattend::parse(&unattend::render(&doc)).unwrap();
    assert_eq!(back, doc);
}

#[test]
fn text_runs_around_children_concatenate() {
    let body = "<ComputerName>ab&#32;cd</ComputerName>";
    let doc = unattend::parse(&doc_around(body)).unwrap();
    let c = &doc.settings[0].component[0];
    assert_eq!(c.ComputerName.as_deref(), Some("ab cd"));
}

#[test]
fn first_matching_scalar_element_wins() {
    let body = "<InputLocale>first</InputLocale><InputLocale>second</InputLocale>";
    let doc = unattend::parse(&doc_around(body)).unwrap();
    let c = &doc.settings[0].component[0];
    assert_eq!(c.InputLocale.as_deref(), Some("first"));
}
