use sfmeta_reader::parser::{
    extract_metadata, is_false, parse_salesforce_xml, to_compact_format, to_toon_format, Field,
    FieldPermission, Flow, ObjectPermission, RecordType, SalesforceMetadata, ValidationRule,
    Workflow,
};
use sfmeta_reader::xml::XmlEvent;

const OBJECT: &str = "<?xml version=\"1.0\"?>
<CustomObject>
  <fullName>Account</fullName>
  <type>Object</type>
  <label>Accounts &amp; more</label>
  <description>about</description>
  <fields>
    <fullName>Name__c</fullName>
    <type>Text</type>
    <label>Name</label>
    <required>TRUE</required>
    <unique>false</unique>
    <length>80</length>
    <description>the name</description>
  </fields>
  <fields>
    <fullName>Size__c</fullName>
    <length>+12</length>
  </fields>
  <fields>
    <type>Orphan</type>
  </fields>
  <validationRules>
    <fullName>Rule1</fullName>
    <active>true</active>
    <errorConditionFormula>A &lt; B</errorConditionFormula>
  </validationRules>
  <workflowRules>
    <fullName>Flow1</fullName>
    <active>no</active>
  </workflowRules>
  <recordTypes>
    <fullName>RT</fullName>
    <label>Record</label>
    <active>True</active>
    <businessProcess>BP</businessProcess>
  </recordTypes>
  <unknown>ignored</unknown>
</CustomObject>";

fn field(name: &str) -> Field {
    Field {
        name: name.to_string(),
        field_type: None,
        label: None,
        required: false,
        unique: false,
        length: None,
        description: None,
    }
}

#[test]
fn object_metadata_is_extracted() {
    let m = parse_salesforce_xml(OBJECT, true).unwrap();
    assert_eq!(m.full_name.as_deref(), Some("Account"));
    assert_eq!(m.object_type.as_deref(), Some("Object"));
    assert_eq!(m.label.as_deref(), Some("Accounts & more"));
    assert_eq!(m.description.as_deref(), Some("about"));
    assert_eq!(
        m.fields,
        vec![
            Field {
                name: "Name__c".to_string(),
                field_type: Some("Text".to_string()),
                label: Some("Name".to_string()),
                required: true,
                unique: false,
                length: Some(80),
                description: Some("the name".to_string()),
            },
            Field { length: Some(12), ..field("Size__c") },
        ]
    );
    assert_eq!(
        m.validation_rules,
        vec![ValidationRule {
            name: "Rule1".to_string(),
            active: true,
            formula: Some("A < B".to_string()),
        }]
    );
    assert_eq!(m.workflows, vec![Workflow { name: "Flow1".to_string(), active: false }]);
    assert_eq!(
        m.record_types,
        vec![RecordType {
            name: "RT".to_string(),
            label: Some("Record".to_string()),
            active: true,
            business_process: Some("BP".to_string()),
        }]
    );
    assert_eq!(m.profile, None);
    assert_eq!(m.permission_set, None);
    assert_eq!(m.flow, None);
}

#[test]
fn descriptions_are_dropped_unless_asked_for() {
    let m = parse_salesforce_xml(OBJECT, false).unwrap();
    assert_eq!(m.description, None);
    assert_eq!(m.fields[0].description, None);
    assert_eq!(m.fields[0].label.as_deref(), Some("Name"));
}

#[test]
fn profile_permissions_are_extracted() {
    let xml = "<Profile>\
        <objectPermissions><object>Account</object><allowCreate>true</allowCreate>\
        <allowRead>true</allowRead><allowEdit>false</allowEdit><allowDelete>TRUE</allowDelete>\
        </objectPermissions>\
        <objectPermissions><allowRead>true</allowRead></objectPermissions>\
        <fieldPermissions><field>Account.Name</field><readable>true</readable>\
        <editable>false</editable></fieldPermissions>\
        </Profile>";
    let m = parse_salesforce_xml(xml, false).unwrap();
    let profile = m.profile.unwrap();
    assert_eq!(profile.name, "");
    assert_eq!(
        profile.object_permissions,
        vec![ObjectPermission {
            object: "Account".to_string(),
            allow_create: true,
            allow_read: true,
            allow_edit: false,
            allow_delete: true,
        }]
    );
    assert_eq!(
        profile.field_permissions,
        vec![FieldPermission {
            field: "Account.Name".to_string(),
            readable: true,
            editable: false,
        }]
    );
    assert_eq!(m.permission_set, None);
}

#[test]
fn permission_set_permissions_are_extracted() {
    let xml = "<PermissionSet><label>Set</label>\
        <objectPermissions><object>Case</object><allowRead>true</allowRead></objectPermissions>\
        <fieldPermissions><field>Case.Subject</field><editable>true</editable></fieldPermissions>\
        </PermissionSet>";
    let m = parse_salesforce_xml(xml, false).unwrap();
    assert_eq!(m.label.as_deref(), Some("Set"));
    let set = m.permission_set.unwrap();
    assert_eq!(set.object_permissions.len(), 1);
    assert_eq!(set.object_permissions[0].object, "Case");
    assert!(set.object_permissions[0].allow_read);
    assert_eq!(set.field_permissions.len(), 1);
    assert!(set.field_permissions[0].editable);
    assert!(!set.field_permissions[0].readable);
}

#[test]
fn permissions_outside_a_profile_are_dropped() {
    let xml = "<r><objectPermissions><object>Account</object></objectPermissions></r>";
    let m = parse_salesforce_xml(xml, false).unwrap();
    assert_eq!(m.profile, None);
    assert_eq!(m.permission_set, None);
}

#[test]
fn flow_is_noticed() {
    let m = parse_salesforce_xml("<Flow><label>My flow</label></Flow>", false).unwrap();
    assert_eq!(
        m.flow,
        Some(Flow { name: String::new(), label: None, process_type: None, active: false })
    );
    assert_eq!(m.label.as_deref(), Some("My flow"));
}

#[test]
fn length_must_be_a_number_that_fits() {
    let read = |text: &str| {
        let xml = format!("<fields><fullName>F</fullName><length>{}</length></fields>", text);
        parse_salesforce_xml(&xml, false).unwrap().fields[0].length
    };
    assert_eq!(read("0"), Some(0));
    assert_eq!(read("007"), Some(7));
    assert_eq!(read("4294967295"), Some(4294967295));
    assert_eq!(read("4294967296"), None);
    assert_eq!(read("99999999999999999999"), None);
    assert_eq!(read("-1"), None);
    assert_eq!(read("12a"), None);
    assert_eq!(read("+"), None);
    assert_eq!(read("1 2"), None);
}

#[test]
fn metadata_left_open_is_a_parse_error() {
    let xml = "<CustomObject><label>Accounts</label>";
    let err = parse_salesforce_xml(xml, false).unwrap_err();
    assert_eq!(err.position, xml.len() as u64);
    assert_eq!(err.message, "the document ends inside an element");
}

#[test]
fn malformed_metadata_is_a_parse_error() {
    let err = parse_salesforce_xml("<a><b></a>", false).unwrap_err();
    assert_eq!(err.position, 6);
    assert!(!err.message.is_empty());
}

#[test]
fn metadata_can_be_extracted_from_events() {
    let events = vec![
        XmlEvent::Start { name: "fields".to_string(), attrs: vec![] },
        XmlEvent::Start { name: "fullName".to_string(), attrs: vec![] },
        XmlEvent::Text("  F1  ".to_string()),
        XmlEvent::End { name: "fullName".to_string() },
        XmlEvent::CData("skipped".to_string()),
        XmlEvent::Empty { name: "required".to_string(), attrs: vec![] },
        XmlEvent::Text("true".to_string()),
        XmlEvent::End { name: "fields".to_string() },
        XmlEvent::Text("outside".to_string()),
    ];
    let m = extract_metadata(&events, false);
    assert_eq!(m.fields, vec![Field { required: true, ..field("F1") }]);
    assert_eq!(m.full_name, None);
    assert_eq!(extract_metadata(&[], true), SalesforceMetadata::default());
}

#[test]
fn toon_format_lists_what_is_there() {
    let m = parse_salesforce_xml(OBJECT, false).unwrap();
    assert_eq!(
        to_toon_format(&m),
        "object: Account\ntype: Object\nlabel: Accounts & more\n\
         \nfields:\n  name type required\n  Name__c Text Y\n  Size__c - N\n\
         \nvalidations:\n  name active\n  Rule1 Y\n\
         \nworkflows:\n  name active\n  Flow1 N\n\
         \nrecord_types:\n  name active\n  RT Y\n"
    );
    assert_eq!(to_toon_format(&SalesforceMetadata::default()), "");
}

#[test]
fn compact_format_is_one_line() {
    let m = parse_salesforce_xml(OBJECT, false).unwrap();
    assert_eq!(to_compact_format(&m), "obj:Account | type:Object | Name__c!:Text | Size__c:?");
    assert_eq!(to_compact_format(&SalesforceMetadata::default()), "");
    let only_type = SalesforceMetadata {
        object_type: Some("T".to_string()),
        ..SalesforceMetadata::default()
    };
    assert_eq!(to_compact_format(&only_type), "type:T");
}

#[test]
fn is_false_negates() {
    assert!(is_false(&false));
    assert!(!is_false(&true));
}
