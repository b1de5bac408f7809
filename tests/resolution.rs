use vrpc_reflection::defs::{FixedPointType, ServiceType};
use vrpc_reflection::descriptor_set::{resolve, DescriptorSet, ProtoFile, ResolveError};
use vrpc_reflection::raw::{
    FieldLabel, FieldType, RawEnum, RawEnumValue, RawField, RawFile, RawMessage, RawMethod,
    RawService, UnknownField, UnknownValue,
};

fn annotation(bytes: Vec<u8>) -> Vec<UnknownField> {
    vec![UnknownField { number: 1020, value: UnknownValue::LengthDelimited(bytes) }]
}

fn id_annotation(id: u8) -> Vec<UnknownField> {
    annotation(vec![0x08, id])
}

fn service_annotation(id: u8, kind: u8) -> Vec<UnknownField> {
    annotation(vec![0x08, id, 0x10, kind])
}

fn field(name: &str, number: i32, label: FieldLabel, field_type: FieldType, referenced: &str) -> RawField {
    RawField {
        name: name.to_string(),
        number,
        label,
        field_type,
        referenced_type: referenced.to_string(),
        options: vec![],
    }
}

fn message(name: &str, fields: Vec<RawField>, options: Vec<UnknownField>) -> RawMessage {
    RawMessage { name: name.to_string(), fields, options }
}

fn method(name: &str, input: &str, output: &str, options: Vec<UnknownField>) -> RawMethod {
    RawMethod {
        name: name.to_string(),
        input_type: input.to_string(),
        output_type: output.to_string(),
        options,
    }
}

fn file(name: &str, package: &str, enums: Vec<RawEnum>, messages: Vec<RawMessage>, services: Vec<RawService>) -> RawFile {
    RawFile { name: name.to_string(), package: package.to_string(), enums, messages, services }
}

/// The document that declares the well-known request and response types.
fn vrpc_file() -> RawFile {
    file(
        "vrpc.proto",
        "vrpc",
        vec![],
        vec![
            message("ReadParameterGroupRequest", vec![], vec![]),
            message("WriteParametersResponse", vec![], vec![]),
            message("EnableSignalStreaming", vec![], vec![]),
        ],
        vec![],
    )
}

fn write_request(name: &str, body_type: &str) -> RawMessage {
    message(
        name,
        vec![
            field("written_fields", 1, FieldLabel::Repeated, FieldType::UInt32, ""),
            field("body", 2, FieldLabel::Optional, FieldType::Message, body_type),
        ],
        vec![],
    )
}

fn gain_file(services: Vec<RawService>) -> RawFile {
    file(
        "pkg/gain.proto",
        "pkg",
        vec![],
        vec![
            message(
                "Gain",
                vec![field("value", 1, FieldLabel::Optional, FieldType::UInt32, "")],
                id_annotation(5),
            ),
            write_request("WriteGain", ".pkg.Gain"),
        ],
        services,
    )
}

fn gain_service(methods: Vec<RawMethod>) -> RawService {
    RawService { name: "GainService".to_string(), methods, options: service_annotation(3, 1) }
}

fn read_gain() -> RawMethod {
    method("ReadGain", ".vrpc.ReadParameterGroupRequest", ".pkg.Gain", id_annotation(1))
}

fn write_gain() -> RawMethod {
    method("WriteGain", ".pkg.WriteGain", ".vrpc.WriteParametersResponse", id_annotation(2))
}

fn proto_file(name: &str) -> ProtoFile {
    ProtoFile {
        file_name: name.to_string(),
        relative_dir: String::new(),
        relative_path: name.to_string(),
        absolute_path: format!("/protos/{name}"),
    }
}

#[test]
fn enum_member_loses_the_enum_prefix() {
    let e = RawEnum {
        name: "Color".to_string(),
        values: vec![
            RawEnumValue { name: "COLOR_RED".to_string(), number: 0 },
            RawEnumValue { name: "GREEN".to_string(), number: 1 },
        ],
    };
    let files = vec![file("c.proto", "pkg", vec![e], vec![], vec![])];
    let ds = resolve(vec![], &files).unwrap();
    let info = ds.enums.get(&".pkg.Color".to_string()).unwrap();
    assert_eq!(info.members[0].parsed_name, "RED");
    assert_eq!(info.members[0].name, "COLOR_RED");
    assert_eq!(info.members[1].parsed_name, "GREEN");
    assert_eq!(info.full_name, ".pkg.Color");
    let by_file = ds.enums_by_file.get(&"c.proto".to_string()).unwrap();
    assert_eq!(by_file.len(), 1);
}

#[test]
fn multi_word_enum_prefix_is_stripped() {
    let e = RawEnum {
        name: "MotorState".to_string(),
        values: vec![RawEnumValue { name: "MOTOR_STATE_IDLE".to_string(), number: 0 }],
    };
    let files = vec![file("m.proto", "", vec![e], vec![], vec![])];
    let ds = resolve(vec![], &files).unwrap();
    let info = ds.enums.get(&".MotorState".to_string()).unwrap();
    assert_eq!(info.members[0].parsed_name, "IDLE");
}

#[test]
fn matched_pair_gives_one_parameter_group() {
    let files = vec![vrpc_file(), gain_file(vec![gain_service(vec![read_gain(), write_gain()])])];
    let ds = resolve(vec![proto_file("pkg/gain.proto")], &files).unwrap();
    let svc = ds.services.get(&".pkg.GainService".to_string()).unwrap();
    assert_eq!(svc.id, 3);
    match &svc.svc_type {
        ServiceType::Parameters(p) => {
            assert_eq!(p.param_groups.len(), 1);
            let g = &p.param_groups[0];
            assert_eq!(g.write_msg_body.referenced_type, ".pkg.Gain");
            assert_eq!(g.write_msg_written_fields.name, "written_fields");
            assert_eq!(g.id, 5);
            assert_eq!(g.read_method.id, 1);
            assert_eq!(g.write_method.id, 2);
            assert_eq!(g.read_method.output_type.full_name, ".pkg.Gain");
            assert_eq!(g.write_method.input_type.full_name, ".pkg.WriteGain");
        },
        ServiceType::Default => panic!("a parameter service was expected"),
    }
    assert_eq!(svc.methods.len(), 2);
    assert_eq!(ds.proto_files.len(), 1);
    assert_eq!(ds.packages.get(&"pkg/gain.proto".to_string()).unwrap(), "pkg");
    let file_services = ds.services_by_file.get(&"pkg/gain.proto".to_string()).unwrap();
    assert_eq!(file_services.len(), 1);
}

#[test]
fn read_without_write_is_unmatched() {
    let mut f = gain_file(vec![]);
    f.messages.push(message("Orphan", vec![], id_annotation(6)));
    f.services.push(gain_service(vec![
        read_gain(),
        write_gain(),
        method("ReadOrphan", ".vrpc.ReadParameterGroupRequest", ".pkg.Orphan", id_annotation(4)),
    ]));
    let files = vec![vrpc_file(), f];
    match resolve(vec![], &files) {
        Err(ResolveError::UnmatchedParameterType { names }) => {
            assert_eq!(names, vec![".pkg.Orphan".to_string()]);
        },
        other => panic!("unexpected outcome: {:?}", other.map(|_| ())),
    }
}

#[test]
fn write_without_read_is_unmatched() {
    let mut f = gain_file(vec![]);
    f.messages.push(write_request("WriteOrphan", ".pkg.Orphan"));
    f.services.push(gain_service(vec![
        read_gain(),
        write_gain(),
        method("WriteOrphan", ".pkg.WriteOrphan", ".vrpc.WriteParametersResponse", id_annotation(4)),
    ]));
    let files = vec![vrpc_file(), f];
    match resolve(vec![], &files) {
        Err(ResolveError::UnmatchedParameterType { names }) => {
            assert_eq!(names, vec![".pkg.Orphan".to_string()]);
        },
        other => panic!("unexpected outcome: {:?}", other.map(|_| ())),
    }
}

#[test]
fn two_bitmask_fields_are_ambiguous() {
    let mut f = gain_file(vec![gain_service(vec![read_gain(), write_gain()])]);
    f.messages[1].fields.push(field("more_written", 3, FieldLabel::Repeated, FieldType::UInt32, ""));
    let files = vec![vrpc_file(), f];
    match resolve(vec![], &files) {
        Err(ResolveError::AmbiguousFieldRole { message }) => assert_eq!(message, ".pkg.WriteGain"),
        other => panic!("unexpected outcome: {:?}", other.map(|_| ())),
    }
}

#[test]
fn missing_body_field_is_ambiguous() {
    let mut f = gain_file(vec![gain_service(vec![read_gain(), write_gain()])]);
    f.messages[1].fields.pop();
    let files = vec![vrpc_file(), f];
    match resolve(vec![], &files) {
        Err(ResolveError::AmbiguousFieldRole { message }) => assert_eq!(message, ".pkg.WriteGain"),
        other => panic!("unexpected outcome: {:?}", other.map(|_| ())),
    }
}

#[test]
fn unannotated_service_is_dropped() {
    let plain = RawService {
        name: "Infra".to_string(),
        methods: vec![method("Ping", ".pkg.Gain", ".pkg.Gain", vec![])],
        options: vec![],
    };
    let files = vec![vrpc_file(), gain_file(vec![plain])];
    let ds = resolve(vec![], &files).unwrap();
    assert!(ds.services.get(&".pkg.Infra".to_string()).is_none());
    assert_eq!(ds.services.len(), 0);
    assert_eq!(ds.services_by_file.get(&"pkg/gain.proto".to_string()).unwrap().len(), 0);
}

#[test]
fn resolution_twice_gives_equal_models() {
    let files = vec![vrpc_file(), gain_file(vec![gain_service(vec![read_gain(), write_gain()])])];
    let first = resolve(vec![proto_file("pkg/gain.proto")], &files).unwrap();
    let second = resolve(vec![proto_file("pkg/gain.proto")], &files).unwrap();
    assert_eq!(first, second);
}

#[test]
fn unknown_message_type_is_reported() {
    let svc = RawService {
        name: "S".to_string(),
        methods: vec![method("Get", ".pkg.Missing", ".pkg.Gain", id_annotation(1))],
        options: service_annotation(1, 0),
    };
    let files = vec![vrpc_file(), gain_file(vec![svc])];
    match resolve(vec![], &files) {
        Err(ResolveError::UnknownMessageType { name }) => assert_eq!(name, ".pkg.Missing"),
        other => panic!("unexpected outcome: {:?}", other.map(|_| ())),
    }
}

#[test]
fn method_without_annotation_is_reported() {
    let svc = RawService {
        name: "S".to_string(),
        methods: vec![method("Get", ".pkg.Gain", ".pkg.Gain", vec![])],
        options: service_annotation(1, 0),
    };
    let files = vec![vrpc_file(), gain_file(vec![svc])];
    match resolve(vec![], &files) {
        Err(ResolveError::MissingMethodOptions { method }) => assert_eq!(method, ".pkg.S.Get"),
        other => panic!("unexpected outcome: {:?}", other.map(|_| ())),
    }
}

#[test]
fn parameter_message_without_annotation_is_reported() {
    let mut f = gain_file(vec![gain_service(vec![read_gain(), write_gain()])]);
    f.messages[0].options = vec![];
    let files = vec![vrpc_file(), f];
    match resolve(vec![], &files) {
        Err(ResolveError::MissingMessageOptions { message }) => assert_eq!(message, ".pkg.Gain"),
        other => panic!("unexpected outcome: {:?}", other.map(|_| ())),
    }
}

#[test]
fn malformed_field_annotation_is_reported() {
    let mut f = gain_file(vec![]);
    f.messages[0].fields[0].options = annotation(vec![0x12, 0x09]);
    let files = vec![vrpc_file(), f];
    match resolve(vec![], &files) {
        Err(ResolveError::Decode { node }) => assert_eq!(node, ".pkg.Gain.value"),
        other => panic!("unexpected outcome: {:?}", other.map(|_| ())),
    }
}

#[test]
fn signal_methods_are_left_out_of_the_methods() {
    let svc = RawService {
        name: "Signals".to_string(),
        methods: vec![
            method("Subscribe", ".vrpc.EnableSignalStreaming", ".pkg.Gain", vec![]),
            method("Get", ".pkg.Gain", ".pkg.Gain", id_annotation(8)),
        ],
        options: service_annotation(2, 0),
    };
    let files = vec![vrpc_file(), gain_file(vec![svc])];
    let ds = resolve(vec![], &files).unwrap();
    let s = ds.services.get(&".pkg.Signals".to_string()).unwrap();
    assert_eq!(s.methods.len(), 1);
    assert_eq!(s.methods.get(&"Get".to_string()).unwrap().id, 8);
    assert!(matches!(s.svc_type, ServiceType::Default));
}

#[test]
fn field_annotation_fills_unit_and_fixed_point() {
    let mut f = gain_file(vec![]);
    let mut payload = vec![0x0a, 0x06, 0x0a, 0x04, 0x08, 12, 0x10, 4];
    payload.extend([0x12, 0x02, b'd', b'B']);
    f.messages[0].fields[0].options = annotation(payload);
    let files = vec![vrpc_file(), f];
    let ds = resolve(vec![], &files).unwrap();
    let gain = ds.messages.get(&".pkg.Gain".to_string()).unwrap();
    let value = gain.fields.get(&"value".to_string()).unwrap();
    assert_eq!(value.fixed_point, Some(FixedPointType::UFix(12, 4)));
    assert_eq!(value.unit, Some("dB".to_string()));
    assert_eq!(value.description, None);
}

#[test]
fn later_declaration_with_the_same_name_wins() {
    let a = file("a.proto", "pkg", vec![], vec![message("M", vec![], id_annotation(1))], vec![]);
    let b = file(
        "b.proto",
        "pkg",
        vec![],
        vec![message("M", vec![field("x", 1, FieldLabel::Optional, FieldType::Int32, "")], vec![])],
        vec![],
    );
    let ds = resolve(vec![], &vec![a, b]).unwrap();
    assert_eq!(ds.messages.len(), 1);
    assert_eq!(ds.messages.get(&".pkg.M".to_string()).unwrap().fields.len(), 1);
    assert_eq!(ds.messages_by_file.len(), 2);
}

#[test]
fn failed_run_leaves_the_model_unchanged() {
    let mut ds = DescriptorSet::new();
    let svc = RawService {
        name: "S".to_string(),
        methods: vec![method("Get", ".pkg.Missing", ".pkg.Gain", id_annotation(1))],
        options: service_annotation(1, 0),
    };
    let files = vec![vrpc_file(), gain_file(vec![svc])];
    assert!(ds.process_descriptors(vec![proto_file("x.proto")], &files).is_err());
    assert_eq!(ds, DescriptorSet::new());
}
