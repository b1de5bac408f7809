//! The resolution engine: builds the cross-referenced model from raw descriptor trees in
//! passes (packages, enums, messages, services) and pairs the read and write methods of
//! parameter services.
use vstd::prelude::*;
use crate::annotations::{
    SERVICE_KIND_PARAMETERS, field_annotation, find_field_options, find_id_options,
    find_service_options, id_annotation, service_annotation,
};
use crate::defs::{
    EnumInfo, EnumInfoView, EnumMemberInfo, EnumMemberInfoView, FieldInfo, FieldInfoView,
    MethodInfo, MethodInfoView, MsgInfo, MsgInfoView, MsgRef, MsgRefView, ParameterGroup,
    ParameterGroupView, ParameterService, ServiceInfo, ServiceInfoView, ServiceType,
    ServiceTypeView, duplicate_vec, views,
};
use crate::name_map::{Duplicate, NameMap, entry_views, seq_get, seq_insert};
use crate::naming::{pascal_case_to_upper_snake_case, push_char, upper_snake_of};
use crate::raw::{
    FieldLabel, FieldType, RawEnum, RawEnumValue, RawField, RawFile, RawMessage, RawMethod,
    RawService, unknown_views,
};

verus! {

/// Entries of a name-keyed mapping, in view form.
pub type Entries<W> = Seq<(Seq<char>, W)>;

/// A document that was found under the scan root.
#[derive(Debug, PartialEq)]
pub struct ProtoFile {
    pub file_name: String,
    pub relative_dir: String,
    pub relative_path: String,
    pub absolute_path: String,
}

pub ghost struct ProtoFileView {
    pub file_name: Seq<char>,
    pub relative_dir: Seq<char>,
    pub relative_path: Seq<char>,
    pub absolute_path: Seq<char>,
}

impl View for ProtoFile {
    type V = ProtoFileView;

    open spec fn view(&self) -> ProtoFileView {
        ProtoFileView {
            file_name: self.file_name@,
            relative_dir: self.relative_dir@,
            relative_path: self.relative_path@,
            absolute_path: self.absolute_path@,
        }
    }
}

impl Duplicate for ProtoFile {
    fn duplicate(&self) -> (r: ProtoFile) {
        ProtoFile {
            file_name: self.file_name.clone(),
            relative_dir: self.relative_dir.clone(),
            relative_path: self.relative_path.clone(),
            absolute_path: self.absolute_path.clone(),
        }
    }
}

/// Why a resolution run failed; each names what has to be mended.
#[derive(Debug, PartialEq)]
pub enum ResolveError {
    /// The annotation of this node (a message, a field `message.field`, a service or a
    /// method `service.method`) is malformed.
    Decode { node: String },
    /// A method refers to this message type, which no document declares.
    UnknownMessageType { name: String },
    /// This method (`service.method`) carries no method annotation.
    MissingMethodOptions { method: String },
    /// This parameter message carries no message annotation.
    MissingMessageOptions { message: String },
    /// This write-request message has no single bitmask field or no single body field.
    AmbiguousFieldRole { message: String },
    /// These parameter types have a read method or a write method but not both.
    UnmatchedParameterType { names: Vec<String> },
}

pub ghost enum ResolveErrorView {
    Decode(Seq<char>),
    UnknownMessageType(Seq<char>),
    MissingMethodOptions(Seq<char>),
    MissingMessageOptions(Seq<char>),
    AmbiguousFieldRole(Seq<char>),
    UnmatchedParameterType(Seq<Seq<char>>),
}

impl View for ResolveError {
    type V = ResolveErrorView;

    open spec fn view(&self) -> ResolveErrorView {
        match self {
            ResolveError::Decode { node } => ResolveErrorView::Decode(node@),
            ResolveError::UnknownMessageType { name } => ResolveErrorView::UnknownMessageType(
                name@,
            ),
            ResolveError::MissingMethodOptions { method } => ResolveErrorView::MissingMethodOptions(
                method@,
            ),
            ResolveError::MissingMessageOptions { message } =>
                ResolveErrorView::MissingMessageOptions(message@),
            ResolveError::AmbiguousFieldRole { message } => ResolveErrorView::AmbiguousFieldRole(
                message@,
            ),
            ResolveError::UnmatchedParameterType { names } =>
                ResolveErrorView::UnmatchedParameterType(views(names@)),
        }
    }
}

/// The resolved model: messages, enums and services by fully-qualified name, the same
/// partitioned by document name, and each document's package.
///
/// Declarations that share a fully-qualified name are no error: the later one replaces the
/// earlier one. Methods that subscribe to a signal are not kept in the model.
#[derive(Debug, PartialEq)]
pub struct DescriptorSet {
    pub packages: NameMap<String>,
    pub proto_files: Vec<ProtoFile>,
    pub messages: NameMap<MsgInfo>,
    pub services: NameMap<ServiceInfo>,
    pub enums: NameMap<EnumInfo>,
    pub messages_by_file: NameMap<NameMap<MsgInfo>>,
    pub services_by_file: NameMap<NameMap<ServiceInfo>>,
    pub enums_by_file: NameMap<NameMap<EnumInfo>>,
}

pub ghost struct DescriptorSetView {
    pub packages: Entries<Seq<char>>,
    pub proto_files: Seq<ProtoFileView>,
    pub messages: Entries<MsgInfoView>,
    pub services: Entries<ServiceInfoView>,
    pub enums: Entries<EnumInfoView>,
    pub messages_by_file: Entries<Entries<MsgInfoView>>,
    pub services_by_file: Entries<Entries<ServiceInfoView>>,
    pub enums_by_file: Entries<Entries<EnumInfoView>>,
}

impl View for DescriptorSet {
    type V = DescriptorSetView;

    open spec fn view(&self) -> DescriptorSetView {
        DescriptorSetView {
            packages: self.packages@,
            proto_files: views(self.proto_files@),
            messages: self.messages@,
            services: self.services@,
            enums: self.enums@,
            messages_by_file: self.messages_by_file@,
            services_by_file: self.services_by_file@,
            enums_by_file: self.enums_by_file@,
        }
    }
}

// ----- names

/// The fully-qualified name of a declaration in a package: `.pkg.Name`, or `.Name` in
/// the empty package.
pub open spec fn full_name_spec(pkg: Seq<char>, name: Seq<char>) -> Seq<char> {
    if pkg.len() == 0 {
        seq!['.'] + name
    } else {
        seq!['.'] + pkg + seq!['.'] + name
    }
}

/// `a.b`.
pub open spec fn dotted(a: Seq<char>, b: Seq<char>) -> Seq<char> {
    a + seq!['.'] + b
}

/// The request type of a method that reads a parameter group.
pub open spec fn read_request_name() -> Seq<char> {
    ".vrpc.ReadParameterGroupRequest"@
}

/// The response type of a method that writes parameters.
pub open spec fn write_response_name() -> Seq<char> {
    ".vrpc.WriteParametersResponse"@
}

/// The request type of a method that subscribes to a signal.
pub open spec fn signal_request_name() -> Seq<char> {
    ".vrpc.EnableSignalStreaming"@
}

// ----- enums

/// `s` without `p` at its start, where it starts with `p`.
pub open spec fn strip_prefix(s: Seq<char>, p: Seq<char>) -> Seq<char> {
    if p.len() <= s.len() && s.take(p.len() as int) == p {
        s.skip(p.len() as int)
    } else {
        s
    }
}

/// The prefix that the members of an enum carry: its name in upper snake case and `_`.
pub open spec fn member_prefix(enum_name: Seq<char>) -> Seq<char> {
    upper_snake_of(enum_name) + seq!['_']
}

pub open spec fn member_view(pkg: Seq<char>, enum_name: Seq<char>, m: RawEnumValue) -> EnumMemberInfoView {
    EnumMemberInfoView {
        name: m.name@,
        number: m.number,
        package: pkg,
        parsed_name: strip_prefix(m.name@, member_prefix(enum_name)),
    }
}

pub open spec fn enum_view(pkg: Seq<char>, e: RawEnum) -> EnumInfoView {
    EnumInfoView {
        name: e.name@,
        package: pkg,
        full_name: full_name_spec(pkg, e.name@),
        members: e.values@.map_values(|m: RawEnumValue| member_view(pkg, e.name@, m)),
    }
}

/// `acc` with the enums of a document put under their full names, in order.
pub open spec fn insert_enums(acc: Entries<EnumInfoView>, pkg: Seq<char>, es: Seq<RawEnum>) -> Entries<
    EnumInfoView,
>
    decreases es.len(),
{
    if es.len() == 0 {
        acc
    } else {
        let v = enum_view(pkg, es.last());
        seq_insert(insert_enums(acc, pkg, es.drop_last()), v.full_name, v)
    }
}

// ----- messages

pub open spec fn field_view(msg_full: Seq<char>, f: RawField) -> Result<FieldInfoView, ResolveErrorView> {
    match field_annotation(unknown_views(f.options@)) {
        Err(_) => Err(ResolveErrorView::Decode(dotted(msg_full, f.name@))),
        Ok(o) => Ok(
            FieldInfoView {
                id: f.number,
                name: f.name@,
                label: f.label,
                field_type: f.field_type,
                referenced_type: f.referenced_type@,
                fixed_point: match o {
                    Some(x) => x.fixed_point,
                    None => None,
                },
                unit: match o {
                    Some(x) => if x.unit.len() > 0 {
                        Some(x.unit)
                    } else {
                        None
                    },
                    None => None,
                },
                description: match o {
                    Some(x) => if x.description.len() > 0 {
                        Some(x.description)
                    } else {
                        None
                    },
                    None => None,
                },
            },
        ),
    }
}

/// The fields of a message by name; the first field whose annotation is malformed fails.
pub open spec fn fields_view(msg_full: Seq<char>, fs: Seq<RawField>) -> Result<
    Entries<FieldInfoView>,
    ResolveErrorView,
>
    decreases fs.len(),
{
    if fs.len() == 0 {
        Ok(seq![])
    } else {
        match fields_view(msg_full, fs.drop_last()) {
            Err(e) => Err(e),
            Ok(a) => match field_view(msg_full, fs.last()) {
                Err(e) => Err(e),
                Ok(v) => Ok(seq_insert(a, v.name, v)),
            },
        }
    }
}

pub open spec fn msg_view(pkg: Seq<char>, m: RawMessage) -> Result<MsgInfoView, ResolveErrorView> {
    let full = full_name_spec(pkg, m.name@);
    match fields_view(full, m.fields@) {
        Err(e) => Err(e),
        Ok(fs) => Ok(
            MsgInfoView {
                name: m.name@,
                package: pkg,
                full_name: full,
                fields: fs,
                options: unknown_views(m.options@),
            },
        ),
    }
}

/// The messages of a document in order; the first malformed one fails.
pub open spec fn msg_views(pkg: Seq<char>, ms: Seq<RawMessage>) -> Result<
    Seq<MsgInfoView>,
    ResolveErrorView,
>
    decreases ms.len(),
{
    if ms.len() == 0 {
        Ok(seq![])
    } else {
        match msg_views(pkg, ms.drop_last()) {
            Err(e) => Err(e),
            Ok(a) => match msg_view(pkg, ms.last()) {
                Err(e) => Err(e),
                Ok(v) => Ok(a.push(v)),
            },
        }
    }
}

/// `acc` with the messages put under their full names, in order.
pub open spec fn insert_msgs(acc: Entries<MsgInfoView>, vs: Seq<MsgInfoView>) -> Entries<MsgInfoView>
    decreases vs.len(),
{
    if vs.len() == 0 {
        acc
    } else {
        seq_insert(insert_msgs(acc, vs.drop_last()), vs.last().full_name, vs.last())
    }
}

// ----- methods

pub open spec fn ref_view(m: MsgInfoView) -> MsgRefView {
    MsgRefView { name: m.name, package: m.package, full_name: m.full_name }
}

pub open spec fn method_view(id: u32, m: RawMethod, input: MsgInfoView, output: MsgInfoView) -> MethodInfoView {
    MethodInfoView {
        id,
        name: m.name@,
        input_type: ref_view(input),
        output_type: ref_view(output),
    }
}

/// The input and output messages of a method; an unknown one fails, the input first.
pub open spec fn method_types(msgs: Entries<MsgInfoView>, m: RawMethod) -> Result<
    (MsgInfoView, MsgInfoView),
    ResolveErrorView,
> {
    match seq_get(msgs, m.input_type@) {
        None => Err(ResolveErrorView::UnknownMessageType(m.input_type@)),
        Some(i) => match seq_get(msgs, m.output_type@) {
            None => Err(ResolveErrorView::UnknownMessageType(m.output_type@)),
            Some(o) => Ok((i, o)),
        },
    }
}

/// The ordinary methods of a service by name: signal subscriptions are left out, and every
/// other method must carry a method annotation.
pub open spec fn methods_view(msgs: Entries<MsgInfoView>, svc_full: Seq<char>, ms: Seq<RawMethod>) -> Result<
    Entries<MethodInfoView>,
    ResolveErrorView,
>
    decreases ms.len(),
{
    if ms.len() == 0 {
        Ok(seq![])
    } else {
        match methods_view(msgs, svc_full, ms.drop_last()) {
            Err(e) => Err(e),
            Ok(a) => {
                let m = ms.last();
                match method_types(msgs, m) {
                    Err(e) => Err(e),
                    Ok((i, o)) => if i.full_name == signal_request_name() {
                        Ok(a)
                    } else {
                        match id_annotation(unknown_views(m.options@)) {
                            Err(_) => Err(ResolveErrorView::Decode(dotted(svc_full, m.name@))),
                            Ok(None) => Err(
                                ResolveErrorView::MissingMethodOptions(dotted(svc_full, m.name@)),
                            ),
                            Ok(Some(id)) => Ok(seq_insert(a, m.name@, method_view(id, m, i, o))),
                        }
                    },
                }
            },
        }
    }
}

// ----- parameter pairing

/// A read candidate: the method's position in the service and its two messages.
pub ghost struct ReadCandidate {
    pub method: int,
    pub input: MsgInfoView,
    pub output: MsgInfoView,
}

/// A write candidate: the method's position, its two messages, and the bitmask and body
/// fields of its request.
pub ghost struct WriteCandidate {
    pub method: int,
    pub input: MsgInfoView,
    pub output: MsgInfoView,
    pub bitmask: FieldInfoView,
    pub body: FieldInfoView,
}

/// A field is a written-fields bitmask: repeated and of type `uint32`.
pub open spec fn is_bitmask(f: FieldInfoView) -> bool {
    f.label == FieldLabel::Repeated && f.field_type == FieldType::UInt32
}

/// A field is a body: of message type.
pub open spec fn is_body(f: FieldInfoView) -> bool {
    f.field_type == FieldType::Message
}

/// The fields that are bitmasks (`bitmask`) or bodies (`!bitmask`), in order.
pub open spec fn role_fields(fs: Entries<FieldInfoView>, bitmask: bool) -> Seq<FieldInfoView>
    decreases fs.len(),
{
    if fs.len() == 0 {
        seq![]
    } else {
        let f = fs.last().1;
        let rest = role_fields(fs.drop_last(), bitmask);
        if (bitmask && is_bitmask(f)) || (!bitmask && is_body(f)) {
            rest.push(f)
        } else {
            rest
        }
    }
}

/// Read and write candidates of the first `k` methods: read candidates keyed by their
/// output message, write candidates by the type of their body field.
pub open spec fn classify(msgs: Entries<MsgInfoView>, ms: Seq<RawMethod>, k: int) -> Result<
    (Entries<ReadCandidate>, Entries<WriteCandidate>),
    ResolveErrorView,
>
    decreases k,
{
    if k <= 0 {
        Ok((seq![], seq![]))
    } else {
        match classify(msgs, ms, k - 1) {
            Err(e) => Err(e),
            Ok((reads, writes)) => match method_types(msgs, ms[k - 1]) {
                Err(e) => Err(e),
                Ok((i, o)) => if i.full_name == read_request_name() {
                    Ok(
                        (
                            seq_insert(
                                reads,
                                o.full_name,
                                ReadCandidate { method: k - 1, input: i, output: o },
                            ),
                            writes,
                        ),
                    )
                } else if o.full_name == write_response_name() {
                    let bm = role_fields(i.fields, true);
                    let bd = role_fields(i.fields, false);
                    if bm.len() != 1 || bd.len() != 1 {
                        Err(ResolveErrorView::AmbiguousFieldRole(i.full_name))
                    } else {
                        Ok(
                            (
                                reads,
                                seq_insert(
                                    writes,
                                    bd[0].referenced_type,
                                    WriteCandidate {
                                        method: k - 1,
                                        input: i,
                                        output: o,
                                        bitmask: bm[0],
                                        body: bd[0],
                                    },
                                ),
                            ),
                        )
                    }
                } else {
                    Ok((reads, writes))
                },
            },
        }
    }
}

/// The keys of `a` that `b` lacks, in order.
pub open spec fn missing_keys<W1, W2>(a: Entries<W1>, b: Entries<W2>) -> Seq<Seq<char>>
    decreases a.len(),
{
    if a.len() == 0 {
        seq![]
    } else {
        let rest = missing_keys(a.drop_last(), b);
        if seq_get(b, a.last().0) is None {
            rest.push(a.last().0)
        } else {
            rest
        }
    }
}

/// The parameter types with a read method and no write method, then those with a write
/// method and no read method.
pub open spec fn unmatched_types(reads: Entries<ReadCandidate>, writes: Entries<WriteCandidate>) -> Seq<
    Seq<char>,
> {
    missing_keys(reads, writes) + missing_keys(writes, reads)
}

/// The parameter group of a matched pair: both methods and the parameter message must
/// carry annotations, checked in the order read method, write method, message.
pub open spec fn group_view(
    svc_full: Seq<char>,
    ms: Seq<RawMethod>,
    r: ReadCandidate,
    w: WriteCandidate,
) -> Result<ParameterGroupView, ResolveErrorView> {
    let rm = ms[r.method];
    let wm = ms[w.method];
    match (
        id_annotation(unknown_views(rm.options@)),
        id_annotation(unknown_views(wm.options@)),
        id_annotation(r.output.options),
    ) {
        (Err(_), _, _) => Err(ResolveErrorView::Decode(dotted(svc_full, rm.name@))),
        (_, Err(_), _) => Err(ResolveErrorView::Decode(dotted(svc_full, wm.name@))),
        (_, _, Err(_)) => Err(ResolveErrorView::Decode(r.output.full_name)),
        (Ok(None), _, _) => Err(ResolveErrorView::MissingMethodOptions(dotted(svc_full, rm.name@))),
        (_, Ok(None), _) => Err(ResolveErrorView::MissingMethodOptions(dotted(svc_full, wm.name@))),
        (_, _, Ok(None)) => Err(ResolveErrorView::MissingMessageOptions(r.output.full_name)),
        (Ok(Some(rid)), Ok(Some(wid)), Ok(Some(pid))) => Ok(
            ParameterGroupView {
                id: pid,
                read_method: method_view(rid, rm, r.input, r.output),
                write_method: method_view(wid, wm, w.input, w.output),
                write_msg_written_fields: w.bitmask,
                write_msg_body: w.body,
            },
        ),
    }
}

/// The groups of the first `k` read candidates, each with its write candidate.
pub open spec fn groups_view(
    svc_full: Seq<char>,
    ms: Seq<RawMethod>,
    reads: Entries<ReadCandidate>,
    writes: Entries<WriteCandidate>,
    k: int,
) -> Result<Seq<ParameterGroupView>, ResolveErrorView>
    decreases k,
{
    if k <= 0 {
        Ok(seq![])
    } else {
        match groups_view(svc_full, ms, reads, writes, k - 1) {
            Err(e) => Err(e),
            Ok(gs) => match seq_get(writes, reads[k - 1].0) {
                None => Err(ResolveErrorView::UnmatchedParameterType(seq![reads[k - 1].0])),
                Some(w) => match group_view(svc_full, ms, reads[k - 1].1, w) {
                    Err(e) => Err(e),
                    Ok(g) => Ok(gs.push(g)),
                },
            },
        }
    }
}

/// The parameter groups of a parameter service: one for each parameter message that has
/// both a read method and a write method, in the order of the read methods.
pub open spec fn parameter_service_view(
    msgs: Entries<MsgInfoView>,
    svc_full: Seq<char>,
    ms: Seq<RawMethod>,
) -> Result<Seq<ParameterGroupView>, ResolveErrorView> {
    match classify(msgs, ms, ms.len() as int) {
        Err(e) => Err(e),
        Ok((reads, writes)) => if unmatched_types(reads, writes).len() > 0 {
            Err(ResolveErrorView::UnmatchedParameterType(unmatched_types(reads, writes)))
        } else {
            groups_view(svc_full, ms, reads, writes, reads.len() as int)
        },
    }
}

// ----- services

/// A service: absent where it carries no service annotation.
pub open spec fn service_view(msgs: Entries<MsgInfoView>, pkg: Seq<char>, s: RawService) -> Result<
    Option<ServiceInfoView>,
    ResolveErrorView,
> {
    let full = full_name_spec(pkg, s.name@);
    match service_annotation(unknown_views(s.options@)) {
        Err(_) => Err(ResolveErrorView::Decode(full)),
        Ok(None) => Ok(None),
        Ok(Some(o)) => {
            let st = if o.kind == SERVICE_KIND_PARAMETERS {
                match parameter_service_view(msgs, full, s.methods@) {
                    Err(e) => Err(e),
                    Ok(gs) => Ok(ServiceTypeView::Parameters(gs)),
                }
            } else {
                Ok(ServiceTypeView::Default)
            };
            match st {
                Err(e) => Err(e),
                Ok(st) => match methods_view(msgs, full, s.methods@) {
                    Err(e) => Err(e),
                    Ok(methods) => Ok(
                        Some(
                            ServiceInfoView {
                                id: o.id,
                                identifier: o.identifier,
                                svc_type: st,
                                name: s.name@,
                                display_name: o.display_name,
                                full_name: full,
                                methods,
                            },
                        ),
                    ),
                },
            }
        },
    }
}

/// The annotated services of a document, in order.
pub open spec fn service_views(msgs: Entries<MsgInfoView>, pkg: Seq<char>, ss: Seq<RawService>) -> Result<
    Seq<ServiceInfoView>,
    ResolveErrorView,
>
    decreases ss.len(),
{
    if ss.len() == 0 {
        Ok(seq![])
    } else {
        match service_views(msgs, pkg, ss.drop_last()) {
            Err(e) => Err(e),
            Ok(a) => match service_view(msgs, pkg, ss.last()) {
                Err(e) => Err(e),
                Ok(None) => Ok(a),
                Ok(Some(v)) => Ok(a.push(v)),
            },
        }
    }
}

/// `acc` with the services put under their full names, in order.
pub open spec fn insert_services(acc: Entries<ServiceInfoView>, vs: Seq<ServiceInfoView>) -> Entries<
    ServiceInfoView,
>
    decreases vs.len(),
{
    if vs.len() == 0 {
        acc
    } else {
        seq_insert(insert_services(acc, vs.drop_last()), vs.last().full_name, vs.last())
    }
}

// ----- the passes

/// The package pass: each document's package under its name.
pub open spec fn package_pass(acc: Entries<Seq<char>>, files: Seq<RawFile>) -> Entries<Seq<char>>
    decreases files.len(),
{
    if files.len() == 0 {
        acc
    } else {
        let f = files.last();
        seq_insert(package_pass(acc, files.drop_last()), f.name@, f.package@)
    }
}

/// The enum pass: all enums by full name, and each document's enums under its name.
pub open spec fn enum_pass(
    g: Entries<EnumInfoView>,
    b: Entries<Entries<EnumInfoView>>,
    files: Seq<RawFile>,
) -> (Entries<EnumInfoView>, Entries<Entries<EnumInfoView>>)
    decreases files.len(),
{
    if files.len() == 0 {
        (g, b)
    } else {
        let (g1, b1) = enum_pass(g, b, files.drop_last());
        let f = files.last();
        (
            insert_enums(g1, f.package@, f.enums@),
            seq_insert(b1, f.name@, insert_enums(seq![], f.package@, f.enums@)),
        )
    }
}

/// The message pass: all messages by full name, and each document's messages under its
/// name; the first malformed message fails.
pub open spec fn message_pass(
    g: Entries<MsgInfoView>,
    b: Entries<Entries<MsgInfoView>>,
    files: Seq<RawFile>,
) -> Result<(Entries<MsgInfoView>, Entries<Entries<MsgInfoView>>), ResolveErrorView>
    decreases files.len(),
{
    if files.len() == 0 {
        Ok((g, b))
    } else {
        match message_pass(g, b, files.drop_last()) {
            Err(e) => Err(e),
            Ok((g1, b1)) => {
                let f = files.last();
                match msg_views(f.package@, f.messages@) {
                    Err(e) => Err(e),
                    Ok(vs) => Ok((insert_msgs(g1, vs), seq_insert(b1, f.name@, insert_msgs(seq![], vs)))),
                }
            },
        }
    }
}

/// The service pass, against all messages: annotated services by full name, and each
/// document's annotated services under its name.
pub open spec fn service_pass(
    msgs: Entries<MsgInfoView>,
    g: Entries<ServiceInfoView>,
    b: Entries<Entries<ServiceInfoView>>,
    files: Seq<RawFile>,
) -> Result<(Entries<ServiceInfoView>, Entries<Entries<ServiceInfoView>>), ResolveErrorView>
    decreases files.len(),
{
    if files.len() == 0 {
        Ok((g, b))
    } else {
        match service_pass(msgs, g, b, files.drop_last()) {
            Err(e) => Err(e),
            Ok((g1, b1)) => {
                let f = files.last();
                match service_views(msgs, f.package@, f.services@) {
                    Err(e) => Err(e),
                    Ok(vs) => Ok(
                        (insert_services(g1, vs), seq_insert(b1, f.name@, insert_services(seq![], vs))),
                    ),
                }
            },
        }
    }
}

/// The model that resolving `files` on top of `base` gives, with `found` added to the
/// discovered documents: packages, then enums, then messages, then services.
pub open spec fn resolve_spec(
    base: DescriptorSetView,
    found: Seq<ProtoFileView>,
    files: Seq<RawFile>,
) -> Result<DescriptorSetView, ResolveErrorView> {
    let (enums, enums_by_file) = enum_pass(base.enums, base.enums_by_file, files);
    match message_pass(base.messages, base.messages_by_file, files) {
        Err(e) => Err(e),
        Ok((messages, messages_by_file)) => match service_pass(
            messages,
            base.services,
            base.services_by_file,
            files,
        ) {
            Err(e) => Err(e),
            Ok((services, services_by_file)) => Ok(
                DescriptorSetView {
                    packages: package_pass(base.packages, files),
                    proto_files: base.proto_files + found,
                    messages,
                    services,
                    enums,
                    messages_by_file,
                    services_by_file,
                    enums_by_file,
                },
            ),
        },
    }
}

// ----- executable resolution

/// `.pkg.name`, or `.name` in the empty package.
fn full_name(pkg: &String, name: &String) -> (r: String)
    ensures
        r@ == full_name_spec(pkg@, name@),
{
    let mut out = String::new();
    push_char(&mut out, '.');
    if pkg.as_str().unicode_len() > 0 {
        out.append(pkg.as_str());
        push_char(&mut out, '.');
    }
    out.append(name.as_str());
    proof {
        if pkg@.len() == 0 {
            assert(out@ =~= full_name_spec(pkg@, name@));
        } else {
            assert(out@ =~= full_name_spec(pkg@, name@));
        }
    }
    out
}

/// `a.b`.
fn dotted_name(a: &String, b: &String) -> (r: String)
    ensures
        r@ == dotted(a@, b@),
{
    let mut out = a.clone();
    push_char(&mut out, '.');
    out.append(b.as_str());
    assert(out@ =~= dotted(a@, b@));
    out
}

/// Looks up the input and output messages of a method by full name.
fn lookup_types<'a>(msgs: &'a NameMap<MsgInfo>, m: &RawMethod) -> (r: Result<
    (&'a MsgInfo, &'a MsgInfo),
    ResolveError,
>)
    ensures
        match method_types(msgs@, *m) {
            Ok((i, o)) => r matches Ok((a, b)) && a@ == i && b@ == o,
            Err(e) => r matches Err(x) && x@ == e,
        },
{
    let input = match msgs.get(&m.input_type) {
        Some(x) => x,
        None => {
            return Err(ResolveError::UnknownMessageType { name: m.input_type.clone() });
        },
    };
    let output = match msgs.get(&m.output_type) {
        Some(x) => x,
        None => {
            return Err(ResolveError::UnknownMessageType { name: m.output_type.clone() });
        },
    };
    Ok((input, output))
}

fn msg_ref(m: &MsgInfo) -> (r: MsgRef)
    ensures
        r@ == ref_view(m@),
{
    MsgRef { name: m.name.clone(), package: m.package.clone(), full_name: m.full_name.clone() }
}

fn make_method_info(id: u32, m: &RawMethod, input: &MsgInfo, output: &MsgInfo) -> (r: MethodInfo)
    ensures
        r@ == method_view(id, *m, input@, output@),
{
    MethodInfo {
        id,
        name: m.name.clone(),
        input_type: msg_ref(input),
        output_type: msg_ref(output),
    }
}

/// Copies of the fields that are bitmasks (`bitmask`) or bodies (`!bitmask`), in order.
fn role_fields_of(fields: &NameMap<FieldInfo>, bitmask: bool) -> (r: Vec<FieldInfo>)
    ensures
        views(r@) == role_fields(fields@, bitmask),
{
    let es = fields.entries();
    let ghost ev = fields@;
    let mut r: Vec<FieldInfo> = Vec::new();
    let mut i: usize = 0;
    while i < es.len()
        invariant
            entry_views(es@) == ev,
            ev == fields@,
            i <= es@.len(),
            views(r@) == role_fields(ev.take(i as int), bitmask),
        decreases es@.len() - i,
    {
        let f = &es[i].1;
        proof {
            assert(ev.take(i + 1).drop_last() =~= ev.take(i as int));
            assert(ev.take(i + 1).last().1 == f@);
        }
        let ghost before = r@;
        let hit = if bitmask {
            f.label == FieldLabel::Repeated && f.field_type == FieldType::UInt32
        } else {
            f.field_type == FieldType::Message
        };
        if hit {
            r.push(f.duplicate());
            assert(views(r@) =~= views(before).push(f@));
        }
        i = i + 1;
    }
    assert(ev.take(i as int) =~= ev);
    r
}

/// A method that reads a parameter group, with its messages.
struct ReadMethod {
    method: usize,
    input_type: MsgInfo,
    output_type: MsgInfo,
}

impl View for ReadMethod {
    type V = ReadCandidate;

    closed spec fn view(&self) -> ReadCandidate {
        ReadCandidate {
            method: self.method as int,
            input: self.input_type@,
            output: self.output_type@,
        }
    }
}

/// A method that writes parameters, with its messages and the roles of its request's
/// fields.
struct WriteMethod {
    method: usize,
    input_type: MsgInfo,
    output_type: MsgInfo,
    written_fields_field: FieldInfo,
    body_field: FieldInfo,
}

impl View for WriteMethod {
    type V = WriteCandidate;

    closed spec fn view(&self) -> WriteCandidate {
        WriteCandidate {
            method: self.method as int,
            input: self.input_type@,
            output: self.output_type@,
            bitmask: self.written_fields_field@,
            body: self.body_field@,
        }
    }
}

/// Sorts the methods of a parameter service into read and write candidates.
fn classify_methods(msgs: &NameMap<MsgInfo>, ms: &Vec<RawMethod>) -> (r: Result<
    (NameMap<ReadMethod>, NameMap<WriteMethod>),
    ResolveError,
>)
    ensures
        match classify(msgs@, ms@, ms@.len() as int) {
            Ok((reads, writes)) => r matches Ok((a, b)) && a@ == reads && b@ == writes,
            Err(e) => r matches Err(x) && x@ == e,
        },
{
    let read_request = String::from_str(".vrpc.ReadParameterGroupRequest");
    let write_response = String::from_str(".vrpc.WriteParametersResponse");
    let mut reads: NameMap<ReadMethod> = NameMap::new();
    let mut writes: NameMap<WriteMethod> = NameMap::new();
    let mut k: usize = 0;
    while k < ms.len()
        invariant
            k <= ms@.len(),
            read_request@ == read_request_name(),
            write_response@ == write_response_name(),
            classify(msgs@, ms@, k as int) == Ok::<
                (Entries<ReadCandidate>, Entries<WriteCandidate>),
                ResolveErrorView,
            >((reads@, writes@)),
        decreases ms@.len() - k,
    {
        let m = &ms[k];
        let (input, output) = match lookup_types(msgs, m) {
            Ok(x) => x,
            Err(e) => {
                proof {
                    lemma_classify_fails(msgs@, ms@, k as int + 1);
                }
                return Err(e);
            },
        };
        if input.full_name == read_request {
            reads.insert(
                output.full_name.clone(),
                ReadMethod { method: k, input_type: input.duplicate(), output_type: output.duplicate() },
            );
        } else if output.full_name == write_response {
            let bm = role_fields_of(&input.fields, true);
            let bd = role_fields_of(&input.fields, false);
            if bm.len() != 1 || bd.len() != 1 {
                proof {
                    lemma_classify_fails(msgs@, ms@, k as int + 1);
                }
                return Err(ResolveError::AmbiguousFieldRole { message: input.full_name.clone() });
            }
            proof {
                assert(views(bm@)[0] == bm@[0]@);
                assert(views(bd@)[0] == bd@[0]@);
            }
            writes.insert(
                bd[0].referenced_type.clone(),
                WriteMethod {
                    method: k,
                    input_type: input.duplicate(),
                    output_type: output.duplicate(),
                    written_fields_field: bm[0].duplicate(),
                    body_field: bd[0].duplicate(),
                },
            );
        }
        k = k + 1;
    }
    Ok((reads, writes))
}

proof fn lemma_classify_fails(msgs: Entries<MsgInfoView>, ms: Seq<RawMethod>, k: int)
    requires
        0 <= k <= ms.len(),
        classify(msgs, ms, k) is Err,
    ensures
        classify(msgs, ms, ms.len() as int) == classify(msgs, ms, k),
    decreases ms.len() - k,
{
    if k < ms.len() {
        lemma_classify_fails(msgs, ms, k + 1);
    }
}

/// The keys of `a` that `b` lacks, in order.
fn missing_keys_of<A: View, B: View>(a: &NameMap<A>, b: &NameMap<B>) -> (r: Vec<String>)
    ensures
        views(r@) == missing_keys(a@, b@),
{
    let es = a.entries();
    let ghost av = a@;
    let mut r: Vec<String> = Vec::new();
    let mut i: usize = 0;
    while i < es.len()
        invariant
            entry_views(es@) == av,
            av == a@,
            i <= es@.len(),
            views(r@) == missing_keys(av.take(i as int), b@),
        decreases es@.len() - i,
    {
        let k = &es[i].0;
        proof {
            assert(av.take(i + 1).drop_last() =~= av.take(i as int));
            assert(av.take(i + 1).last().0 == k@);
        }
        let ghost before = r@;
        if b.get(k).is_none() {
            r.push(k.clone());
            assert(views(r@) =~= views(before).push(k@));
        }
        i = i + 1;
    }
    assert(av.take(i as int) =~= av);
    r
}

/// The group of a matched read and write pair.
fn make_group(svc_full: &String, ms: &Vec<RawMethod>, mr: &ReadMethod, mw: &WriteMethod) -> (r: Result<
    ParameterGroup,
    ResolveError,
>)
    requires
        mr@.method < ms@.len(),
        mw@.method < ms@.len(),
    ensures
        match group_view(svc_full@, ms@, mr@, mw@) {
            Ok(g) => r matches Ok(x) && x@ == g,
            Err(e) => r matches Err(x) && x@ == e,
        },
{
    let rm = &ms[mr.method];
    let wm = &ms[mw.method];
    let r_opts = match find_id_options(&rm.options) {
        Ok(x) => x,
        Err(_) => {
            return Err(ResolveError::Decode { node: dotted_name(svc_full, &rm.name) });
        },
    };
    let w_opts = match find_id_options(&wm.options) {
        Ok(x) => x,
        Err(_) => {
            return Err(ResolveError::Decode { node: dotted_name(svc_full, &wm.name) });
        },
    };
    let p_opts = match find_id_options(&mr.output_type.options) {
        Ok(x) => x,
        Err(_) => {
            return Err(ResolveError::Decode { node: mr.output_type.full_name.clone() });
        },
    };
    match (r_opts, w_opts, p_opts) {
        (None, _, _) => Err(ResolveError::MissingMethodOptions { method: dotted_name(svc_full, &rm.name) }),
        (_, None, _) => Err(ResolveError::MissingMethodOptions { method: dotted_name(svc_full, &wm.name) }),
        (_, _, None) => Err(ResolveError::MissingMessageOptions { message: mr.output_type.full_name.clone() }),
        (Some(rid), Some(wid), Some(pid)) => Ok(
            ParameterGroup {
                id: pid,
                read_method: make_method_info(rid, rm, &mr.input_type, &mr.output_type),
                write_method: make_method_info(wid, wm, &mw.input_type, &mw.output_type),
                write_msg_written_fields: mw.written_fields_field.duplicate(),
                write_msg_body: mw.body_field.duplicate(),
            },
        ),
    }
}

/// Every read candidate's method stands before `k`.
pub open spec fn reads_below(es: Entries<ReadCandidate>, k: int) -> bool {
    forall|i: int| 0 <= i < es.len() ==> 0 <= #[trigger] es[i].1.method < k
}

/// Every write candidate's method stands before `k`.
pub open spec fn writes_below(es: Entries<WriteCandidate>, k: int) -> bool {
    forall|i: int| 0 <= i < es.len() ==> 0 <= #[trigger] es[i].1.method < k
}

proof fn lemma_classify_methods_in_range(msgs: Entries<MsgInfoView>, ms: Seq<RawMethod>, k: int)
    requires
        0 <= k <= ms.len(),
        classify(msgs, ms, k) is Ok,
    ensures
        reads_below(classify(msgs, ms, k)->Ok_0.0, k),
        writes_below(classify(msgs, ms, k)->Ok_0.1, k),
    decreases k,
{
    if k > 0 {
        lemma_classify_methods_in_range(msgs, ms, k - 1);
        let (reads, writes) = classify(msgs, ms, k - 1)->Ok_0;
        match method_types(msgs, ms[k - 1]) {
            Ok((i, o)) => {
                if i.full_name == read_request_name() {
                    let c = ReadCandidate { method: k - 1, input: i, output: o };
                    lemma_insert_keeps(reads, o.full_name, c);
                    let n = seq_insert(reads, o.full_name, c);
                    assert forall|j: int| 0 <= j < n.len() implies 0 <= #[trigger] n[j].1.method < k by {
                        if n[j] != (o.full_name, c) {
                            assert(n[j] == reads[j]);
                        }
                    }
                    assert(writes_below(writes, k));
                } else if o.full_name == write_response_name() {
                    let bm = role_fields(i.fields, true);
                    let bd = role_fields(i.fields, false);
                    if bm.len() == 1 && bd.len() == 1 {
                        let c = WriteCandidate { method: k - 1, input: i, output: o, bitmask: bm[0], body: bd[0] };
                        lemma_insert_keeps(writes, bd[0].referenced_type, c);
                        let n = seq_insert(writes, bd[0].referenced_type, c);
                        assert forall|j: int| 0 <= j < n.len() implies 0 <= #[trigger] n[j].1.method < k by {
                            if n[j] != (bd[0].referenced_type, c) {
                                assert(n[j] == writes[j]);
                            }
                        }
                        assert(reads_below(reads, k));
                    }
                } else {
                    assert(reads_below(reads, k));
                    assert(writes_below(writes, k));
                }
            },
            Err(_) => {},
        }
    }
}

proof fn lemma_insert_keeps<W>(es: Entries<W>, k: Seq<char>, w: W)
    ensures
        forall|i: int|
            0 <= i < seq_insert(es, k, w).len() ==> (#[trigger] seq_insert(es, k, w)[i] == es[i]
                && i < es.len()) || seq_insert(es, k, w)[i] == (k, w),
        seq_insert(es, k, w).len() >= es.len(),
{
    crate::name_map::lemma_index_of_bounds(es, k);
}

/// Pairs the read and write methods of a parameter service into parameter groups.
fn process_parameter_service(msgs: &NameMap<MsgInfo>, svc_full: &String, ms: &Vec<RawMethod>) -> (r: Result<
    ParameterService,
    ResolveError,
>)
    ensures
        match parameter_service_view(msgs@, svc_full@, ms@) {
            Ok(gs) => r matches Ok(p) && views(p.param_groups@) == gs,
            Err(e) => r matches Err(x) && x@ == e,
        },
{
    let (reads, writes) = match classify_methods(msgs, ms) {
        Ok(x) => x,
        Err(e) => {
            return Err(e);
        },
    };
    proof {
        lemma_classify_methods_in_range(msgs@, ms@, ms@.len() as int);
    }
    let mut names = missing_keys_of(&reads, &writes);
    let mut more = missing_keys_of(&writes, &reads);
    let ghost n1 = views(names@);
    let ghost n2 = views(more@);
    names.append(&mut more);
    assert(views(names@) =~= n1 + n2);
    assert(views(names@) == unmatched_types(reads@, writes@));
    assert(views(names@).len() == names@.len());
    if names.len() > 0 {
        return Err(ResolveError::UnmatchedParameterType { names });
    }
    let es = reads.entries();
    let ghost rv = reads@;
    let mut param_groups: Vec<ParameterGroup> = Vec::new();
    assert(views(param_groups@) =~= seq![]);
    let mut k: usize = 0;
    while k < es.len()
        invariant
            entry_views(es@) == rv,
            rv == reads@,
            k <= es@.len(),
            reads_below(rv, ms@.len() as int),
            writes_below(writes@, ms@.len() as int),
            parameter_service_view(msgs@, svc_full@, ms@) == groups_view(
                svc_full@,
                ms@,
                rv,
                writes@,
                rv.len() as int,
            ),
            groups_view(svc_full@, ms@, rv, writes@, k as int) == Ok::<
                Seq<ParameterGroupView>,
                ResolveErrorView,
            >(views(param_groups@)),
        decreases es@.len() - k,
    {
        let key = &es[k].0;
        let mr = &es[k].1;
        assert(rv[k as int] == (key@, mr@));
        let mw = match writes.get(key) {
            Some(w) => w,
            None => {
                let mut names: Vec<String> = Vec::new();
                names.push(key.clone());
                assert(views(names@) =~= seq![key@]);
                proof {
                    lemma_groups_fail(svc_full@, ms@, rv, writes@, k as int + 1);
                }
                return Err(ResolveError::UnmatchedParameterType { names });
            },
        };
        proof {
            crate::name_map::lemma_index_of_bounds(writes@, key@);
            let j = crate::name_map::index_of(writes@, key@)->0;
            assert(writes@[j].1 == mw@);
            assert(0 <= rv[k as int].1.method < ms@.len());
            assert(0 <= writes@[j].1.method < ms@.len());
        }
        let g = match make_group(svc_full, ms, mr, mw) {
            Ok(g) => g,
            Err(e) => {
                proof {
                    lemma_groups_fail(svc_full@, ms@, rv, writes@, k as int + 1);
                }
                return Err(e);
            },
        };
        let ghost before = views(param_groups@);
        param_groups.push(g);
        assert(views(param_groups@) =~= before.push(g@));
        k = k + 1;
    }
    assert(rv.len() == es@.len());
    Ok(ParameterService { param_groups })
}

proof fn lemma_groups_fail(
    svc_full: Seq<char>,
    ms: Seq<RawMethod>,
    reads: Entries<ReadCandidate>,
    writes: Entries<WriteCandidate>,
    k: int,
)
    requires
        0 <= k <= reads.len(),
        groups_view(svc_full, ms, reads, writes, k) is Err,
    ensures
        groups_view(svc_full, ms, reads, writes, reads.len() as int) == groups_view(
            svc_full,
            ms,
            reads,
            writes,
            k,
        ),
    decreases reads.len() - k,
{
    if k < reads.len() {
        lemma_groups_fail(svc_full, ms, reads, writes, k + 1);
    }
}

/// Adds a method to the ordinary methods of a service, unless it subscribes to a signal.
fn process_method(
    msgs: &NameMap<MsgInfo>,
    svc_full: &String,
    m: &RawMethod,
    signal: &String,
    methods: &mut NameMap<MethodInfo>,
) -> (r: Result<(), ResolveError>)
    requires
        signal@ == signal_request_name(),
    ensures
        match method_types(msgs@, *m) {
            Err(e) => r matches Err(x) && x@ == e,
            Ok((i, o)) => if i.full_name == signal_request_name() {
                r is Ok && final(methods)@ == old(methods)@
            } else {
                match id_annotation(unknown_views(m.options@)) {
                    Err(_) => r matches Err(x) && x@ == ResolveErrorView::Decode(
                        dotted(svc_full@, m.name@),
                    ),
                    Ok(None) => r matches Err(x) && x@ == ResolveErrorView::MissingMethodOptions(
                        dotted(svc_full@, m.name@),
                    ),
                    Ok(Some(id)) => r is Ok && final(methods)@ == seq_insert(
                        old(methods)@,
                        m.name@,
                        method_view(id, *m, i, o),
                    ),
                }
            },
        },
{
    let (input, output) = match lookup_types(msgs, m) {
        Ok(x) => x,
        Err(e) => {
            return Err(e);
        },
    };
    if input.full_name == *signal {
        return Ok(());
    }
    match find_id_options(&m.options) {
        Err(_) => Err(ResolveError::Decode { node: dotted_name(svc_full, &m.name) }),
        Ok(None) => Err(ResolveError::MissingMethodOptions { method: dotted_name(svc_full, &m.name) }),
        Ok(Some(id)) => {
            methods.insert(m.name.clone(), make_method_info(id, m, input, output));
            Ok(())
        },
    }
}

/// Resolves a service: `None` where it carries no service annotation.
#[verifier::loop_isolation(false)]
fn process_service(msgs: &NameMap<MsgInfo>, pkg: &String, service: &RawService) -> (r: Result<
    Option<ServiceInfo>,
    ResolveError,
>)
    ensures
        match service_view(msgs@, pkg@, *service) {
            Ok(None) => r matches Ok(None),
            Ok(Some(v)) => r matches Ok(Some(x)) && x@ == v,
            Err(e) => r matches Err(x) && x@ == e,
        },
{
    let full = full_name(pkg, &service.name);
    let opts = match find_service_options(&service.options) {
        Err(_) => {
            return Err(ResolveError::Decode { node: full });
        },
        Ok(None) => {
            return Ok(None);
        },
        Ok(Some(o)) => o,
    };
    let svc_type = if opts.kind == SERVICE_KIND_PARAMETERS {
        match process_parameter_service(msgs, &full, &service.methods) {
            Ok(p) => ServiceType::Parameters(p),
            Err(e) => {
                return Err(e);
            },
        }
    } else {
        ServiceType::Default
    };
    let signal = String::from_str(".vrpc.EnableSignalStreaming");
    let mut methods: NameMap<MethodInfo> = NameMap::new();
    let ms = &service.methods;
    let mut k: usize = 0;
    while k < ms.len()
        invariant
            k <= ms@.len(),
            signal@ == signal_request_name(),
            methods_view(msgs@, full@, ms@.take(k as int)) == Ok::<
                Entries<MethodInfoView>,
                ResolveErrorView,
            >(methods@),
        decreases ms@.len() - k,
    {
        proof {
            assert(ms@.take(k + 1).drop_last() =~= ms@.take(k as int));
            assert(ms@.take(k + 1).last() == ms@[k as int]);
        }
        match process_method(msgs, &full, &ms[k], &signal, &mut methods) {
            Ok(()) => {},
            Err(e) => {
                proof {
                    lemma_methods_fail(msgs@, full@, ms@, k as int + 1);
                }
                return Err(e);
            },
        }
        k = k + 1;
    }
    assert(ms@.take(k as int) =~= ms@);
    Ok(
        Some(
            ServiceInfo {
                id: opts.id,
                identifier: opts.identifier,
                svc_type,
                name: service.name.clone(),
                display_name: opts.display_name,
                full_name: full,
                methods,
            },
        ),
    )
}

proof fn lemma_methods_fail(msgs: Entries<MsgInfoView>, svc_full: Seq<char>, ms: Seq<RawMethod>, k: int)
    requires
        0 <= k <= ms.len(),
        methods_view(msgs, svc_full, ms.take(k)) is Err,
    ensures
        methods_view(msgs, svc_full, ms) == methods_view(msgs, svc_full, ms.take(k)),
    decreases ms.len() - k,
{
    if k < ms.len() {
        assert(ms.take(k + 1).drop_last() =~= ms.take(k));
        lemma_methods_fail(msgs, svc_full, ms, k + 1);
    } else {
        assert(ms.take(k) =~= ms);
    }
}

/// A text that may be absent, absent where it is empty.
fn non_empty(s: String) -> (r: Option<String>)
    ensures
        match r {
            Some(t) => s@.len() > 0 && t@ == s@,
            None => s@.len() == 0,
        },
{
    if s.as_str().unicode_len() > 0 {
        Some(s)
    } else {
        None
    }
}

/// Resolves a field of a message, with what its annotation says.
fn process_field(msg_full: &String, field: &RawField) -> (r: Result<FieldInfo, ResolveError>)
    ensures
        match field_view(msg_full@, *field) {
            Ok(v) => r matches Ok(x) && x@ == v,
            Err(e) => r matches Err(x) && x@ == e,
        },
{
    let options = match find_field_options(&field.options) {
        Ok(o) => o,
        Err(_) => {
            return Err(ResolveError::Decode { node: dotted_name(msg_full, &field.name) });
        },
    };
    let (fixed_point, unit, description) = match options {
        Some(o) => (o.fixed_point, non_empty(o.unit), non_empty(o.description)),
        None => (None, None, None),
    };
    Ok(
        FieldInfo {
            id: field.number,
            name: field.name.clone(),
            label: field.label,
            field_type: field.field_type,
            referenced_type: field.referenced_type.clone(),
            fixed_point,
            unit,
            description,
        },
    )
}

/// Resolves a message and its fields.
#[verifier::loop_isolation(false)]
fn process_msg(pkg: &String, msg: &RawMessage) -> (r: Result<MsgInfo, ResolveError>)
    ensures
        match msg_view(pkg@, *msg) {
            Ok(v) => r matches Ok(x) && x@ == v,
            Err(e) => r matches Err(x) && x@ == e,
        },
{
    let full = full_name(pkg, &msg.name);
    let fs = &msg.fields;
    let mut fields: NameMap<FieldInfo> = NameMap::new();
    let mut k: usize = 0;
    while k < fs.len()
        invariant
            k <= fs@.len(),
            fields_view(full@, fs@.take(k as int)) == Ok::<Entries<FieldInfoView>, ResolveErrorView>(
                fields@,
            ),
        decreases fs@.len() - k,
    {
        proof {
            assert(fs@.take(k + 1).drop_last() =~= fs@.take(k as int));
            assert(fs@.take(k + 1).last() == fs@[k as int]);
        }
        match process_field(&full, &fs[k]) {
            Ok(f) => {
                fields.insert(fs[k].name.clone(), f);
            },
            Err(e) => {
                proof {
                    lemma_fields_fail(full@, fs@, k as int + 1);
                }
                return Err(e);
            },
        }
        k = k + 1;
    }
    assert(fs@.take(k as int) =~= fs@);
    Ok(
        MsgInfo {
            name: msg.name.clone(),
            package: pkg.clone(),
            full_name: full,
            fields,
            options: crate::raw::copy_unknown_fields(&msg.options),
        },
    )
}

proof fn lemma_fields_fail(msg_full: Seq<char>, fs: Seq<RawField>, k: int)
    requires
        0 <= k <= fs.len(),
        fields_view(msg_full, fs.take(k)) is Err,
    ensures
        fields_view(msg_full, fs) == fields_view(msg_full, fs.take(k)),
    decreases fs.len() - k,
{
    if k < fs.len() {
        assert(fs.take(k + 1).drop_last() =~= fs.take(k));
        lemma_fields_fail(msg_full, fs, k + 1);
    } else {
        assert(fs.take(k) =~= fs);
    }
}

/// `s` without `p` at its start, where it starts with `p`.
fn strip_prefix_of(s: &String, p: &String) -> (r: String)
    ensures
        r@ == strip_prefix(s@, p@),
{
    let n = s.as_str().unicode_len();
    let m = p.as_str().unicode_len();
    if m > n {
        return s.clone();
    }
    let mut i: usize = 0;
    while i < m
        invariant
            m <= n,
            n == s@.len(),
            m == p@.len(),
            i <= m,
            forall|j: int| 0 <= j < i ==> s@[j] == p@[j],
        decreases m - i,
    {
        if s.as_str().get_char(i) != p.as_str().get_char(i) {
            assert(s@.take(m as int)[i as int] != p@[i as int]);
            return s.clone();
        }
        i = i + 1;
    }
    assert(s@.take(m as int) =~= p@);
    String::from_str(s.as_str().substring_char(m, n))
}

/// Resolves an enum: each member's parsed name is its name without the enum's prefix.
fn process_enum(pkg: &String, e: &RawEnum) -> (r: EnumInfo)
    ensures
        r@ == enum_view(pkg@, *e),
{
    let mut prefix = pascal_case_to_upper_snake_case(e.name.as_str());
    push_char(&mut prefix, '_');
    let vs = &e.values;
    let mut members: Vec<EnumMemberInfo> = Vec::new();
    let mut k: usize = 0;
    while k < vs.len()
        invariant
            k <= vs@.len(),
            prefix@ == member_prefix(e.name@),
            views(members@) == vs@.take(k as int).map_values(
                |m: RawEnumValue| member_view(pkg@, e.name@, m),
            ),
        decreases vs@.len() - k,
    {
        let m = &vs[k];
        let ghost before = views(members@);
        members.push(
            EnumMemberInfo {
                name: m.name.clone(),
                number: m.number,
                package: pkg.clone(),
                parsed_name: strip_prefix_of(&m.name, &prefix),
            },
        );
        proof {
            assert(views(members@) =~= before.push(member_view(pkg@, e.name@, *m)));
            assert(vs@.take(k + 1).map_values(|m: RawEnumValue| member_view(pkg@, e.name@, m))
                =~= before.push(member_view(pkg@, e.name@, *m)));
        }
        k = k + 1;
    }
    assert(vs@.take(k as int) =~= vs@);
    EnumInfo { name: e.name.clone(), package: pkg.clone(), full_name: full_name(pkg, &e.name), members }
}

/// Resolves the enums of a document into `g`, and returns them by themselves.
fn file_enums(g: &mut NameMap<EnumInfo>, pkg: &String, es: &Vec<RawEnum>) -> (r: NameMap<EnumInfo>)
    ensures
        final(g)@ == insert_enums(old(g)@, pkg@, es@),
        r@ == insert_enums(seq![], pkg@, es@),
{
    let ghost g0 = g@;
    let mut local: NameMap<EnumInfo> = NameMap::new();
    let mut k: usize = 0;
    while k < es.len()
        invariant
            k <= es@.len(),
            g@ == insert_enums(g0, pkg@, es@.take(k as int)),
            local@ == insert_enums(seq![], pkg@, es@.take(k as int)),
        decreases es@.len() - k,
    {
        proof {
            assert(es@.take(k + 1).drop_last() =~= es@.take(k as int));
            assert(es@.take(k + 1).last() == es@[k as int]);
        }
        let info = process_enum(pkg, &es[k]);
        local.insert(info.full_name.clone(), info.duplicate());
        g.insert(info.full_name.clone(), info);
        k = k + 1;
    }
    assert(es@.take(k as int) =~= es@);
    local
}

/// The enum pass over all documents.
fn enum_pass_exec(
    g: &mut NameMap<EnumInfo>,
    b: &mut NameMap<NameMap<EnumInfo>>,
    files: &Vec<RawFile>,
)
    ensures
        (final(g)@, final(b)@) == enum_pass(old(g)@, old(b)@, files@),
{
    let ghost g0 = g@;
    let ghost b0 = b@;
    let mut k: usize = 0;
    while k < files.len()
        invariant
            k <= files@.len(),
            (g@, b@) == enum_pass(g0, b0, files@.take(k as int)),
        decreases files@.len() - k,
    {
        proof {
            assert(files@.take(k + 1).drop_last() =~= files@.take(k as int));
            assert(files@.take(k + 1).last() == files@[k as int]);
        }
        let f = &files[k];
        let local = file_enums(g, &f.package, &f.enums);
        b.insert(f.name.clone(), local);
        k = k + 1;
    }
    assert(files@.take(k as int) =~= files@);
}

/// Resolves the messages of a document into `g`, and returns them by themselves.
fn file_messages(g: &mut NameMap<MsgInfo>, pkg: &String, ms: &Vec<RawMessage>) -> (r: Result<
    NameMap<MsgInfo>,
    ResolveError,
>)
    ensures
        match msg_views(pkg@, ms@) {
            Ok(vs) => r matches Ok(l) && l@ == insert_msgs(seq![], vs) && final(g)@ == insert_msgs(
                old(g)@,
                vs,
            ),
            Err(e) => r matches Err(x) && x@ == e,
        },
{
    let ghost g0 = g@;
    let mut local: NameMap<MsgInfo> = NameMap::new();
    let ghost mut vs: Seq<MsgInfoView> = seq![];
    let mut k: usize = 0;
    while k < ms.len()
        invariant
            k <= ms@.len(),
            msg_views(pkg@, ms@.take(k as int)) == Ok::<Seq<MsgInfoView>, ResolveErrorView>(vs),
            g@ == insert_msgs(g0, vs),
            local@ == insert_msgs(seq![], vs),
        decreases ms@.len() - k,
    {
        proof {
            assert(ms@.take(k + 1).drop_last() =~= ms@.take(k as int));
            assert(ms@.take(k + 1).last() == ms@[k as int]);
        }
        let info = match process_msg(pkg, &ms[k]) {
            Ok(i) => i,
            Err(e) => {
                proof {
                    lemma_msgs_fail(pkg@, ms@, k as int + 1);
                }
                return Err(e);
            },
        };
        proof {
            assert(vs.push(info@).drop_last() =~= vs);
            vs = vs.push(info@);
        }
        local.insert(info.full_name.clone(), info.duplicate());
        g.insert(info.full_name.clone(), info);
        k = k + 1;
    }
    assert(ms@.take(k as int) =~= ms@);
    Ok(local)
}

proof fn lemma_msgs_fail(pkg: Seq<char>, ms: Seq<RawMessage>, k: int)
    requires
        0 <= k <= ms.len(),
        msg_views(pkg, ms.take(k)) is Err,
    ensures
        msg_views(pkg, ms) == msg_views(pkg, ms.take(k)),
    decreases ms.len() - k,
{
    if k < ms.len() {
        assert(ms.take(k + 1).drop_last() =~= ms.take(k));
        lemma_msgs_fail(pkg, ms, k + 1);
    } else {
        assert(ms.take(k) =~= ms);
    }
}

/// The message pass over all documents.
fn message_pass_exec(
    g: &mut NameMap<MsgInfo>,
    b: &mut NameMap<NameMap<MsgInfo>>,
    files: &Vec<RawFile>,
) -> (r: Result<(), ResolveError>)
    ensures
        match message_pass(old(g)@, old(b)@, files@) {
            Ok((g1, b1)) => r is Ok && final(g)@ == g1 && final(b)@ == b1,
            Err(e) => r matches Err(x) && x@ == e,
        },
{
    let ghost g0 = g@;
    let ghost b0 = b@;
    let mut k: usize = 0;
    while k < files.len()
        invariant
            k <= files@.len(),
            g0 == old(g)@,
            b0 == old(b)@,
            message_pass(g0, b0, files@.take(k as int)) == Ok::<
                (Entries<MsgInfoView>, Entries<Entries<MsgInfoView>>),
                ResolveErrorView,
            >((g@, b@)),
        decreases files@.len() - k,
    {
        proof {
            assert(files@.take(k + 1).drop_last() =~= files@.take(k as int));
            assert(files@.take(k + 1).last() == files@[k as int]);
        }
        let f = &files[k];
        let ghost gp = g@;
        match file_messages(g, &f.package, &f.messages) {
            Ok(local) => {
                b.insert(f.name.clone(), local);
            },
            Err(e) => {
                proof {
                    assert(message_pass(g0, b0, files@.take(k as int)) == Ok::<
                        (Entries<MsgInfoView>, Entries<Entries<MsgInfoView>>),
                        ResolveErrorView,
                    >((gp, b@)));
                    assert(msg_views(f.package@, f.messages@) == Err::<Seq<MsgInfoView>, ResolveErrorView>(e@));
                    assert(message_pass(g0, b0, files@.take(k + 1)) == Err::<
                        (Entries<MsgInfoView>, Entries<Entries<MsgInfoView>>),
                        ResolveErrorView,
                    >(e@));
                    lemma_message_pass_fails(g0, b0, files@, k as int + 1);
                }
                return Err(e);
            },
        }
        k = k + 1;
    }
    assert(files@.take(k as int) =~= files@);
    Ok(())
}

proof fn lemma_message_pass_fails(
    g: Entries<MsgInfoView>,
    b: Entries<Entries<MsgInfoView>>,
    files: Seq<RawFile>,
    k: int,
)
    requires
        0 <= k <= files.len(),
        message_pass(g, b, files.take(k)) is Err,
    ensures
        message_pass(g, b, files) == message_pass(g, b, files.take(k)),
    decreases files.len() - k,
{
    if k < files.len() {
        assert(files.take(k + 1).drop_last() =~= files.take(k));
        lemma_message_pass_fails(g, b, files, k + 1);
    } else {
        assert(files.take(k) =~= files);
    }
}

/// Resolves the services of a document into `g`, and returns them by themselves.
fn file_services(
    msgs: &NameMap<MsgInfo>,
    g: &mut NameMap<ServiceInfo>,
    pkg: &String,
    ss: &Vec<RawService>,
) -> (r: Result<NameMap<ServiceInfo>, ResolveError>)
    ensures
        match service_views(msgs@, pkg@, ss@) {
            Ok(vs) => r matches Ok(l) && l@ == insert_services(seq![], vs) && final(g)@
                == insert_services(old(g)@, vs),
            Err(e) => r matches Err(x) && x@ == e,
        },
{
    let ghost g0 = g@;
    let mut local: NameMap<ServiceInfo> = NameMap::new();
    let ghost mut vs: Seq<ServiceInfoView> = seq![];
    let mut k: usize = 0;
    while k < ss.len()
        invariant
            k <= ss@.len(),
            g0 == old(g)@,
            service_views(msgs@, pkg@, ss@.take(k as int)) == Ok::<
                Seq<ServiceInfoView>,
                ResolveErrorView,
            >(vs),
            g@ == insert_services(g0, vs),
            local@ == insert_services(seq![], vs),
        decreases ss@.len() - k,
    {
        proof {
            assert(ss@.take(k + 1).drop_last() =~= ss@.take(k as int));
            assert(ss@.take(k + 1).last() == ss@[k as int]);
        }
        match process_service(msgs, pkg, &ss[k]) {
            Ok(Some(info)) => {
                proof {
                    assert(vs.push(info@).drop_last() =~= vs);
                    vs = vs.push(info@);
                }
                local.insert(info.full_name.clone(), info.duplicate());
                g.insert(info.full_name.clone(), info);
            },
            Ok(None) => {},
            Err(e) => {
                proof {
                    lemma_services_fail(msgs@, pkg@, ss@, k as int + 1);
                }
                return Err(e);
            },
        }
        k = k + 1;
    }
    assert(ss@.take(k as int) =~= ss@);
    Ok(local)
}

proof fn lemma_services_fail(msgs: Entries<MsgInfoView>, pkg: Seq<char>, ss: Seq<RawService>, k: int)
    requires
        0 <= k <= ss.len(),
        service_views(msgs, pkg, ss.take(k)) is Err,
    ensures
        service_views(msgs, pkg, ss) == service_views(msgs, pkg, ss.take(k)),
    decreases ss.len() - k,
{
    if k < ss.len() {
        assert(ss.take(k + 1).drop_last() =~= ss.take(k));
        lemma_services_fail(msgs, pkg, ss, k + 1);
    } else {
        assert(ss.take(k) =~= ss);
    }
}

/// The service pass over all documents, against the resolved messages.
fn service_pass_exec(
    msgs: &NameMap<MsgInfo>,
    g: &mut NameMap<ServiceInfo>,
    b: &mut NameMap<NameMap<ServiceInfo>>,
    files: &Vec<RawFile>,
) -> (r: Result<(), ResolveError>)
    ensures
        match service_pass(msgs@, old(g)@, old(b)@, files@) {
            Ok((g1, b1)) => r is Ok && final(g)@ == g1 && final(b)@ == b1,
            Err(e) => r matches Err(x) && x@ == e,
        },
{
    let ghost g0 = g@;
    let ghost b0 = b@;
    let mut k: usize = 0;
    while k < files.len()
        invariant
            k <= files@.len(),
            g0 == old(g)@,
            b0 == old(b)@,
            service_pass(msgs@, g0, b0, files@.take(k as int)) == Ok::<
                (Entries<ServiceInfoView>, Entries<Entries<ServiceInfoView>>),
                ResolveErrorView,
            >((g@, b@)),
        decreases files@.len() - k,
    {
        proof {
            assert(files@.take(k + 1).drop_last() =~= files@.take(k as int));
            assert(files@.take(k + 1).last() == files@[k as int]);
        }
        let f = &files[k];
        let ghost gp = g@;
        match file_services(msgs, g, &f.package, &f.services) {
            Ok(local) => {
                b.insert(f.name.clone(), local);
            },
            Err(e) => {
                proof {
                    assert(service_pass(msgs@, g0, b0, files@.take(k as int)) == Ok::<
                        (Entries<ServiceInfoView>, Entries<Entries<ServiceInfoView>>),
                        ResolveErrorView,
                    >((gp, b@)));
                    assert(service_pass(msgs@, g0, b0, files@.take(k + 1)) == Err::<
                        (Entries<ServiceInfoView>, Entries<Entries<ServiceInfoView>>),
                        ResolveErrorView,
                    >(e@));
                    lemma_service_pass_fails(msgs@, g0, b0, files@, k as int + 1);
                }
                return Err(e);
            },
        }
        k = k + 1;
    }
    assert(files@.take(k as int) =~= files@);
    Ok(())
}

proof fn lemma_service_pass_fails(
    msgs: Entries<MsgInfoView>,
    g: Entries<ServiceInfoView>,
    b: Entries<Entries<ServiceInfoView>>,
    files: Seq<RawFile>,
    k: int,
)
    requires
        0 <= k <= files.len(),
        service_pass(msgs, g, b, files.take(k)) is Err,
    ensures
        service_pass(msgs, g, b, files) == service_pass(msgs, g, b, files.take(k)),
    decreases files.len() - k,
{
    if k < files.len() {
        assert(files.take(k + 1).drop_last() =~= files.take(k));
        lemma_service_pass_fails(msgs, g, b, files, k + 1);
    } else {
        assert(files.take(k) =~= files);
    }
}

/// The package pass: each document's package under its name.
fn package_pass_exec(packages: &mut NameMap<String>, files: &Vec<RawFile>)
    ensures
        final(packages)@ == package_pass(old(packages)@, files@),
{
    let ghost p0 = packages@;
    let mut k: usize = 0;
    while k < files.len()
        invariant
            k <= files@.len(),
            packages@ == package_pass(p0, files@.take(k as int)),
        decreases files@.len() - k,
    {
        proof {
            assert(files@.take(k + 1).drop_last() =~= files@.take(k as int));
            assert(files@.take(k + 1).last() == files@[k as int]);
        }
        packages.insert(files[k].name.clone(), files[k].package.clone());
        k = k + 1;
    }
    assert(files@.take(k as int) =~= files@);
}

/// The model with nothing in it.
pub open spec fn empty_model() -> DescriptorSetView {
    DescriptorSetView {
        packages: seq![],
        proto_files: seq![],
        messages: seq![],
        services: seq![],
        enums: seq![],
        messages_by_file: seq![],
        services_by_file: seq![],
        enums_by_file: seq![],
    }
}

impl DescriptorSet {
    /// An empty model.
    pub fn new() -> (r: DescriptorSet)
        ensures
            r@ == empty_model(),
    {
        let r = DescriptorSet {
            packages: NameMap::new(),
            proto_files: Vec::new(),
            messages: NameMap::new(),
            services: NameMap::new(),
            enums: NameMap::new(),
            messages_by_file: NameMap::new(),
            services_by_file: NameMap::new(),
            enums_by_file: NameMap::new(),
        };
        assert(views(r.proto_files@) =~= seq![]);
        r
    }

    /// The model that resolving `descriptors` on top of this one gives, with `proto_files`
    /// added to the discovered documents; the first hard error stops the run.
    pub fn resolved(&self, proto_files: Vec<ProtoFile>, descriptors: &Vec<RawFile>) -> (r: Result<
        DescriptorSet,
        ResolveError,
    >)
        ensures
            match resolve_spec(self@, views(proto_files@), descriptors@) {
                Ok(v) => r matches Ok(x) && x@ == v,
                Err(e) => r matches Err(x) && x@ == e,
            },
    {
        let mut found = duplicate_vec(&self.proto_files);
        let mut added = proto_files;
        let ghost f0 = views(found@);
        let ghost f1 = views(added@);
        found.append(&mut added);
        assert(views(found@) =~= f0 + f1);
        let mut packages = self.packages.duplicate();
        package_pass_exec(&mut packages, descriptors);
        let mut enums = self.enums.duplicate();
        let mut enums_by_file = self.enums_by_file.duplicate();
        enum_pass_exec(&mut enums, &mut enums_by_file, descriptors);
        let mut messages = self.messages.duplicate();
        let mut messages_by_file = self.messages_by_file.duplicate();
        match message_pass_exec(&mut messages, &mut messages_by_file, descriptors) {
            Ok(()) => {},
            Err(e) => {
                return Err(e);
            },
        }
        let mut services = self.services.duplicate();
        let mut services_by_file = self.services_by_file.duplicate();
        match service_pass_exec(&messages, &mut services, &mut services_by_file, descriptors) {
            Ok(()) => {},
            Err(e) => {
                return Err(e);
            },
        }
        Ok(
            DescriptorSet {
                packages,
                proto_files: found,
                messages,
                services,
                enums,
                messages_by_file,
                services_by_file,
                enums_by_file,
            },
        )
    }

    /// Resolves `descriptors` into this model, with `proto_files` added to the discovered
    /// documents. On a hard error the model stays as it was.
    pub fn process_descriptors(&mut self, proto_files: Vec<ProtoFile>, descriptors: &Vec<RawFile>) -> (r:
        Result<(), ResolveError>)
        ensures
            match resolve_spec(old(self)@, views(proto_files@), descriptors@) {
                Ok(v) => r is Ok && final(self)@ == v,
                Err(e) => r matches Err(x) && x@ == e && final(self)@ == old(self)@,
            },
    {
        match self.resolved(proto_files, descriptors) {
            Ok(ds) => {
                *self = ds;
                Ok(())
            },
            Err(e) => Err(e),
        }
    }
}

/// Resolves `descriptors`, the documents listed in `proto_files`, into a new model.
pub fn resolve(proto_files: Vec<ProtoFile>, descriptors: &Vec<RawFile>) -> (r: Result<
    DescriptorSet,
    ResolveError,
>)
    ensures
        match resolve_spec(empty_model(), views(proto_files@), descriptors@) {
            Ok(v) => r matches Ok(x) && x@ == v,
            Err(e) => r matches Err(x) && x@ == e,
        },
{
    DescriptorSet::new().resolved(proto_files, descriptors)
}

/// A service that carries no payload at the annotation field number is left out of the
/// model, and this is no error.
pub proof fn lemma_unannotated_service_dropped(msgs: Entries<MsgInfoView>, pkg: Seq<char>, s: RawService)
    requires
        crate::annotations::payloads(unknown_views(s.options@)).len() == 0,
    ensures
        service_view(msgs, pkg, s) == Ok::<Option<ServiceInfoView>, ResolveErrorView>(None),
{
}

/// A document whose services all lack an annotation contributes no service: the services
/// of the model, by name and by document, list none of them.
pub proof fn lemma_unannotated_services_absent(msgs: Entries<MsgInfoView>, pkg: Seq<char>, ss: Seq<RawService>)
    requires
        forall|i: int|
            0 <= i < ss.len() ==> crate::annotations::payloads(
                unknown_views(#[trigger] ss[i].options@),
            ).len() == 0,
    ensures
        service_views(msgs, pkg, ss) == Ok::<Seq<ServiceInfoView>, ResolveErrorView>(seq![]),
    decreases ss.len(),
{
    if ss.len() > 0 {
        lemma_unannotated_services_absent(msgs, pkg, ss.drop_last());
        lemma_unannotated_service_dropped(msgs, pkg, ss.last());
    }
}

/// Resolution is a function of its input: two runs over the same documents, on top of the
/// same model, give models equal in every field, or the same error.
pub proof fn lemma_resolution_deterministic(
    base: DescriptorSetView,
    found: Seq<ProtoFileView>,
    first: Seq<RawFile>,
    second: Seq<RawFile>,
)
    requires
        first == second,
    ensures
        resolve_spec(base, found, first) == resolve_spec(base, found, second),
{
}

/// Read candidates stand under the name of their output message, write candidates under
/// the type of their body field.
pub open spec fn candidates_keyed(reads: Entries<ReadCandidate>, writes: Entries<WriteCandidate>) -> bool {
    &&& forall|i: int| 0 <= i < reads.len() ==> (#[trigger] reads[i]).0 == reads[i].1.output.full_name
    &&& forall|i: int| 0 <= i < writes.len() ==> (#[trigger] writes[i]).0 == writes[i].1.body.referenced_type
}

proof fn lemma_classify_keyed(msgs: Entries<MsgInfoView>, ms: Seq<RawMethod>, k: int)
    requires
        0 <= k <= ms.len(),
        classify(msgs, ms, k) is Ok,
    ensures
        candidates_keyed(classify(msgs, ms, k)->Ok_0.0, classify(msgs, ms, k)->Ok_0.1),
    decreases k,
{
    if k > 0 {
        lemma_classify_keyed(msgs, ms, k - 1);
        let (reads, writes) = classify(msgs, ms, k - 1)->Ok_0;
        match method_types(msgs, ms[k - 1]) {
            Ok((i, o)) => {
                if i.full_name == read_request_name() {
                    let c = ReadCandidate { method: k - 1, input: i, output: o };
                    lemma_insert_keeps(reads, o.full_name, c);
                    let n = seq_insert(reads, o.full_name, c);
                    assert forall|j: int| 0 <= j < n.len() implies (#[trigger] n[j]).0 == n[j].1.output.full_name by {
                        if n[j] != (o.full_name, c) {
                            assert(n[j] == reads[j]);
                        }
                    }
                } else if o.full_name == write_response_name() {
                    let bm = role_fields(i.fields, true);
                    let bd = role_fields(i.fields, false);
                    if bm.len() == 1 && bd.len() == 1 {
                        let c = WriteCandidate { method: k - 1, input: i, output: o, bitmask: bm[0], body: bd[0] };
                        lemma_insert_keeps(writes, bd[0].referenced_type, c);
                        let n = seq_insert(writes, bd[0].referenced_type, c);
                        assert forall|j: int| 0 <= j < n.len() implies (#[trigger] n[j]).0
                            == n[j].1.body.referenced_type by {
                            if n[j] != (bd[0].referenced_type, c) {
                                assert(n[j] == writes[j]);
                            }
                        }
                    }
                }
            },
            Err(_) => {},
        }
    }
}

proof fn lemma_groups_keyed(
    svc_full: Seq<char>,
    ms: Seq<RawMethod>,
    reads: Entries<ReadCandidate>,
    writes: Entries<WriteCandidate>,
    k: int,
)
    requires
        0 <= k <= reads.len(),
        candidates_keyed(reads, writes),
        groups_view(svc_full, ms, reads, writes, k) is Ok,
    ensures
        forall|i: int|
            0 <= i < groups_view(svc_full, ms, reads, writes, k)->Ok_0.len() ==> (#[trigger] groups_view(
                svc_full,
                ms,
                reads,
                writes,
                k,
            )->Ok_0[i]).write_msg_body.referenced_type == groups_view(
                svc_full,
                ms,
                reads,
                writes,
                k,
            )->Ok_0[i].read_method.output_type.full_name,
    decreases k,
{
    if k > 0 {
        lemma_groups_keyed(svc_full, ms, reads, writes, k - 1);
        let key = reads[k - 1].0;
        crate::name_map::lemma_index_of_bounds(writes, key);
        let j = crate::name_map::index_of(writes, key)->0;
        assert(writes[j].0 == key);
        assert(reads[k - 1].0 == reads[k - 1].1.output.full_name);
    }
}

/// Each parameter group pairs a read method and a write method over one parameter
/// message: the body field of the write request has the read method's output message as
/// its type.
pub proof fn lemma_groups_pair_by_body_type(msgs: Entries<MsgInfoView>, svc_full: Seq<char>, ms: Seq<RawMethod>)
    requires
        parameter_service_view(msgs, svc_full, ms) is Ok,
    ensures
        forall|i: int|
            0 <= i < parameter_service_view(msgs, svc_full, ms)->Ok_0.len() ==> (
            #[trigger] parameter_service_view(msgs, svc_full, ms)->Ok_0[i]).write_msg_body.referenced_type
                == parameter_service_view(msgs, svc_full, ms)->Ok_0[i].read_method.output_type.full_name,
{
    lemma_classify_keyed(msgs, ms, ms.len() as int);
    let (reads, writes) = classify(msgs, ms, ms.len() as int)->Ok_0;
    lemma_groups_keyed(svc_full, ms, reads, writes, reads.len() as int);
}

} // verus!
