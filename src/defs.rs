//! The resolved model: messages, fields, enums, methods and services.
use vstd::prelude::*;
use crate::name_map::{Duplicate, NameMap};
use crate::raw::{FieldLabel, FieldType, UnknownField, UnknownFieldView, copy_unknown_fields, unknown_views};

verus! {

/// The views of a sequence of values.
pub open spec fn views<T: View>(s: Seq<T>) -> Seq<T::V> {
    s.map_values(|t: T| t@)
}

/// Copies a vector element by element.
pub fn duplicate_vec<T: Duplicate>(v: &Vec<T>) -> (r: Vec<T>)
    ensures
        views(r@) == views(v@),
{
    let mut r: Vec<T> = Vec::new();
    let mut i: usize = 0;
    while i < v.len()
        invariant
            i <= v@.len(),
            views(r@) == views(v@.take(i as int)),
        decreases v@.len() - i,
    {
        let ghost before = r@;
        r.push(v[i].duplicate());
        proof {
            assert(views(r@) =~= views(before).push(v@[i as int]@));
            assert(views(v@.take(i + 1)) =~= views(v@.take(i as int)).push(v@[i as int]@));
        }
        i = i + 1;
    }
    assert(v@.take(i as int) =~= v@);
    r
}

impl Duplicate for String {
    fn duplicate(&self) -> (r: String) {
        self.clone()
    }
}

/// Fixed-point numeric encoding of a field: width and fraction bits, with a binary-point
/// shift in the `Q` forms.
#[derive(Clone, Copy, PartialEq, Eq, Structural, Debug)]
pub enum FixedPointType {
    UFix(u32, u32),
    UFixQ(u32, u32, i32),
    SFix(u32, u32),
    SFixQ(u32, u32, i32),
}

/// A field of a message, with what its annotation says.
#[derive(Debug, PartialEq)]
pub struct FieldInfo {
    pub id: i32,
    pub name: String,
    pub label: FieldLabel,
    pub field_type: FieldType,
    /// Fully-qualified name of the field's message or enum type; empty for scalars.
    pub referenced_type: String,
    pub fixed_point: Option<FixedPointType>,
    pub unit: Option<String>,
    pub description: Option<String>,
}

pub ghost struct FieldInfoView {
    pub id: i32,
    pub name: Seq<char>,
    pub label: FieldLabel,
    pub field_type: FieldType,
    pub referenced_type: Seq<char>,
    pub fixed_point: Option<FixedPointType>,
    pub unit: Option<Seq<char>>,
    pub description: Option<Seq<char>>,
}

/// The view of a string that may be absent.
pub open spec fn opt_view(s: Option<String>) -> Option<Seq<char>> {
    match s {
        Some(t) => Some(t@),
        None => None,
    }
}

pub fn duplicate_opt(s: &Option<String>) -> (r: Option<String>)
    ensures
        opt_view(r) == opt_view(*s),
{
    match s {
        Some(t) => Some(t.clone()),
        None => None,
    }
}

impl View for FieldInfo {
    type V = FieldInfoView;

    open spec fn view(&self) -> FieldInfoView {
        FieldInfoView {
            id: self.id,
            name: self.name@,
            label: self.label,
            field_type: self.field_type,
            referenced_type: self.referenced_type@,
            fixed_point: self.fixed_point,
            unit: opt_view(self.unit),
            description: opt_view(self.description),
        }
    }
}

impl Duplicate for FieldInfo {
    fn duplicate(&self) -> (r: FieldInfo) {
        FieldInfo {
            id: self.id,
            name: self.name.clone(),
            label: self.label,
            field_type: self.field_type,
            referenced_type: self.referenced_type.clone(),
            fixed_point: self.fixed_point,
            unit: duplicate_opt(&self.unit),
            description: duplicate_opt(&self.description),
        }
    }
}

/// A message: its names, its fields by name, and the unrecognized fields of its options,
/// where its annotation stands.
#[derive(Debug, PartialEq)]
pub struct MsgInfo {
    pub name: String,
    pub package: String,
    pub full_name: String,
    pub fields: NameMap<FieldInfo>,
    pub options: Vec<UnknownField>,
}

pub ghost struct MsgInfoView {
    pub name: Seq<char>,
    pub package: Seq<char>,
    pub full_name: Seq<char>,
    pub fields: Seq<(Seq<char>, FieldInfoView)>,
    pub options: Seq<UnknownFieldView>,
}

impl View for MsgInfo {
    type V = MsgInfoView;

    open spec fn view(&self) -> MsgInfoView {
        MsgInfoView {
            name: self.name@,
            package: self.package@,
            full_name: self.full_name@,
            fields: self.fields@,
            options: unknown_views(self.options@),
        }
    }
}

impl Duplicate for MsgInfo {
    fn duplicate(&self) -> (r: MsgInfo) {
        MsgInfo {
            name: self.name.clone(),
            package: self.package.clone(),
            full_name: self.full_name.clone(),
            fields: self.fields.duplicate(),
            options: copy_unknown_fields(&self.options),
        }
    }
}

/// A reference to a message by its names.
#[derive(Debug, PartialEq)]
pub struct MsgRef {
    pub name: String,
    pub package: String,
    pub full_name: String,
}

pub ghost struct MsgRefView {
    pub name: Seq<char>,
    pub package: Seq<char>,
    pub full_name: Seq<char>,
}

impl View for MsgRef {
    type V = MsgRefView;

    open spec fn view(&self) -> MsgRefView {
        MsgRefView { name: self.name@, package: self.package@, full_name: self.full_name@ }
    }
}

impl Duplicate for MsgRef {
    fn duplicate(&self) -> (r: MsgRef) {
        MsgRef {
            name: self.name.clone(),
            package: self.package.clone(),
            full_name: self.full_name.clone(),
        }
    }
}

/// A member of an enum: its declared name and number, and its name without the enum's
/// prefix.
#[derive(Debug, PartialEq)]
pub struct EnumMemberInfo {
    pub name: String,
    pub number: i32,
    pub package: String,
    pub parsed_name: String,
}

pub ghost struct EnumMemberInfoView {
    pub name: Seq<char>,
    pub number: i32,
    pub package: Seq<char>,
    pub parsed_name: Seq<char>,
}

impl View for EnumMemberInfo {
    type V = EnumMemberInfoView;

    open spec fn view(&self) -> EnumMemberInfoView {
        EnumMemberInfoView {
            name: self.name@,
            number: self.number,
            package: self.package@,
            parsed_name: self.parsed_name@,
        }
    }
}

impl Duplicate for EnumMemberInfo {
    fn duplicate(&self) -> (r: EnumMemberInfo) {
        EnumMemberInfo {
            name: self.name.clone(),
            number: self.number,
            package: self.package.clone(),
            parsed_name: self.parsed_name.clone(),
        }
    }
}

/// An enum and its members, in order.
#[derive(Debug, PartialEq)]
pub struct EnumInfo {
    pub name: String,
    pub package: String,
    pub full_name: String,
    pub members: Vec<EnumMemberInfo>,
}

pub ghost struct EnumInfoView {
    pub name: Seq<char>,
    pub package: Seq<char>,
    pub full_name: Seq<char>,
    pub members: Seq<EnumMemberInfoView>,
}

impl View for EnumInfo {
    type V = EnumInfoView;

    open spec fn view(&self) -> EnumInfoView {
        EnumInfoView {
            name: self.name@,
            package: self.package@,
            full_name: self.full_name@,
            members: views(self.members@),
        }
    }
}

impl Duplicate for EnumInfo {
    fn duplicate(&self) -> (r: EnumInfo) {
        EnumInfo {
            name: self.name.clone(),
            package: self.package.clone(),
            full_name: self.full_name.clone(),
            members: duplicate_vec(&self.members),
        }
    }
}

/// A method: the id from its annotation, its name, and its message types.
#[derive(Debug, PartialEq)]
pub struct MethodInfo {
    pub id: u32,
    pub name: String,
    pub input_type: MsgRef,
    pub output_type: MsgRef,
}

pub ghost struct MethodInfoView {
    pub id: u32,
    pub name: Seq<char>,
    pub input_type: MsgRefView,
    pub output_type: MsgRefView,
}

impl View for MethodInfo {
    type V = MethodInfoView;

    open spec fn view(&self) -> MethodInfoView {
        MethodInfoView {
            id: self.id,
            name: self.name@,
            input_type: self.input_type@,
            output_type: self.output_type@,
        }
    }
}

impl Duplicate for MethodInfo {
    fn duplicate(&self) -> (r: MethodInfo) {
        MethodInfo {
            id: self.id,
            name: self.name.clone(),
            input_type: self.input_type.duplicate(),
            output_type: self.output_type.duplicate(),
        }
    }
}

/// A read method and a write method over one parameter message, with the id of the
/// message's annotation and the two roles of the write request's fields.
#[derive(Debug, PartialEq)]
pub struct ParameterGroup {
    pub id: u32,
    pub read_method: MethodInfo,
    pub write_method: MethodInfo,
    pub write_msg_written_fields: FieldInfo,
    pub write_msg_body: FieldInfo,
}

pub ghost struct ParameterGroupView {
    pub id: u32,
    pub read_method: MethodInfoView,
    pub write_method: MethodInfoView,
    pub write_msg_written_fields: FieldInfoView,
    pub write_msg_body: FieldInfoView,
}

impl View for ParameterGroup {
    type V = ParameterGroupView;

    open spec fn view(&self) -> ParameterGroupView {
        ParameterGroupView {
            id: self.id,
            read_method: self.read_method@,
            write_method: self.write_method@,
            write_msg_written_fields: self.write_msg_written_fields@,
            write_msg_body: self.write_msg_body@,
        }
    }
}

impl Duplicate for ParameterGroup {
    fn duplicate(&self) -> (r: ParameterGroup) {
        ParameterGroup {
            id: self.id,
            read_method: self.read_method.duplicate(),
            write_method: self.write_method.duplicate(),
            write_msg_written_fields: self.write_msg_written_fields.duplicate(),
            write_msg_body: self.write_msg_body.duplicate(),
        }
    }
}

/// The parameter groups of a parameter service.
#[derive(Debug, PartialEq)]
pub struct ParameterService {
    pub param_groups: Vec<ParameterGroup>,
}

/// The kind of a service.
#[derive(Debug, PartialEq)]
pub enum ServiceType {
    Default,
    Parameters(ParameterService),
}

pub ghost enum ServiceTypeView {
    Default,
    Parameters(Seq<ParameterGroupView>),
}

impl View for ServiceType {
    type V = ServiceTypeView;

    open spec fn view(&self) -> ServiceTypeView {
        match self {
            ServiceType::Default => ServiceTypeView::Default,
            ServiceType::Parameters(p) => ServiceTypeView::Parameters(views(p.param_groups@)),
        }
    }
}

impl Duplicate for ServiceType {
    fn duplicate(&self) -> (r: ServiceType) {
        match self {
            ServiceType::Default => ServiceType::Default,
            ServiceType::Parameters(p) => ServiceType::Parameters(
                ParameterService { param_groups: duplicate_vec(&p.param_groups) },
            ),
        }
    }
}

/// A service that carries an annotation: what the annotation says, its names, its kind
/// and its ordinary methods by name.
#[derive(Debug, PartialEq)]
pub struct ServiceInfo {
    pub id: u32,
    pub identifier: String,
    pub svc_type: ServiceType,
    pub name: String,
    pub display_name: String,
    pub full_name: String,
    pub methods: NameMap<MethodInfo>,
}

pub ghost struct ServiceInfoView {
    pub id: u32,
    pub identifier: Seq<char>,
    pub svc_type: ServiceTypeView,
    pub name: Seq<char>,
    pub display_name: Seq<char>,
    pub full_name: Seq<char>,
    pub methods: Seq<(Seq<char>, MethodInfoView)>,
}

impl View for ServiceInfo {
    type V = ServiceInfoView;

    open spec fn view(&self) -> ServiceInfoView {
        ServiceInfoView {
            id: self.id,
            identifier: self.identifier@,
            svc_type: self.svc_type@,
            name: self.name@,
            display_name: self.display_name@,
            full_name: self.full_name@,
            methods: self.methods@,
        }
    }
}

impl Duplicate for ServiceInfo {
    fn duplicate(&self) -> (r: ServiceInfo) {
        ServiceInfo {
            id: self.id,
            identifier: self.identifier.clone(),
            svc_type: self.svc_type.duplicate(),
            name: self.name.clone(),
            display_name: self.display_name.clone(),
            full_name: self.full_name.clone(),
            methods: self.methods.duplicate(),
        }
    }
}

} // verus!
