//! From registrations to the schema routine.
//!
//! A registration pairs an annotated procedure with what its annotation
//! says. The schema routine is the function that, when the derived code
//! runs, builds the schema document: one method descriptor for each
//! registration, in order.

use crate::attr::{AttributeKind, AttributeKindView, RpcMethodAttribute, RpcMethodAttributeView};
use crate::syntax::{duplicate_all, views, Duplicate, Method, MethodView, Param, ParamView};
use vstd::prelude::*;

verus! {

/// The name under which the companion module exports the schema routine,
/// and under which the enclosing scope exports it again.
pub const SCHEMA_FN: &'static str = "gen_schema";

/// An annotated procedure: its declaration, its annotation, and its position
/// among the members of the interface.
#[derive(Clone, Debug, PartialEq, Eq)]
pub struct RpcMethod {
    pub attr: RpcMethodAttribute,
    pub trait_item: Method,
    pub index: usize,
}

pub struct RpcMethodView {
    pub attr: RpcMethodAttributeView,
    pub trait_item: MethodView,
    pub index: int,
}

impl View for RpcMethod {
    type V = RpcMethodView;

    open spec fn view(&self) -> RpcMethodView {
        RpcMethodView {
            attr: self.attr@,
            trait_item: self.trait_item@,
            index: self.index as int,
        }
    }
}

/// The name under which a procedure is exposed: the one that its annotation
/// gives, else the declared one.
pub open spec fn exposed_name(method: RpcMethodView) -> Seq<char> {
    match method.attr.kind {
        AttributeKindView::Rpc { name_override: Some(name), .. } => name,
        AttributeKindView::Rpc { name_override: None, .. } => method.trait_item.name,
    }
}

impl RpcMethod {
    pub fn new(attr: RpcMethodAttribute, trait_item: Method, index: usize) -> (method: RpcMethod)
        ensures
            method@ == (RpcMethodView {
                attr: attr@,
                trait_item: trait_item@,
                index: index as int,
            }),
    {
        RpcMethod { attr, trait_item, index }
    }

    pub fn attr(&self) -> (attr: &RpcMethodAttribute)
        ensures
            *attr == self.attr,
    {
        &self.attr
    }

    /// The name under which the procedure is exposed.
    pub fn name(&self) -> (name: String)
        ensures
            name@ == exposed_name(self@),
    {
        match &self.attr.kind {
            AttributeKind::Rpc { name_override: Some(name), .. } => name.duplicate(),
            AttributeKind::Rpc { name_override: None, .. } => self.trait_item.name.duplicate(),
        }
    }
}

/// What the schema routine is synthesised from.
#[derive(Clone, Debug, PartialEq, Eq)]
pub enum MethodRegistration {
    Standard { method: RpcMethod, has_metadata: bool },
}

pub enum MethodRegistrationView {
    Standard { method: RpcMethodView, has_metadata: bool },
}

impl View for MethodRegistration {
    type V = MethodRegistrationView;

    open spec fn view(&self) -> MethodRegistrationView {
        match *self {
            MethodRegistration::Standard { method, has_metadata } => {
                MethodRegistrationView::Standard { method: method@, has_metadata }
            },
        }
    }
}

impl MethodRegistrationView {
    /// The procedure that the registration is about.
    pub open spec fn method(self) -> RpcMethodView {
        match self {
            MethodRegistrationView::Standard { method, .. } => method,
        }
    }
}

impl MethodRegistration {
    /// The procedure that the registration is about.
    pub fn method(&self) -> (method: &RpcMethod)
        ensures
            method@ == self@.method(),
    {
        match self {
            MethodRegistration::Standard { method, .. } => method,
        }
    }
}

/// The description of one procedure in the schema document.
#[derive(Clone, Debug, PartialEq, Eq)]
pub struct MethodDescriptor {
    /// The exposed name.
    pub name: String,
    /// The parameters with their declared types, in declaration order.
    pub params: Vec<Param>,
    /// The declared return type.
    pub result: String,
    /// Whether the procedure expects metadata from the transport. The
    /// parameters are the same either way.
    pub has_metadata: bool,
}

pub struct MethodDescriptorView {
    pub name: Seq<char>,
    pub params: Seq<ParamView>,
    pub result: Seq<char>,
    pub has_metadata: bool,
}

impl View for MethodDescriptor {
    type V = MethodDescriptorView;

    open spec fn view(&self) -> MethodDescriptorView {
        MethodDescriptorView {
            name: self.name@,
            params: views(self.params@),
            result: self.result@,
            has_metadata: self.has_metadata,
        }
    }
}

/// The schema routine: a function without arguments, named `name`, that
/// returns a fresh schema document with the methods `methods`.
#[derive(Clone, Debug, PartialEq, Eq)]
pub struct SchemaRoutine {
    pub name: String,
    pub methods: Vec<MethodDescriptor>,
}

pub struct SchemaRoutineView {
    pub name: Seq<char>,
    pub methods: Seq<MethodDescriptorView>,
}

impl View for SchemaRoutine {
    type V = SchemaRoutineView;

    open spec fn view(&self) -> SchemaRoutineView {
        SchemaRoutineView { name: self.name@, methods: views(self.methods@) }
    }
}

/// The descriptor of a registration.
pub open spec fn descriptor_spec(registration: MethodRegistrationView) -> MethodDescriptorView {
    match registration {
        MethodRegistrationView::Standard { method, has_metadata } => MethodDescriptorView {
            name: exposed_name(method),
            params: method.trait_item.params,
            result: method.trait_item.output,
            has_metadata,
        },
    }
}

/// The schema routine of a list of registrations.
pub open spec fn routine_spec(registrations: Seq<MethodRegistrationView>) -> SchemaRoutineView {
    SchemaRoutineView {
        name: SCHEMA_FN@,
        methods: registrations.map_values(
            |registration: MethodRegistrationView| descriptor_spec(registration),
        ),
    }
}

/// Describes one registration.
pub fn describe(registration: &MethodRegistration) -> (descriptor: MethodDescriptor)
    ensures
        descriptor@ == descriptor_spec(registration@),
{
    match registration {
        MethodRegistration::Standard { method, has_metadata } => MethodDescriptor {
            name: method.name(),
            params: duplicate_all(&method.trait_item.params),
            result: method.trait_item.output.duplicate(),
            has_metadata: *has_metadata,
        },
    }
}

/// Synthesises the schema routine: one descriptor for each registration, in
/// the order of the registrations.
pub fn generate_schema_method(registrations: &Vec<MethodRegistration>) -> (routine: SchemaRoutine)
    ensures
        routine@ == routine_spec(views(registrations@)),
{
    let mut methods: Vec<MethodDescriptor> = Vec::new();
    let mut i: usize = 0;
    while i < registrations.len()
        invariant
            i <= registrations.len(),
            methods.len() == i,
            forall|k: int| 0 <= k < i ==> methods[k]@ == descriptor_spec(registrations[k]@),
        decreases registrations.len() - i,
    {
        methods.push(describe(&registrations[i]));
        i += 1;
    }
    assert(views(methods@) =~= routine_spec(views(registrations@)).methods);
    SchemaRoutine { name: SCHEMA_FN.to_owned(), methods }
}

} // verus!
