//! Deriving from an interface and from an implementation.
//!
//! From an interface come the companion module, which holds the schema
//! routine, and the rewritten interface: without its `rpc` annotations, with
//! the capability bound on its metadata type, and with the signature of the
//! schema accessor. From an implementation comes the same block with the
//! accessor, which calls the schema routine of the companion module. The two
//! meet through `companion_name` alone.
//!
//! The names that `rpc` annotations give are read by syn. The readings, one
//! for each member of the interface, enter the rules as a separate value:
//! the functions whose names end in `_with` take them as an argument and say
//! exactly what is derived; the others read the names first.

use crate::attr::{
    name_candidate, parse_attr_spec, possible_reading, read_name, AttributeKind,
    AttributeKindView, RpcMethodAttribute, RpcMethodAttributeView,
};
use crate::error::{AttributeError, Error, RegistrationError};
use crate::syntax::{
    duplicate_all, is_word, path_ident, text_view, views, AssocType, AssocTypeView, AttrArgs,
    AttrArgsView, Attribute, AttributeView, Duplicate, Item, ItemImpl, ItemImplView, ItemTrait,
    ItemTraitView, ItemView, MetaArg, MetaArgView, Method, MethodView, Param, Same, TraitItem,
    TraitItemView,
};
use crate::to_gen_schema::{
    exposed_name, generate_schema_method, routine_spec, MethodRegistration,
    MethodRegistrationView, RpcMethod, RpcMethodView, SchemaRoutine, SchemaRoutineView, SCHEMA_FN,
};
use vstd::prelude::*;
use vstd::string::*;

verus! {

/// The name of the associated type that receives the capability bound.
pub const METADATA_TYPE: &'static str = "Metadata";

/// What the name of a companion module starts with.
pub const OPENRPC_SCHEMA_MODE_PREFIX: &'static str = "openrpc_schema_";

/// The capability bound.
pub const METADATA_BOUND: &'static str = "_jsonrpc_core :: Metadata";

/// The name of the schema accessor.
pub const SCHEMA_ACCESSOR: &'static str = "schema";

/// The type of a schema document.
pub const SCHEMA_DOCUMENT: &'static str = "OpenrpcDocument";

/// The signature of the schema accessor, as an interface declares it.
pub const ACCESSOR_SIGNATURE: &'static str = "fn schema (& self) -> OpenrpcDocument ;";

/// The schema accessor of an implementation, up to the companion module's name.
pub const ACCESSOR_HEAD: &'static str = "fn schema (& self) -> OpenrpcDocument { super :: ";

/// The schema accessor of an implementation, after the companion module's name.
pub const ACCESSOR_TAIL: &'static str = " :: gen_schema () }";

/// What the enclosing scope imports for the accessor's return type.
pub const DOCUMENT_IMPORT: &'static str = "open_rpc_schema :: document :: OpenrpcDocument";

/// The import by which a companion module sees what its enclosing scope sees.
pub const SCOPE_IMPORT: &'static str = "super :: *";

/// The import by which a companion module sees the schema document's types.
pub const DOCUMENT_TYPES_IMPORT: &'static str = "open_rpc_schema :: document :: *";

/// The name of the companion module of an interface. The derivation from an
/// interface and the one from its implementations share nothing but this
/// function.
pub open spec fn companion_name(interface: Seq<char>) -> Seq<char> {
    OPENRPC_SCHEMA_MODE_PREFIX@ + interface
}

/// The schema accessor of an implementation: one call of the schema routine
/// of the given companion module.
pub open spec fn accessor_text(module: Seq<char>) -> Seq<char> {
    ACCESSOR_HEAD@ + module + ACCESSOR_TAIL@
}

/// The accessor's signature as a member of the rewritten interface. It is
/// hidden from the documentation and has no body.
pub open spec fn schema_signature() -> MethodView {
    MethodView {
        attrs: seq![
            AttributeView {
                path: "doc"@,
                args: AttrArgsView::List(seq![MetaArgView::Word("hidden"@)]),
            },
        ],
        name: SCHEMA_ACCESSOR@,
        params: Seq::empty(),
        output: SCHEMA_DOCUMENT@,
        source: ACCESSOR_SIGNATURE@,
    }
}

/// The views of a list of readings.
pub open spec fn readings_view(readings: Seq<Option<String>>) -> Seq<Option<Seq<char>>> {
    readings.map_values(|reading: Option<String>| text_view(reading))
}

/// The reading for the member at position `index`: none where the list of
/// readings ends before.
pub open spec fn reading_at(readings: Seq<Option<Seq<char>>>, index: int) -> Option<Seq<char>> {
    if 0 <= index < readings.len() {
        readings[index]
    } else {
        None
    }
}

/// The name of a member that is to be read. Only procedures have one.
pub open spec fn item_candidate(item: TraitItemView) -> Option<Seq<char>> {
    match item {
        TraitItemView::Method(method) => name_candidate(method),
        _ => None,
    }
}

/// What the readings for the members of an interface can be.
pub open spec fn possible_readings(
    items: Seq<TraitItemView>,
    readings: Seq<Option<Seq<char>>>,
) -> bool {
    forall|k: int|
        0 <= k < items.len() ==> possible_reading(
            item_candidate(#[trigger] items[k]),
            reading_at(readings, k),
        )
}

/// Whether no member of an interface has a name that is to be read.
pub open spec fn reads_nothing(items: Seq<TraitItemView>) -> bool {
    forall|k: int| 0 <= k < items.len() ==> item_candidate(#[trigger] items[k]).is_none()
}

/// What the annotations of a member amount to, given its reading. Only
/// procedures have any.
pub open spec fn item_attr(item: TraitItemView, reading: Option<Seq<char>>) -> Result<
    Option<RpcMethodAttributeView>,
    AttributeError,
> {
    match item {
        TraitItemView::Method(method) => parse_attr_spec(method, reading),
        _ => Ok(None),
    }
}

/// The error at the first member whose annotations are refused.
pub open spec fn first_failure(
    items: Seq<TraitItemView>,
    readings: Seq<Option<Seq<char>>>,
) -> Option<Error>
    decreases items.len(),
{
    if items.len() == 0 {
        None
    } else {
        match first_failure(items.drop_last(), readings) {
            Some(error) => Some(error),
            None => match item_attr(items.last(), reading_at(readings, items.len() - 1)) {
                Err(error) => Some(Error::Attribute { item: (items.len() - 1) as usize, error }),
                Ok(_) => None,
            },
        }
    }
}

/// The registration of the procedure at position `index`, given its annotation.
pub open spec fn registration_of(
    method: MethodView,
    attr: RpcMethodAttributeView,
    index: int,
) -> MethodRegistrationView {
    MethodRegistrationView::Standard {
        method: RpcMethodView { attr, trait_item: method, index },
        has_metadata: match attr.kind {
            AttributeKindView::Rpc { has_metadata, .. } => has_metadata,
        },
    }
}

/// The registrations of the annotated procedures, in declaration order.
pub open spec fn registered(
    items: Seq<TraitItemView>,
    readings: Seq<Option<Seq<char>>>,
) -> Seq<MethodRegistrationView>
    decreases items.len(),
{
    if items.len() == 0 {
        Seq::empty()
    } else {
        let before = registered(items.drop_last(), readings);
        match items.last() {
            TraitItemView::Method(method) => match parse_attr_spec(
                method,
                reading_at(readings, items.len() - 1),
            ) {
                Ok(Some(attr)) => before.push(registration_of(method, attr, items.len() - 1)),
                _ => before,
            },
            _ => before,
        }
    }
}

/// Whether the registration at position `at` exposes the name of an earlier one.
pub open spec fn repeats_earlier(registrations: Seq<MethodRegistrationView>, at: int) -> bool {
    exists|earlier: int|
        0 <= earlier < at && exposed_name(#[trigger] registrations[earlier].method())
            == exposed_name(registrations[at].method())
}

/// The position of the first registration that exposes the name of an
/// earlier one.
pub open spec fn first_duplicate(registrations: Seq<MethodRegistrationView>) -> Option<int>
    decreases registrations.len(),
{
    if registrations.len() == 0 {
        None
    } else {
        match first_duplicate(registrations.drop_last()) {
            Some(at) => Some(at),
            None => if repeats_earlier(registrations, registrations.len() - 1) {
                Some(registrations.len() - 1)
            } else {
                None
            },
        }
    }
}

/// The registrations of an interface, given the readings: an error at the
/// first member whose annotations are refused; else an error at the first
/// procedure that exposes the name of an earlier one; else the registrations
/// of the annotated procedures, in declaration order.
pub open spec fn registrations_spec(
    items: Seq<TraitItemView>,
    readings: Seq<Option<Seq<char>>>,
) -> Result<Seq<MethodRegistrationView>, Error> {
    match first_failure(items, readings) {
        Some(error) => Err(error),
        None => match first_duplicate(registered(items, readings)) {
            Some(at) => Err(
                Error::Registration(
                    RegistrationError::DuplicateName {
                        item: registered(items, readings)[at].method().index as usize,
                    },
                ),
            ),
            None => Ok(registered(items, readings)),
        },
    }
}

/// The registered procedure at position `index` of the interface: the last
/// in the list, should there be several.
pub open spec fn lookup(registrations: Seq<MethodRegistrationView>, index: int) -> Option<
    RpcMethodView,
>
    decreases registrations.len(),
{
    if registrations.len() == 0 {
        None
    } else if registrations.last().method().index == index {
        Some(registrations.last().method())
    } else {
        lookup(registrations.drop_last(), index)
    }
}

/// A list of annotations without those that equal the given one, the others
/// in their order.
pub open spec fn without(attrs: Seq<AttributeView>, gone: AttributeView) -> Seq<AttributeView>
    decreases attrs.len(),
{
    if attrs.len() == 0 {
        Seq::empty()
    } else if attrs.last() == gone {
        without(attrs.drop_last(), gone)
    } else {
        without(attrs.drop_last(), gone).push(attrs.last())
    }
}

/// A procedure without the annotation that it was registered with. Only the
/// procedure that was registered at the position loses anything, and only
/// the annotations that equal the recorded one.
pub open spec fn strip_spec(
    method: MethodView,
    registrations: Seq<MethodRegistrationView>,
    index: int,
) -> MethodView {
    match lookup(registrations, index) {
        Some(found) => if found.trait_item == method {
            MethodView { attrs: without(method.attrs, found.attr.attr), ..method }
        } else {
            method
        },
        None => method,
    }
}

/// Whether a member is the metadata type.
pub open spec fn is_metadata_type(item: TraitItemView) -> bool {
    match item {
        TraitItemView::Type(ty) => ty.name == METADATA_TYPE@,
        _ => false,
    }
}

/// An associated type with the capability bound, if it is the metadata type.
pub open spec fn bound_spec(ty: AssocTypeView) -> AssocTypeView {
    if ty.name == METADATA_TYPE@ {
        AssocTypeView { bounds: ty.bounds.push(METADATA_BOUND@), ..ty }
    } else {
        ty
    }
}

/// The member at position `index`, rewritten.
pub open spec fn rewrite_item(
    item: TraitItemView,
    registrations: Seq<MethodRegistrationView>,
    index: int,
) -> TraitItemView {
    match item {
        TraitItemView::Method(method) => TraitItemView::Method(
            strip_spec(method, registrations, index),
        ),
        TraitItemView::Type(ty) => TraitItemView::Type(bound_spec(ty)),
        TraitItemView::Verbatim(_) => item,
    }
}

/// The members of the rewritten interface: each member rewritten in its
/// place, then the signature of the schema accessor.
pub open spec fn rewritten_items(
    items: Seq<TraitItemView>,
    registrations: Seq<MethodRegistrationView>,
) -> Seq<TraitItemView> {
    Seq::new(items.len(), |index: int| rewrite_item(items[index], registrations, index)).push(
        TraitItemView::Method(schema_signature()),
    )
}

/// The module that holds the schema routine of one interface.
#[derive(Clone, Debug, PartialEq, Eq)]
pub struct CompanionModule {
    pub name: String,
    /// What the module imports, in order.
    pub imports: Vec<String>,
    pub routine: SchemaRoutine,
}

pub struct CompanionModuleView {
    pub name: Seq<char>,
    pub imports: Seq<Seq<char>>,
    pub routine: SchemaRoutineView,
}

impl View for CompanionModule {
    type V = CompanionModuleView;

    open spec fn view(&self) -> CompanionModuleView {
        CompanionModuleView {
            name: self.name@,
            imports: views(self.imports@),
            routine: self.routine@,
        }
    }
}

/// What is derived from an interface.
#[derive(Clone, Debug, PartialEq, Eq)]
pub struct TraitExpansion {
    /// What the enclosing scope imports.
    pub import: String,
    pub module: CompanionModule,
    /// The name under which the enclosing scope exports the schema routine.
    pub reexport: String,
    /// The rewritten interface.
    pub interface: ItemTrait,
}

pub struct TraitExpansionView {
    pub import: Seq<char>,
    pub module: CompanionModuleView,
    pub reexport: Seq<char>,
    pub interface: ItemTraitView,
}

impl View for TraitExpansion {
    type V = TraitExpansionView;

    open spec fn view(&self) -> TraitExpansionView {
        TraitExpansionView {
            import: self.import@,
            module: self.module@,
            reexport: self.reexport@,
            interface: self.interface@,
        }
    }
}

/// What is derived from a declaration.
#[derive(Clone, Debug, PartialEq, Eq)]
pub enum Expansion {
    Trait(TraitExpansion),
    Impl(ItemImpl),
}

pub enum ExpansionView {
    Trait(TraitExpansionView),
    Impl(ItemImplView),
}

impl View for Expansion {
    type V = ExpansionView;

    open spec fn view(&self) -> ExpansionView {
        match *self {
            Expansion::Trait(t) => ExpansionView::Trait(t@),
            Expansion::Impl(i) => ExpansionView::Impl(i@),
        }
    }
}

/// What is derived from an interface, given the readings.
pub open spec fn expand_trait(
    interface: ItemTraitView,
    readings: Seq<Option<Seq<char>>>,
) -> Result<TraitExpansionView, Error> {
    match registrations_spec(interface.items, readings) {
        Err(error) => Err(error),
        Ok(registrations) => Ok(
            TraitExpansionView {
                import: DOCUMENT_IMPORT@,
                module: CompanionModuleView {
                    name: companion_name(interface.name),
                    imports: seq![SCOPE_IMPORT@, DOCUMENT_TYPES_IMPORT@],
                    routine: routine_spec(registrations),
                },
                reexport: SCHEMA_FN@,
                interface: ItemTraitView {
                    items: rewritten_items(interface.items, registrations),
                    ..interface
                },
            },
        ),
    }
}

/// What is derived from an implementation.
pub open spec fn expand_impl(block: ItemImplView) -> Result<ItemImplView, Error> {
    match block.trait_ {
        None => Err(Error::NotAnInterfaceImplementation),
        Some(path) => match path_ident(path) {
            None => Err(Error::UnresolvedInterface),
            Some(interface) => Ok(
                ItemImplView {
                    items: block.items.push(accessor_text(companion_name(interface))),
                    ..block
                },
            ),
        },
    }
}

/// What is derived from a declaration, given the readings. Only an
/// interface has names to read.
pub open spec fn expand(item: ItemView, readings: Seq<Option<Seq<char>>>) -> Result<
    ExpansionView,
    Error,
> {
    match item {
        ItemView::Trait(interface) => match expand_trait(interface, readings) {
            Ok(expansion) => Ok(ExpansionView::Trait(expansion)),
            Err(error) => Err(error),
        },
        ItemView::Impl(block) => match expand_impl(block) {
            Ok(expansion) => Ok(ExpansionView::Impl(expansion)),
            Err(error) => Err(error),
        },
        ItemView::Verbatim(_) => Err(Error::UnsupportedTarget),
    }
}

/// What the readings for a declaration can be.
pub open spec fn possible_item_readings(
    item: ItemView,
    readings: Seq<Option<Seq<char>>>,
) -> bool {
    match item {
        ItemView::Trait(interface) => possible_readings(interface.items, readings),
        _ => true,
    }
}

/// Whether a declaration has no name that is to be read.
pub open spec fn item_reads_nothing(item: ItemView) -> bool {
    match item {
        ItemView::Trait(interface) => reads_nothing(interface.items),
        _ => true,
    }
}

/// A failure among the first members is the failure of the whole list.
pub proof fn lemma_failure_stays(
    items: Seq<TraitItemView>,
    readings: Seq<Option<Seq<char>>>,
    upto: int,
)
    requires
        0 <= upto <= items.len(),
        first_failure(items.take(upto), readings).is_some(),
    ensures
        first_failure(items, readings) == first_failure(items.take(upto), readings),
    decreases items.len() - upto,
{
    if upto == items.len() {
        assert(items.take(upto) =~= items);
    } else {
        assert(items.take(upto + 1).drop_last() =~= items.take(upto));
        lemma_failure_stays(items, readings, upto + 1);
    }
}

/// A repeated name among the first registrations is the first of the whole list.
pub proof fn lemma_duplicate_stays(registrations: Seq<MethodRegistrationView>, upto: int)
    requires
        0 <= upto <= registrations.len(),
        first_duplicate(registrations.take(upto)).is_some(),
    ensures
        first_duplicate(registrations) == first_duplicate(registrations.take(upto)),
    decreases registrations.len() - upto,
{
    if upto == registrations.len() {
        assert(registrations.take(upto) =~= registrations);
    } else {
        assert(registrations.take(upto + 1).drop_last() =~= registrations.take(upto));
        lemma_duplicate_stays(registrations, upto + 1);
    }
}

/// Readings that agree on every member give the same registrations.
pub proof fn lemma_readings_agree(
    items: Seq<TraitItemView>,
    left: Seq<Option<Seq<char>>>,
    right: Seq<Option<Seq<char>>>,
)
    requires
        forall|k: int| 0 <= k < items.len() ==> reading_at(left, k) == reading_at(right, k),
    ensures
        first_failure(items, left) == first_failure(items, right),
        registered(items, left) == registered(items, right),
        registrations_spec(items, left) == registrations_spec(items, right),
    decreases items.len(),
{
    if items.len() > 0 {
        lemma_readings_agree(items.drop_last(), left, right);
        assert(reading_at(left, items.len() - 1) == reading_at(right, items.len() - 1));
    }
}

/// Where no name is to be read, every possible list of readings gives what
/// no readings give.
pub proof fn lemma_nothing_read(items: Seq<TraitItemView>, readings: Seq<Option<Seq<char>>>)
    requires
        reads_nothing(items),
        possible_readings(items, readings),
    ensures
        registrations_spec(items, readings) == registrations_spec(items, Seq::empty()),
{
    assert forall|k: int| 0 <= k < items.len() implies reading_at(readings, k) == reading_at(
        Seq::<Option<Seq<char>>>::empty(),
        k,
    ) by {
        assert(item_candidate(items[k]).is_none());
        assert(possible_reading(item_candidate(items[k]), reading_at(readings, k)));
    }
    lemma_readings_agree(items, readings, Seq::empty());
}

/// The view of an outcome of `compute_method_registrations`.
pub open spec fn registrations_view(outcome: Result<Vec<MethodRegistration>, Error>) -> Result<
    Seq<MethodRegistrationView>,
    Error,
> {
    match outcome {
        Ok(registrations) => Ok(views(registrations@)),
        Err(error) => Err(error),
    }
}

/// Reads the names that the `rpc` annotations of an interface give: one
/// reading for each member, none where the member has no name to read.
pub fn read_names(item_trait: &ItemTrait) -> (readings: Vec<Option<String>>)
    ensures
        readings.len() == item_trait.items.len(),
        possible_readings(item_trait@.items, readings_view(readings@)),
{
    let ghost all = item_trait@.items;
    let mut readings: Vec<Option<String>> = Vec::new();
    let mut i: usize = 0;
    while i < item_trait.items.len()
        invariant
            i <= item_trait.items.len(),
            all == views(item_trait.items@),
            readings.len() == i,
            forall|k: int|
                0 <= k < i ==> possible_reading(
                    item_candidate(#[trigger] all[k]),
                    text_view(readings[k]),
                ),
        decreases item_trait.items.len() - i,
    {
        let reading = match &item_trait.items[i] {
            TraitItem::Method(method) => read_name(RpcMethodAttribute::name_candidate(method)),
            _ => None,
        };
        readings.push(reading);
        i += 1;
    }
    assert forall|k: int| 0 <= k < all.len() implies possible_reading(
        item_candidate(#[trigger] all[k]),
        reading_at(readings_view(readings@), k),
    ) by {
        assert(readings_view(readings@)[k] == text_view(readings[k]));
    }
    readings
}

/// Registers the annotated procedures of an interface, in declaration
/// order, given the readings of their names.
///
/// The first procedure whose annotations are refused aborts the whole; so
/// does, after that, the first procedure that exposes a name already taken.
pub fn compute_method_registrations_with(
    item_trait: &ItemTrait,
    readings: &Vec<Option<String>>,
) -> (outcome: Result<Vec<MethodRegistration>, Error>)
    ensures
        registrations_view(outcome) == registrations_spec(
            item_trait@.items,
            readings_view(readings@),
        ),
{
    let ghost all = item_trait@.items;
    let ghost read = readings_view(readings@);
    let none: Option<String> = None;
    let mut registrations: Vec<MethodRegistration> = Vec::new();
    let mut i: usize = 0;
    while i < item_trait.items.len()
        invariant
            i <= item_trait.items.len(),
            all == views(item_trait.items@),
            read == readings_view(readings@),
            none.is_none(),
            first_failure(all.take(i as int), read).is_none(),
            views(registrations@) == registered(all.take(i as int), read),
        decreases item_trait.items.len() - i,
    {
        proof {
            assert(all.take(i + 1).drop_last() =~= all.take(i as int));
            assert(all.take(i + 1).last() == item_trait.items[i as int]@);
        }
        if let TraitItem::Method(method) = &item_trait.items[i] {
            let reading = if i < readings.len() {
                &readings[i]
            } else {
                &none
            };
            assert(text_view(*reading) == reading_at(read, i as int));
            match RpcMethodAttribute::parse_attr_with(method, reading) {
                Ok(Some(attr)) => {
                    let has_metadata = match &attr.kind {
                        AttributeKind::Rpc { has_metadata, .. } => *has_metadata,
                    };
                    let ghost before = views(registrations@);
                    let registration = MethodRegistration::Standard {
                        method: RpcMethod::new(attr, method.duplicate(), i),
                        has_metadata,
                    };
                    registrations.push(registration);
                    assert(views(registrations@) =~= before.push(registration@));
                },
                Ok(None) => {},
                Err(error) => {
                    proof {
                        lemma_failure_stays(all, read, i + 1);
                    }
                    return Err(Error::Attribute { item: i, error });
                },
            }
        }
        i += 1;
    }
    assert(all.take(i as int) =~= all);
    let ghost listed = views(registrations@);
    let mut at: usize = 0;
    while at < registrations.len()
        invariant
            at <= registrations.len(),
            listed == views(registrations@),
            listed == registered(all, read),
            all == item_trait@.items,
            read == readings_view(readings@),
            first_failure(all, read).is_none(),
            first_duplicate(listed.take(at as int)).is_none(),
        decreases registrations.len() - at,
    {
        proof {
            assert(listed.take(at + 1).drop_last() =~= listed.take(at as int));
        }
        let name = registrations[at].method().name();
        let mut earlier: usize = 0;
        while earlier < at
            invariant
                earlier <= at < registrations.len(),
                listed == views(registrations@),
                listed == registered(all, read),
                all == item_trait@.items,
                read == readings_view(readings@),
                first_failure(all, read).is_none(),
                first_duplicate(listed.take(at as int)).is_none(),
                listed.take(at + 1).drop_last() == listed.take(at as int),
                name@ == exposed_name(listed[at as int].method()),
                forall|k: int|
                    0 <= k < earlier ==> exposed_name(#[trigger] listed[k].method()) != name@,
            decreases at - earlier,
        {
            let other = registrations[earlier].method().name();
            if other == name {
                proof {
                    assert(listed.take(at + 1)[earlier as int] == listed[earlier as int]);
                    assert(repeats_earlier(listed.take(at + 1), at as int));
                    lemma_duplicate_stays(listed, at + 1);
                }
                return Err(
                    Error::Registration(
                        RegistrationError::DuplicateName {
                            item: registrations[at].method().index,
                        },
                    ),
                );
            }
            earlier += 1;
        }
        proof {
            assert forall|k: int| 0 <= k < at implies exposed_name(
                #[trigger] listed.take(at + 1)[k].method(),
            ) != exposed_name(listed.take(at + 1)[at as int].method()) by {
                assert(listed.take(at + 1)[k] == listed[k]);
            }
        }
        at += 1;
    }
    assert(listed.take(at as int) =~= listed);
    Ok(registrations)
}

/// Registers the annotated procedures of an interface. The names are read by
/// syn, so the outcome is one that `compute_method_registrations_with` has
/// for some possible readings. Where no name is to be read, it is the
/// outcome for no readings.
pub fn compute_method_registrations(item_trait: &ItemTrait) -> (outcome: Result<
    Vec<MethodRegistration>,
    Error,
>)
    ensures
        exists|readings: Seq<Option<Seq<char>>>|
            possible_readings(item_trait@.items, readings) && registrations_view(outcome)
                == #[trigger] registrations_spec(item_trait@.items, readings),
        reads_nothing(item_trait@.items) ==> registrations_view(outcome) == registrations_spec(
            item_trait@.items,
            Seq::empty(),
        ),
{
    let readings = read_names(item_trait);
    let outcome = compute_method_registrations_with(item_trait, &readings);
    proof {
        let read = readings_view(readings@);
        assert(possible_readings(item_trait@.items, read) && registrations_view(outcome)
            == registrations_spec(item_trait@.items, read));
        if reads_nothing(item_trait@.items) {
            lemma_nothing_read(item_trait@.items, read);
        }
    }
    outcome
}

/// The name of the companion module of an interface.
pub fn rpc_wrapper_mod_name(ident: &str) -> (name: String)
    ensures
        name@ == companion_name(ident@),
{
    OPENRPC_SCHEMA_MODE_PREFIX.to_owned().concat(ident)
}

/// Rewrites the members of an interface, given its registrations.
#[derive(Clone, Debug, PartialEq, Eq)]
pub struct RpcTrait {
    pub methods: Vec<MethodRegistration>,
    /// Whether a metadata type has been met.
    pub has_metadata: bool,
}

/// Copies a list of annotations without those that equal the given one.
fn copy_without(attrs: &Vec<Attribute>, gone: &Attribute) -> (kept: Vec<Attribute>)
    ensures
        views(kept@) == without(views(attrs@), gone@),
{
    let ghost all = views(attrs@);
    let mut kept: Vec<Attribute> = Vec::new();
    let mut i: usize = 0;
    while i < attrs.len()
        invariant
            i <= attrs.len(),
            all == views(attrs@),
            views(kept@) == without(all.take(i as int), gone@),
        decreases attrs.len() - i,
    {
        proof {
            assert(all.take(i + 1).drop_last() =~= all.take(i as int));
            assert(all.take(i + 1).last() == attrs[i as int]@);
        }
        if !attrs[i].same(gone) {
            let ghost before = views(kept@);
            let copy = attrs[i].duplicate();
            kept.push(copy);
            assert(views(kept@) =~= before.push(copy@));
        }
        i += 1;
    }
    assert(all.take(i as int) =~= all);
    kept
}

impl RpcTrait {
    /// The registered procedure at position `index` of the interface.
    fn find(&self, index: usize) -> (found: Option<&RpcMethod>)
        ensures
            match found {
                Some(method) => lookup(views(self.methods@), index as int) == Some(method@),
                None => lookup(views(self.methods@), index as int).is_none(),
            },
    {
        let ghost all = views(self.methods@);
        let mut found: Option<&RpcMethod> = None;
        let mut i: usize = 0;
        while i < self.methods.len()
            invariant
                i <= self.methods.len(),
                all == views(self.methods@),
                match found {
                    Some(method) => lookup(all.take(i as int), index as int) == Some(method@),
                    None => lookup(all.take(i as int), index as int).is_none(),
                },
            decreases self.methods.len() - i,
        {
            proof {
                assert(all.take(i + 1).drop_last() =~= all.take(i as int));
                assert(all.take(i + 1).last() == self.methods[i as int]@);
            }
            let method = self.methods[i].method();
            if method.index == index {
                found = Some(method);
            }
            i += 1;
        }
        assert(all.take(i as int) =~= all);
        found
    }

    /// The procedure at position `index` of the interface, without the
    /// annotation that it was registered with. A procedure that is not the
    /// one registered at that position stays as it is. Of the registered one
    /// the annotations that equal the recorded one go; its other
    /// annotations, its signature and its body stay as they are.
    pub fn fold_trait_item_method(&self, index: usize, method: &Method) -> (folded: Method)
        ensures
            folded@ == strip_spec(method@, views(self.methods@), index as int),
    {
        match self.find(index) {
            Some(found) => {
                if found.trait_item.same(method) {
                    Method {
                        attrs: copy_without(&method.attrs, &found.attr.attr),
                        name: method.name.duplicate(),
                        params: duplicate_all(&method.params),
                        output: method.output.duplicate(),
                        source: method.source.duplicate(),
                    }
                } else {
                    method.duplicate()
                }
            },
            None => method.duplicate(),
        }
    }

    /// An associated type, with the capability bound if it is the metadata
    /// type, and as it is if not.
    pub fn fold_trait_item_type(&mut self, ty: &AssocType) -> (folded: AssocType)
        ensures
            folded@ == bound_spec(ty@),
            final(self).methods == old(self).methods,
            final(self).has_metadata == (old(self).has_metadata || ty@.name == METADATA_TYPE@),
    {
        let mut folded = ty.duplicate();
        if is_word(&ty.name, METADATA_TYPE) {
            self.has_metadata = true;
            let ghost before = views(folded.bounds@);
            folded.bounds.push(METADATA_BOUND.to_owned());
            assert(views(folded.bounds@) =~= before.push(METADATA_BOUND@));
        }
        folded
    }

    /// The member at position `index` of the interface, rewritten. The
    /// metadata type is noted where it is met.
    pub fn fold_trait_item(&mut self, index: usize, item: &TraitItem) -> (folded: TraitItem)
        ensures
            folded@ == rewrite_item(item@, views(old(self).methods@), index as int),
            final(self).methods == old(self).methods,
            final(self).has_metadata == (old(self).has_metadata || is_metadata_type(item@)),
    {
        match item {
            TraitItem::Method(method) => TraitItem::Method(
                self.fold_trait_item_method(index, method),
            ),
            TraitItem::Type(ty) => TraitItem::Type(self.fold_trait_item_type(ty)),
            TraitItem::Verbatim(text) => TraitItem::Verbatim(text.duplicate()),
        }
    }
}

/// The signature of the schema accessor, as a member of an interface.
pub fn schema_signature_item() -> (item: TraitItem)
    ensures
        item@ == TraitItemView::Method(schema_signature()),
{
    let mut args: Vec<MetaArg> = Vec::new();
    args.push(MetaArg::Word("hidden".to_owned()));
    assert(views(args@) =~= seq![MetaArgView::Word("hidden"@)]);
    let mut attrs: Vec<Attribute> = Vec::new();
    let hidden = Attribute { path: "doc".to_owned(), args: AttrArgs::List(args) };
    attrs.push(hidden);
    assert(views(attrs@) =~= seq![hidden@]);
    let params: Vec<Param> = Vec::new();
    assert(views(params@) =~= Seq::empty());
    TraitItem::Method(
        Method {
            attrs,
            name: SCHEMA_ACCESSOR.to_owned(),
            params,
            output: SCHEMA_DOCUMENT.to_owned(),
            source: ACCESSOR_SIGNATURE.to_owned(),
        },
    )
}

/// The view of an outcome of `handle_trait`.
pub open spec fn trait_outcome_view(outcome: Result<TraitExpansion, Error>) -> Result<
    TraitExpansionView,
    Error,
> {
    match outcome {
        Ok(expansion) => Ok(expansion@),
        Err(error) => Err(error),
    }
}

/// The view of an outcome of `handle_impl`.
pub open spec fn impl_outcome_view(outcome: Result<ItemImpl, Error>) -> Result<
    ItemImplView,
    Error,
> {
    match outcome {
        Ok(expansion) => Ok(expansion@),
        Err(error) => Err(error),
    }
}

/// The view of an outcome of `rpc_trait`.
pub open spec fn outcome_view(outcome: Result<Expansion, Error>) -> Result<ExpansionView, Error> {
    match outcome {
        Ok(expansion) => Ok(expansion@),
        Err(error) => Err(error),
    }
}

/// Derives from an interface, given the readings of the names: the import
/// of the schema document's type, the companion module with the schema
/// routine, the name under which the routine is exported again, and the
/// rewritten interface. An error of the registrations aborts the whole.
pub fn handle_trait_with(rpc_trait: ItemTrait, readings: &Vec<Option<String>>) -> (outcome: Result<
    TraitExpansion,
    Error,
>)
    ensures
        trait_outcome_view(outcome) == expand_trait(rpc_trait@, readings_view(readings@)),
{
    let method_registrations = match compute_method_registrations_with(&rpc_trait, readings) {
        Ok(registrations) => registrations,
        Err(error) => {
            return Err(error);
        },
    };
    let mod_name = rpc_wrapper_mod_name(rpc_trait.name.as_str());
    let routine = generate_schema_method(&method_registrations);
    let ghost all = rpc_trait@.items;
    let ghost registered = views(method_registrations@);
    let mut folder = RpcTrait { methods: method_registrations, has_metadata: false };
    let mut items: Vec<TraitItem> = Vec::new();
    let mut i: usize = 0;
    while i < rpc_trait.items.len()
        invariant
            i <= rpc_trait.items.len(),
            all == views(rpc_trait.items@),
            registered == views(folder.methods@),
            items.len() == i,
            forall|k: int| 0 <= k < i ==> items[k]@ == rewrite_item(all[k], registered, k),
        decreases rpc_trait.items.len() - i,
    {
        let folded = folder.fold_trait_item(i, &rpc_trait.items[i]);
        items.push(folded);
        i += 1;
    }
    items.push(schema_signature_item());
    assert(views(items@) =~= rewritten_items(all, registered));
    let mut imports: Vec<String> = Vec::new();
    imports.push(SCOPE_IMPORT.to_owned());
    imports.push(DOCUMENT_TYPES_IMPORT.to_owned());
    assert(views(imports@) =~= seq![SCOPE_IMPORT@, DOCUMENT_TYPES_IMPORT@]);
    Ok(
        TraitExpansion {
            import: DOCUMENT_IMPORT.to_owned(),
            module: CompanionModule { name: mod_name, imports, routine },
            reexport: SCHEMA_FN.to_owned(),
            interface: ItemTrait { name: rpc_trait.name, items, source: rpc_trait.source },
        },
    )
}

/// Derives from an interface. The names are read by syn, so the outcome is
/// one that `handle_trait_with` has for some possible readings. Where no
/// name is to be read, it is the outcome for no readings.
pub fn handle_trait(rpc_trait: ItemTrait) -> (outcome: Result<TraitExpansion, Error>)
    ensures
        exists|readings: Seq<Option<Seq<char>>>|
            possible_readings(rpc_trait@.items, readings) && trait_outcome_view(outcome)
                == #[trigger] expand_trait(rpc_trait@, readings),
        reads_nothing(rpc_trait@.items) ==> trait_outcome_view(outcome) == expand_trait(
            rpc_trait@,
            Seq::empty(),
        ),
{
    let readings = read_names(&rpc_trait);
    let ghost interface = rpc_trait@;
    let outcome = handle_trait_with(rpc_trait, &readings);
    proof {
        let read = readings_view(readings@);
        assert(possible_readings(interface.items, read) && trait_outcome_view(outcome)
            == expand_trait(interface, read));
        if reads_nothing(interface.items) {
            lemma_nothing_read(interface.items, read);
        }
    }
    outcome
}

/// Derives from an implementation: the same block with the schema accessor
/// as its last member. The accessor calls the schema routine of the
/// companion module of the implemented interface. A block that implements no
/// interface is refused, and so is one whose interface is not named by a
/// single identifier. That the interface was itself derived from is not
/// looked into.
pub fn handle_impl(rpc_impl: ItemImpl) -> (outcome: Result<ItemImpl, Error>)
    ensures
        impl_outcome_view(outcome) == expand_impl(rpc_impl@),
{
    let mut rpc_impl = rpc_impl;
    let accessor = match &rpc_impl.trait_ {
        None => {
            return Err(Error::NotAnInterfaceImplementation);
        },
        Some(path) => match path.get_ident() {
            None => {
                return Err(Error::UnresolvedInterface);
            },
            Some(interface) => {
                let mod_name = rpc_wrapper_mod_name(interface.as_str());
                ACCESSOR_HEAD.to_owned().concat(mod_name.as_str()).concat(ACCESSOR_TAIL)
            },
        },
    };
    let ghost before = views(rpc_impl.items@);
    rpc_impl.items.push(accessor);
    assert(views(rpc_impl.items@) =~= before.push(accessor@));
    Ok(rpc_impl)
}

/// Derives from a declaration, given the readings of the names: from an
/// interface as `handle_trait_with` does, from an implementation as
/// `handle_impl` does. Any other declaration is refused.
pub fn rpc_trait_with(input: Item, readings: &Vec<Option<String>>) -> (outcome: Result<
    Expansion,
    Error,
>)
    ensures
        outcome_view(outcome) == expand(input@, readings_view(readings@)),
{
    match input {
        Item::Trait(item_trait) => match handle_trait_with(item_trait, readings) {
            Ok(expansion) => Ok(Expansion::Trait(expansion)),
            Err(error) => Err(error),
        },
        Item::Impl(item_impl) => match handle_impl(item_impl) {
            Ok(expansion) => Ok(Expansion::Impl(expansion)),
            Err(error) => Err(error),
        },
        Item::Verbatim(_) => Err(Error::UnsupportedTarget),
    }
}

/// Derives from a declaration. The names of an interface are read by syn,
/// so the outcome is one that `rpc_trait_with` has for some possible
/// readings. Where no name is to be read, as for every declaration that is
/// not an interface, it is the outcome for no readings.
pub fn rpc_trait(input: Item) -> (outcome: Result<Expansion, Error>)
    ensures
        exists|readings: Seq<Option<Seq<char>>>|
            possible_item_readings(input@, readings) && outcome_view(outcome)
                == #[trigger] expand(input@, readings),
        item_reads_nothing(input@) ==> outcome_view(outcome) == expand(input@, Seq::empty()),
{
    match input {
        Item::Trait(item_trait) => {
            let ghost interface = item_trait@;
            let derived = handle_trait(item_trait);
            let ghost readings = choose|readings: Seq<Option<Seq<char>>>|
                possible_readings(interface.items, readings) && trait_outcome_view(derived)
                    == #[trigger] expand_trait(interface, readings);
            let outcome = match derived {
                Ok(expansion) => Ok(Expansion::Trait(expansion)),
                Err(error) => Err(error),
            };
            assert(possible_item_readings(ItemView::Trait(interface), readings) && outcome_view(
                outcome,
            ) == expand(ItemView::Trait(interface), readings));
            outcome
        },
        Item::Impl(item_impl) => {
            let ghost block = item_impl@;
            let outcome = match handle_impl(item_impl) {
                Ok(expansion) => Ok(Expansion::Impl(expansion)),
                Err(error) => Err(error),
            };
            assert(possible_item_readings(ItemView::Impl(block), Seq::empty()) && outcome_view(
                outcome,
            ) == expand(ItemView::Impl(block), Seq::empty()));
            outcome
        },
        Item::Verbatim(text) => {
            assert(possible_item_readings(ItemView::Verbatim(text@), Seq::empty()) && outcome_view(
                Err::<Expansion, Error>(Error::UnsupportedTarget),
            ) == expand(ItemView::Verbatim(text@), Seq::empty()));
            Err(Error::UnsupportedTarget)
        },
    }
}

} // verus!
