//! What holds of every derivation.
//!
//! The laws speak of what is derived for given readings of the names. They
//! hold for every list of readings, so for whatever syn reads.

use crate::attr::{count_class, is_rpc, parse_attr_spec, rpc_positions, ArgClass};
use crate::error::{AttributeError, Error, RegistrationError};
use crate::rpc_trait::{
    accessor_text, bound_spec, companion_name, expand, expand_impl, expand_trait, first_duplicate,
    first_failure, is_metadata_type, item_attr, item_candidate, item_reads_nothing,
    lemma_readings_agree, lookup, outcome_view, possible_item_readings, reading_at, registered,
    registration_of, registrations_spec, rewrite_item, rewritten_items, schema_signature,
    strip_spec, without, Expansion, METADATA_BOUND, OPENRPC_SCHEMA_MODE_PREFIX,
};
use crate::syntax::{
    path_ident, AssocTypeView, AttrArgsView, AttributeView, Item, ItemImplView, ItemTraitView,
    ItemView, MethodView, TraitItemView,
};
use crate::to_gen_schema::{descriptor_spec, exposed_name, MethodRegistrationView, RpcMethodView};
use vstd::prelude::*;

verus! {

/// Whether a member is a procedure that carries an `rpc` annotation.
pub open spec fn annotated(item: TraitItemView) -> bool {
    match item {
        TraitItemView::Method(method) => rpc_positions(method.attrs).len() > 0,
        _ => false,
    }
}

/// How many members are annotated procedures.
pub open spec fn annotated_count(items: Seq<TraitItemView>) -> nat
    decreases items.len(),
{
    if items.len() == 0 {
        0
    } else {
        annotated_count(items.drop_last()) + if annotated(items.last()) {
            1nat
        } else {
            0nat
        }
    }
}

/// Whether no member is an annotated procedure.
pub open spec fn plain(items: Seq<TraitItemView>) -> bool {
    forall|k: int| 0 <= k < items.len() ==> !annotated(#[trigger] items[k])
}

/// Whether an `rpc` annotation carries the marker `meta`.
pub open spec fn marked(attr: AttributeView) -> bool {
    match attr.args {
        AttrArgsView::List(list) => count_class(list, ArgClass::Metadata) > 0,
        _ => false,
    }
}

/// Whether no two registrations expose the same name.
pub open spec fn distinct_names(registrations: Seq<MethodRegistrationView>) -> bool {
    forall|i: int, j: int|
        0 <= i < j < registrations.len() ==> exposed_name(
            (#[trigger] registrations[i]).method(),
        ) != exposed_name((#[trigger] registrations[j]).method())
}

/// The positions that `rpc_positions` lists are those of the `rpc` annotations.
pub proof fn lemma_positions(attrs: Seq<AttributeView>)
    ensures
        forall|k: int|
            0 <= k < rpc_positions(attrs).len() ==> 0 <= (#[trigger] rpc_positions(attrs)[k])
                < attrs.len() && is_rpc(attrs[rpc_positions(attrs)[k]]),
        forall|i: int|
            0 <= i < attrs.len() && is_rpc(#[trigger] attrs[i]) ==> rpc_positions(attrs).contains(i),
    decreases attrs.len(),
{
    if attrs.len() > 0 {
        let front = attrs.drop_last();
        lemma_positions(front);
        let found = rpc_positions(attrs);
        assert forall|i: int| 0 <= i < attrs.len() && is_rpc(#[trigger] attrs[i]) implies found.contains(
            i,
        ) by {
            if i < attrs.len() - 1 {
                assert(front[i] == attrs[i]);
                let k = choose|k: int| 0 <= k < rpc_positions(front).len() && rpc_positions(front)[k] == i;
                assert(found[k] == i);
            } else {
                assert(found[found.len() - 1] == i);
            }
        }
        assert forall|k: int| 0 <= k < found.len() implies 0 <= (#[trigger] found[k]) < attrs.len()
            && is_rpc(attrs[found[k]]) by {
            if k < rpc_positions(front).len() {
                assert(found[k] == rpc_positions(front)[k]);
                assert(front[found[k]] == attrs[found[k]]);
            }
        }
    }
}

/// Without its one `rpc` annotation, a list of annotations holds none.
pub proof fn lemma_strip_leaves_none(attrs: Seq<AttributeView>)
    requires
        rpc_positions(attrs).len() == 1,
    ensures
        0 <= rpc_positions(attrs)[0] < attrs.len(),
        rpc_positions(attrs.remove(rpc_positions(attrs)[0])).len() == 0,
{
    lemma_positions(attrs);
    let at = rpc_positions(attrs)[0];
    let rest = attrs.remove(at);
    lemma_positions(rest);
    if rpc_positions(rest).len() > 0 {
        let q = rpc_positions(rest)[0];
        let origin = if q < at {
            q
        } else {
            q + 1
        };
        assert(rest[q] == attrs[origin]);
        assert(is_rpc(attrs[origin]));
        assert(rpc_positions(attrs).contains(origin));
        let k = choose|k: int| 0 <= k < rpc_positions(attrs).len() && rpc_positions(attrs)[k] == origin;
        assert(k == 0);
    }
}

/// What is left of a list without an annotation: no annotation that equals
/// it, and nothing that the list did not hold.
pub proof fn lemma_without_members(attrs: Seq<AttributeView>, gone: AttributeView)
    ensures
        forall|k: int|
            0 <= k < without(attrs, gone).len() ==> (#[trigger] without(attrs, gone)[k]) != gone
                && attrs.contains(without(attrs, gone)[k]),
        forall|i: int|
            0 <= i < attrs.len() && (#[trigger] attrs[i]) != gone ==> without(
                attrs,
                gone,
            ).contains(attrs[i]),
    decreases attrs.len(),
{
    if attrs.len() > 0 {
        let front = attrs.drop_last();
        let last = attrs.len() - 1;
        lemma_without_members(front, gone);
        let kept = without(attrs, gone);
        let before = without(front, gone);
        assert forall|k: int| 0 <= k < kept.len() implies (#[trigger] kept[k]) != gone
            && attrs.contains(kept[k]) by {
            if k < before.len() {
                assert(kept[k] == before[k]);
                let i = choose|i: int| 0 <= i < front.len() && front[i] == before[k];
                assert(attrs[i] == kept[k]);
            } else {
                assert(attrs[last] == kept[k]);
            }
        }
        assert forall|i: int| 0 <= i < attrs.len() && (#[trigger] attrs[i]) != gone implies kept.contains(
            attrs[i],
        ) by {
            if i < last {
                assert(front[i] == attrs[i]);
                let k = choose|k: int| 0 <= k < before.len() && before[k] == front[i];
                assert(kept[k] == attrs[i]);
            } else {
                assert(kept[kept.len() - 1] == attrs[i]);
            }
        }
    }
}

/// A list that does not hold an annotation is itself without it.
pub proof fn lemma_without_absent(attrs: Seq<AttributeView>, gone: AttributeView)
    requires
        forall|i: int| 0 <= i < attrs.len() ==> (#[trigger] attrs[i]) != gone,
    ensures
        without(attrs, gone) == attrs,
    decreases attrs.len(),
{
    if attrs.len() > 0 {
        let front = attrs.drop_last();
        assert forall|i: int| 0 <= i < front.len() implies (#[trigger] front[i]) != gone by {
            assert(front[i] == attrs[i]);
        }
        lemma_without_absent(front, gone);
        assert(attrs[attrs.len() - 1] != gone);
        assert(front.push(attrs.last()) =~= attrs);
    } else {
        assert(attrs =~= Seq::<AttributeView>::empty());
    }
}

/// A list that holds an annotation at one place only is, without it, the
/// list with that place removed.
pub proof fn lemma_without_single(attrs: Seq<AttributeView>, at: int)
    requires
        0 <= at < attrs.len(),
        forall|i: int| 0 <= i < attrs.len() && i != at ==> (#[trigger] attrs[i]) != attrs[at],
    ensures
        without(attrs, attrs[at]) == attrs.remove(at),
    decreases attrs.len(),
{
    let front = attrs.drop_last();
    let last = attrs.len() - 1;
    let gone = attrs[at];
    if at == last {
        assert forall|i: int| 0 <= i < front.len() implies (#[trigger] front[i]) != gone by {
            assert(front[i] == attrs[i]);
        }
        lemma_without_absent(front, gone);
        assert(front =~= attrs.remove(at));
    } else {
        assert(front[at] == gone);
        assert forall|i: int| 0 <= i < front.len() && i != at implies (#[trigger] front[i])
            != front[at] by {
            assert(front[i] == attrs[i]);
        }
        lemma_without_single(front, at);
        assert(attrs[last] != gone);
        assert(front.remove(at).push(attrs.last()) =~= attrs.remove(at));
    }
}

/// An interface without annotated procedures registers nothing, and nothing
/// of it is refused, whatever the readings.
pub proof fn lemma_plain_registers_nothing(
    items: Seq<TraitItemView>,
    readings: Seq<Option<Seq<char>>>,
)
    requires
        plain(items),
    ensures
        first_failure(items, readings).is_none(),
        registered(items, readings) == Seq::<MethodRegistrationView>::empty(),
        registrations_spec(items, readings) == Ok::<Seq<MethodRegistrationView>, Error>(
            Seq::empty(),
        ),
    decreases items.len(),
{
    if items.len() > 0 {
        let front = items.drop_last();
        assert forall|k: int| 0 <= k < front.len() implies !annotated(#[trigger] front[k]) by {
            assert(front[k] == items[k]);
        }
        lemma_plain_registers_nothing(front, readings);
        assert(!annotated(items[items.len() - 1]));
    }
}

/// The registrations stand in declaration order, each made from the
/// procedure at its position.
pub proof fn lemma_registered_order(items: Seq<TraitItemView>, readings: Seq<Option<Seq<char>>>)
    ensures
        forall|i: int, j: int|
            0 <= i < j < registered(items, readings).len() ==> (#[trigger] registered(
                items,
                readings,
            )[i]).method().index < (#[trigger] registered(items, readings)[j]).method().index,
        forall|i: int|
            0 <= i < registered(items, readings).len() ==> {
                let method = (#[trigger] registered(items, readings)[i]).method();
                &&& 0 <= method.index < items.len()
                &&& items[method.index] == TraitItemView::Method(method.trait_item)
                &&& parse_attr_spec(method.trait_item, reading_at(readings, method.index)) == Ok::<
                    _,
                    AttributeError,
                >(Some(method.attr))
                &&& registered(items, readings)[i] == registration_of(
                    method.trait_item,
                    method.attr,
                    method.index,
                )
            },
    decreases items.len(),
{
    if items.len() > 0 {
        let front = items.drop_last();
        lemma_registered_order(front, readings);
        let list = registered(items, readings);
        let before = registered(front, readings);
        assert forall|i: int| 0 <= i < list.len() implies {
            let method = (#[trigger] list[i]).method();
            &&& 0 <= method.index < items.len()
            &&& items[method.index] == TraitItemView::Method(method.trait_item)
            &&& parse_attr_spec(method.trait_item, reading_at(readings, method.index)) == Ok::<
                _,
                AttributeError,
            >(Some(method.attr))
            &&& list[i] == registration_of(method.trait_item, method.attr, method.index)
        } by {
            if i < before.len() {
                assert(list[i] == before[i]);
                assert(front[before[i].method().index] == items[before[i].method().index]);
            }
        }
        assert forall|i: int, j: int| 0 <= i < j < list.len() implies (#[trigger] list[i]).method().index
            < (#[trigger] list[j]).method().index by {
            assert(list[i] == before[i]);
            if j < before.len() {
                assert(list[j] == before[j]);
            }
        }
    }
}

/// Where nothing is refused, there are as many registrations as annotated
/// procedures.
pub proof fn lemma_registered_count(items: Seq<TraitItemView>, readings: Seq<Option<Seq<char>>>)
    requires
        first_failure(items, readings).is_none(),
    ensures
        registered(items, readings).len() == annotated_count(items),
    decreases items.len(),
{
    if items.len() > 0 {
        lemma_registered_count(items.drop_last(), readings);
    }
}

/// No name is repeated exactly where no two registrations expose the same name.
pub proof fn lemma_first_duplicate(registrations: Seq<MethodRegistrationView>)
    ensures
        first_duplicate(registrations).is_none() <==> distinct_names(registrations),
    decreases registrations.len(),
{
    if registrations.len() > 0 {
        let front = registrations.drop_last();
        let last = registrations.len() - 1;
        lemma_first_duplicate(front);
        if first_duplicate(registrations).is_none() {
            assert forall|i: int, j: int| 0 <= i < j < registrations.len() implies exposed_name(
                (#[trigger] registrations[i]).method(),
            ) != exposed_name((#[trigger] registrations[j]).method()) by {
                if j < last {
                    assert(front[i] == registrations[i]);
                    assert(front[j] == registrations[j]);
                }
            }
        }
        if distinct_names(registrations) {
            assert forall|i: int, j: int| 0 <= i < j < front.len() implies exposed_name(
                (#[trigger] front[i]).method(),
            ) != exposed_name((#[trigger] front[j]).method()) by {
                assert(front[i] == registrations[i]);
                assert(front[j] == registrations[j]);
            }
        }
    }
}

/// No registration of a list stands at a position behind the list.
proof fn lemma_lookup_behind(
    items: Seq<TraitItemView>,
    readings: Seq<Option<Seq<char>>>,
    index: int,
)
    requires
        index >= items.len(),
    ensures
        lookup(registered(items, readings), index).is_none(),
    decreases items.len(),
{
    if items.len() > 0 {
        lemma_lookup_behind(items.drop_last(), readings, index);
        let before = registered(items.drop_last(), readings);
        if registered(items, readings).len() > before.len() {
            assert(registered(items, readings).drop_last() =~= before);
        }
    }
}

/// Looking up a position among the registrations gives the registration of
/// the procedure there, if it is an annotated one.
pub proof fn lemma_lookup_registered(
    items: Seq<TraitItemView>,
    readings: Seq<Option<Seq<char>>>,
    index: int,
)
    requires
        0 <= index < items.len(),
    ensures
        lookup(registered(items, readings), index) == match items[index] {
            TraitItemView::Method(method) => match parse_attr_spec(
                method,
                reading_at(readings, index),
            ) {
                Ok(Some(attr)) => Some(RpcMethodView { attr, trait_item: method, index }),
                _ => None,
            },
            _ => None,
        },
    decreases items.len(),
{
    let front = items.drop_last();
    let before = registered(front, readings);
    if registered(items, readings).len() > before.len() {
        assert(registered(items, readings).drop_last() =~= before);
    }
    if index < items.len() - 1 {
        lemma_lookup_registered(front, readings, index);
        assert(front[index] == items[index]);
    } else {
        lemma_lookup_behind(front, readings, index);
    }
}

/// What is looked up is the procedure of one of the registrations.
pub proof fn lemma_lookup_member(registrations: Seq<MethodRegistrationView>, index: int)
    requires
        lookup(registrations, index).is_some(),
    ensures
        exists|i: int|
            0 <= i < registrations.len() && (#[trigger] registrations[i]).method() == lookup(
                registrations,
                index,
            ).unwrap(),
    decreases registrations.len(),
{
    let last = registrations.len() - 1;
    if registrations.last().method().index == index {
        assert(registrations[last].method() == lookup(registrations, index).unwrap());
    } else {
        let front = registrations.drop_last();
        lemma_lookup_member(front, index);
        let i = choose|i: int|
            0 <= i < front.len() && (#[trigger] front[i]).method() == lookup(front, index).unwrap();
        assert(registrations[i] == front[i]);
    }
}

/// Where nothing is refused, the annotations of each member are accepted.
proof fn lemma_item_accepted(
    items: Seq<TraitItemView>,
    readings: Seq<Option<Seq<char>>>,
    index: int,
)
    requires
        first_failure(items, readings).is_none(),
        0 <= index < items.len(),
    ensures
        item_attr(items[index], reading_at(readings, index)).is_ok(),
    decreases items.len(),
{
    if index < items.len() - 1 {
        lemma_item_accepted(items.drop_last(), readings, index);
        assert(items.drop_last()[index] == items[index]);
    }
}

/// The signature of the schema accessor carries no `rpc` annotation.
proof fn lemma_signature_plain()
    ensures
        !annotated(TraitItemView::Method(schema_signature())),
{
    reveal_strlit("doc");
    reveal_strlit("rpc");
    let attrs = schema_signature().attrs;
    assert("doc"@[0] != "rpc"@[0]);
    assert(!is_rpc(attrs[0]));
    assert(attrs.drop_last() =~= Seq::<AttributeView>::empty());
    assert(rpc_positions(attrs.drop_last()).len() == 0);
}

/// Folding a procedure twice with the same registrations gives what folding
/// it once gives: the second pass strips nothing and alters nothing.
pub proof fn law_fold_twice(
    method: MethodView,
    registrations: Seq<MethodRegistrationView>,
    index: int,
)
    ensures
        strip_spec(strip_spec(method, registrations, index), registrations, index) == strip_spec(
            method,
            registrations,
            index,
        ),
{
}

/// A procedure that equals none of the registered ones is folded into
/// itself, at whatever position.
pub proof fn law_unregistered_untouched(
    method: MethodView,
    registrations: Seq<MethodRegistrationView>,
    index: int,
)
    requires
        forall|i: int|
            0 <= i < registrations.len() ==> (#[trigger] registrations[i]).method().trait_item
                != method,
    ensures
        strip_spec(method, registrations, index) == method,
{
    if lookup(registrations, index).is_some() {
        lemma_lookup_member(registrations, index);
    }
}

/// The procedure that is registered at a position loses, when folded there,
/// every annotation that equals the recorded one, and nothing else: what is
/// left are the other annotations in their order, and the name, the
/// parameters, the return type and the rest of the declaration.
pub proof fn law_registered_stripped(
    method: MethodView,
    registrations: Seq<MethodRegistrationView>,
    index: int,
)
    requires
        lookup(registrations, index).is_some(),
        lookup(registrations, index).unwrap().trait_item == method,
    ensures
        strip_spec(method, registrations, index) == (MethodView {
            attrs: without(method.attrs, lookup(registrations, index).unwrap().attr.attr),
            ..method
        }),
        !strip_spec(method, registrations, index).attrs.contains(
            lookup(registrations, index).unwrap().attr.attr,
        ),
        forall|i: int|
            0 <= i < method.attrs.len() && (#[trigger] method.attrs[i]) != lookup(
                registrations,
                index,
            ).unwrap().attr.attr ==> strip_spec(method, registrations, index).attrs.contains(
                method.attrs[i],
            ),
        forall|k: int|
            0 <= k < strip_spec(method, registrations, index).attrs.len()
                ==> method.attrs.contains(
                #[trigger] strip_spec(method, registrations, index).attrs[k],
            ),
{
    let gone = lookup(registrations, index).unwrap().attr.attr;
    lemma_without_members(method.attrs, gone);
    let kept = without(method.attrs, gone);
    if kept.contains(gone) {
        let k = choose|k: int| 0 <= k < kept.len() && kept[k] == gone;
        assert(kept[k] != gone);
    }
}

/// What becomes of each member of an interface: a procedure loses its `rpc`
/// annotation, if it has one, and nothing else; the metadata type gains the
/// capability bound, once; every other member stays as it is.
pub proof fn law_members_rewritten_in_place(
    interface: ItemTraitView,
    readings: Seq<Option<Seq<char>>>,
    k: int,
)
    requires
        expand_trait(interface, readings).is_ok(),
        0 <= k < interface.items.len(),
    ensures
        expand_trait(interface, readings).unwrap().interface.items.len() == interface.items.len()
            + 1,
        expand_trait(interface, readings).unwrap().interface.items[k] == match interface.items[k] {
            TraitItemView::Method(method) => if annotated(interface.items[k]) {
                TraitItemView::Method(
                    MethodView {
                        attrs: method.attrs.remove(rpc_positions(method.attrs)[0]),
                        ..method
                    },
                )
            } else {
                interface.items[k]
            },
            TraitItemView::Type(ty) => if is_metadata_type(interface.items[k]) {
                TraitItemView::Type(
                    AssocTypeView { bounds: ty.bounds.push(METADATA_BOUND@), ..ty },
                )
            } else {
                interface.items[k]
            },
            TraitItemView::Verbatim(_) => interface.items[k],
        },
{
    let items = interface.items;
    lemma_lookup_registered(items, readings, k);
    lemma_item_accepted(items, readings, k);
    match items[k] {
        TraitItemView::Method(method) => {
            lemma_positions(method.attrs);
            if rpc_positions(method.attrs).len() > 0 {
                let at = rpc_positions(method.attrs)[0];
                assert forall|i: int| 0 <= i < method.attrs.len() && i != at implies (
                #[trigger] method.attrs[i]) != method.attrs[at] by {
                    if method.attrs[i] == method.attrs[at] {
                        assert(is_rpc(method.attrs[i]));
                        let p = choose|p: int|
                            0 <= p < rpc_positions(method.attrs).len() && rpc_positions(
                                method.attrs,
                            )[p] == i;
                        assert(p == 0);
                    }
                }
                lemma_without_single(method.attrs, at);
            }
        },
        _ => {},
    }
}

/// An interface without annotated procedures: whatever the readings, the
/// schema routine describes no method, and the rewritten interface has the
/// same members, the metadata type with the capability bound, followed by
/// the signature of the schema accessor.
pub proof fn law_plain_interface(interface: ItemTraitView, readings: Seq<Option<Seq<char>>>)
    requires
        plain(interface.items),
    ensures
        expand_trait(interface, readings).is_ok(),
        expand_trait(interface, readings).unwrap().module.routine.methods.len() == 0,
        expand_trait(interface, readings).unwrap().interface.name == interface.name,
        expand_trait(interface, readings).unwrap().interface.source == interface.source,
        expand_trait(interface, readings).unwrap().interface.items.len() == interface.items.len()
            + 1,
        expand_trait(interface, readings).unwrap().interface.items.last() == TraitItemView::Method(
            schema_signature(),
        ),
        forall|k: int|
            0 <= k < interface.items.len() ==> #[trigger] expand_trait(
                interface,
                readings,
            ).unwrap().interface.items[k] == match interface.items[k] {
                TraitItemView::Type(ty) => TraitItemView::Type(bound_spec(ty)),
                other => other,
            },
{
    lemma_plain_registers_nothing(interface.items, readings);
}

/// An interface without annotated procedures and without a metadata type is
/// rewritten into itself with the signature of the schema accessor as one
/// more member.
pub proof fn law_plain_interface_unchanged(
    interface: ItemTraitView,
    readings: Seq<Option<Seq<char>>>,
)
    requires
        plain(interface.items),
        forall|k: int| 0 <= k < interface.items.len() ==> !is_metadata_type(interface.items[k]),
    ensures
        expand_trait(interface, readings).is_ok(),
        expand_trait(interface, readings).unwrap().interface == (ItemTraitView {
            items: interface.items.push(TraitItemView::Method(schema_signature())),
            ..interface
        }),
{
    law_plain_interface(interface, readings);
    let rewritten = expand_trait(interface, readings).unwrap().interface;
    assert forall|k: int| 0 <= k < interface.items.len() implies rewritten.items[k]
        == interface.items[k] by {
        assert(!is_metadata_type(interface.items[k]));
    }
    assert(rewritten.items =~= interface.items.push(TraitItemView::Method(schema_signature())));
}

/// Where nothing is refused and no two annotated procedures expose the same
/// name, the derivation succeeds, and the schema routine describes each
/// annotated procedure once: as many methods as annotated procedures, in
/// declaration order, each under the exposed name, with the parameters and
/// the return type of its procedure, and no name twice.
pub proof fn law_one_descriptor_per_procedure(
    interface: ItemTraitView,
    readings: Seq<Option<Seq<char>>>,
)
    requires
        first_failure(interface.items, readings).is_none(),
        distinct_names(registered(interface.items, readings)),
    ensures
        expand_trait(interface, readings).is_ok(),
        expand_trait(interface, readings).unwrap().module.routine.methods.len() == annotated_count(
            interface.items,
        ),
        forall|i: int|
            0 <= i < annotated_count(interface.items) ==> {
                let method = (#[trigger] registered(interface.items, readings)[i]).method();
                let descriptor = expand_trait(interface, readings).unwrap().module.routine.methods[i];
                &&& 0 <= method.index < interface.items.len()
                &&& interface.items[method.index] == TraitItemView::Method(method.trait_item)
                &&& descriptor.name == exposed_name(method)
                &&& descriptor.params == method.trait_item.params
                &&& descriptor.result == method.trait_item.output
            },
        forall|i: int, j: int|
            0 <= i < j < annotated_count(interface.items) ==> (#[trigger] registered(
                interface.items,
                readings,
            )[i]).method().index < (#[trigger] registered(
                interface.items,
                readings,
            )[j]).method().index,
        forall|i: int, j: int|
            0 <= i < j < annotated_count(interface.items) ==> (#[trigger] expand_trait(
                interface,
                readings,
            ).unwrap().module.routine.methods[i]).name != (#[trigger] expand_trait(
                interface,
                readings,
            ).unwrap().module.routine.methods[j]).name,
{
    let items = interface.items;
    lemma_first_duplicate(registered(items, readings));
    lemma_registered_count(items, readings);
    lemma_registered_order(items, readings);
    let methods = expand_trait(interface, readings).unwrap().module.routine.methods;
    assert forall|i: int, j: int| 0 <= i < j < annotated_count(items) implies (#[trigger] methods[i]).name
        != (#[trigger] methods[j]).name by {
        assert(methods[i] == descriptor_spec(registered(items, readings)[i]));
        assert(methods[j] == descriptor_spec(registered(items, readings)[j]));
    }
}

/// No `rpc` annotation is left in a rewritten interface: deriving from it
/// again, whatever the readings, registers nothing, and folding any of its
/// members again with the same registrations leaves the member as it is,
/// the metadata type apart.
pub proof fn law_no_annotation_left(
    interface: ItemTraitView,
    readings: Seq<Option<Seq<char>>>,
    again: Seq<Option<Seq<char>>>,
)
    requires
        expand_trait(interface, readings).is_ok(),
    ensures
        plain(expand_trait(interface, readings).unwrap().interface.items),
        registrations_spec(expand_trait(interface, readings).unwrap().interface.items, again)
            == Ok::<Seq<MethodRegistrationView>, Error>(Seq::empty()),
        forall|k: int|
            0 <= k < interface.items.len() && !is_metadata_type(interface.items[k])
                ==> rewrite_item(
                #[trigger] expand_trait(interface, readings).unwrap().interface.items[k],
                registered(interface.items, readings),
                k,
            ) == expand_trait(interface, readings).unwrap().interface.items[k],
{
    let items = interface.items;
    let list = registered(items, readings);
    let rewritten = expand_trait(interface, readings).unwrap().interface.items;
    assert(rewritten == rewritten_items(items, list));
    assert forall|k: int| 0 <= k < rewritten.len() implies !annotated(#[trigger] rewritten[k]) by {
        if k < items.len() {
            law_members_rewritten_in_place(interface, readings, k);
            match items[k] {
                TraitItemView::Method(method) => {
                    if rpc_positions(method.attrs).len() > 0 {
                        lemma_item_accepted(items, readings, k);
                        lemma_strip_leaves_none(method.attrs);
                    }
                },
                _ => {},
            }
        } else {
            lemma_signature_plain();
        }
    }
    lemma_plain_registers_nothing(rewritten, again);
    assert forall|k: int| 0 <= k < items.len() && !is_metadata_type(items[k]) implies rewrite_item(
        #[trigger] rewritten[k],
        list,
        k,
    ) == rewritten[k] by {
        assert(rewritten[k] == rewrite_item(items[k], list, k));
        match items[k] {
            TraitItemView::Method(method) => {
                law_fold_twice(method, list, k);
            },
            _ => {},
        }
    }
}

/// A method of the schema is flagged for metadata exactly where the
/// annotation of its procedure carries the marker `meta`.
pub proof fn law_metadata_only_where_marked(
    interface: ItemTraitView,
    readings: Seq<Option<Seq<char>>>,
    i: int,
)
    requires
        expand_trait(interface, readings).is_ok(),
        0 <= i < expand_trait(interface, readings).unwrap().module.routine.methods.len(),
    ensures
        0 <= registered(interface.items, readings)[i].method().index < interface.items.len(),
        interface.items[registered(interface.items, readings)[i].method().index]
            == TraitItemView::Method(registered(interface.items, readings)[i].method().trait_item),
        expand_trait(interface, readings).unwrap().module.routine.methods[i].has_metadata == marked(
            registered(interface.items, readings)[i].method().attr.attr,
        ),
{
    lemma_registered_order(interface.items, readings);
    let method = registered(interface.items, readings)[i].method();
    lemma_positions(method.trait_item.attrs);
}

/// Two annotated procedures that expose the same name are refused, where no
/// annotation is refused before.
pub proof fn law_duplicate_names_refused(
    interface: ItemTraitView,
    readings: Seq<Option<Seq<char>>>,
    i: int,
    j: int,
)
    requires
        first_failure(interface.items, readings).is_none(),
        0 <= i < j < registered(interface.items, readings).len(),
        exposed_name(registered(interface.items, readings)[i].method()) == exposed_name(
            registered(interface.items, readings)[j].method(),
        ),
    ensures
        expand_trait(interface, readings) matches Err(
            Error::Registration(RegistrationError::DuplicateName { .. }),
        ),
{
    lemma_first_duplicate(registered(interface.items, readings));
}

/// A block that implements no interface is refused.
pub proof fn law_plain_block_refused(block: ItemImplView)
    requires
        block.trait_.is_none(),
    ensures
        expand_impl(block) == Err::<ItemImplView, Error>(Error::NotAnInterfaceImplementation),
{
}

/// The name of a companion module determines the interface.
pub proof fn law_companion_name_injective(a: Seq<char>, b: Seq<char>)
    requires
        companion_name(a) == companion_name(b),
    ensures
        a == b,
{
    let prefix = OPENRPC_SCHEMA_MODE_PREFIX@;
    assert(a =~= (prefix + a).subrange(prefix.len() as int, (prefix + a).len() as int));
    assert(b =~= (prefix + b).subrange(prefix.len() as int, (prefix + b).len() as int));
}

/// The accessor of an implementation calls the schema routine of the module
/// that the derivation from the interface of that name produced.
pub proof fn law_implementation_meets_interface(
    interface: ItemTraitView,
    readings: Seq<Option<Seq<char>>>,
    block: ItemImplView,
)
    requires
        expand_trait(interface, readings).is_ok(),
        block.trait_.is_some(),
        path_ident(block.trait_.unwrap()) == Some(interface.name),
    ensures
        expand_impl(block).is_ok(),
        expand_impl(block).unwrap().items == block.items.push(
            accessor_text(expand_trait(interface, readings).unwrap().module.name),
        ),
        expand_impl(block).unwrap().trait_ == block.trait_,
        expand_impl(block).unwrap().source == block.source,
{
}

/// Deriving twice from the same declaration, with the same readings, gives
/// the same.
pub proof fn law_deterministic(
    first: Item,
    second: Item,
    readings: Seq<Option<Seq<char>>>,
    first_outcome: Result<Expansion, Error>,
    second_outcome: Result<Expansion, Error>,
)
    requires
        first@ == second@,
        outcome_view(first_outcome) == expand(first@, readings),
        outcome_view(second_outcome) == expand(second@, readings),
    ensures
        outcome_view(first_outcome) == outcome_view(second_outcome),
{
}

/// Where a declaration has no name that is to be read, deriving twice from
/// it gives the same, whatever was read.
pub proof fn law_deterministic_without_names(
    item: ItemView,
    first: Seq<Option<Seq<char>>>,
    second: Seq<Option<Seq<char>>>,
)
    requires
        item_reads_nothing(item),
        possible_item_readings(item, first),
        possible_item_readings(item, second),
    ensures
        expand(item, first) == expand(item, second),
{
    match item {
        ItemView::Trait(interface) => {
            assert forall|k: int| 0 <= k < interface.items.len() implies reading_at(first, k)
                == reading_at(second, k) by {
                assert(item_candidate(interface.items[k]).is_none());
            }
            lemma_readings_agree(interface.items, first, second);
        },
        _ => {},
    }
}

} // verus!
