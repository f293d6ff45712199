//! Derivation of a query type from an entity's field list.
//!
//! An entity is described by its name and its fields in declaration order.
//! From that description the generator derives the definition of the
//! entity's query type: one optional slot per queryable field, in the same
//! relative order, one builder method per slot, the constructor of the
//! unconstrained query, and the entity as the response document.

use vstd::prelude::*;
use vstd::string::StringExecFns;

verus! {

/// One field of an entity, as it is declared.
#[derive(Debug, Clone)]
pub struct FieldDescriptor {
    pub name: String,
    /// The field's type, as written in the entity.
    pub ty: String,
    /// Whether queries may constrain the field.
    pub queryable: bool,
}

/// One slot of a query type. The slot holds an optional comparison over
/// operands of type `ty`.
#[derive(Debug, Clone)]
pub struct Slot {
    pub name: String,
    pub ty: String,
    /// The name of the builder method that fills the slot.
    pub builder: String,
}

/// The definition of a query type.
#[derive(Debug, Clone)]
pub struct QueryTypeDef {
    pub name: String,
    /// The slots, in the declaration order of their fields.
    pub slots: Vec<Slot>,
    /// The name of the constructor of the unconstrained query.
    pub constructor: String,
    /// The entity that a match of the query is read back as.
    pub response_document: String,
}

/// What a slot says, as plain text.
pub struct SlotModel {
    pub name: Seq<char>,
    pub ty: Seq<char>,
    pub builder: Seq<char>,
}

impl View for Slot {
    type V = SlotModel;

    open spec fn view(&self) -> SlotModel {
        SlotModel { name: self.name@, ty: self.ty@, builder: self.builder@ }
    }
}

/// The slots of a list, each as plain text.
pub open spec fn slot_models(slots: Seq<Slot>) -> Seq<SlotModel> {
    slots.map_values(|s: Slot| s@)
}

/// The slot that a field gets: the field's own name and type, and a builder
/// named `with_` and the field's name.
pub open spec fn slot_for(field: FieldDescriptor) -> SlotModel {
    SlotModel { name: field.name@, ty: field.ty@, builder: "with_"@ + field.name@ }
}

/// The slots of the queryable fields, in the fields' order.
pub open spec fn queryable_slots(fields: Seq<FieldDescriptor>) -> Seq<SlotModel> {
    fields.filter_map(
        |f: FieldDescriptor|
            if f.queryable {
                Some(slot_for(f))
            } else {
                None
            },
    )
}

/// Builds the slot of one field.
fn make_slot(field: &FieldDescriptor) -> (slot: Slot)
    ensures
        slot@ == slot_for(*field),
{
    Slot {
        name: field.name.clone(),
        ty: field.ty.clone(),
        builder: String::from_str("with_").concat(field.name.as_str()),
    }
}

/// Derives the query type of `entity`: named after the entity with `Query`
/// appended, with a slot for each queryable field and for no other, the
/// constructor `all`, and the entity itself as the response document.
pub fn queryable_derive(entity: &str, fields: &Vec<FieldDescriptor>) -> (def: QueryTypeDef)
    ensures
        def.name@ == entity@ + "Query"@,
        slot_models(def.slots@) == queryable_slots(fields@),
        def.constructor@ == "all"@,
        def.response_document@ == entity@,
{
    let mut slots: Vec<Slot> = Vec::new();
    let mut i: usize = 0;
    proof {
        assert(slot_models(slots@) =~= queryable_slots(fields@.take(0)));
    }
    while i < fields.len()
        invariant
            i <= fields.len(),
            slot_models(slots@) == queryable_slots(fields@.take(i as int)),
        decreases fields.len() - i,
    {
        let ghost before = slots@;
        if fields[i].queryable {
            let slot = make_slot(&fields[i]);
            slots.push(slot);
            proof {
                assert(slot_models(slots@) =~= slot_models(before) + seq![slot@]);
            }
        }
        proof {
            fields@.lemma_filter_map_take_succ(
                |f: FieldDescriptor|
                    if f.queryable {
                        Some(slot_for(f))
                    } else {
                        None
                    },
                i as int,
            );
            assert(slot_models(slots@) =~= queryable_slots(fields@.take(i + 1)));
        }
        i += 1;
    }
    proof {
        assert(fields@.take(i as int) =~= fields@);
    }
    QueryTypeDef {
        name: String::from_str(entity).concat("Query"),
        slots,
        constructor: String::from_str("all"),
        response_document: String::from_str(entity),
    }
}

/// Derives the query type of `entity` as [`queryable_derive`] does, under the
/// name of the derive that takes every named field of the entity for
/// queryable: the fields arrive marked so, and the marks are honoured here.
pub fn queriable_derive(entity: &str, fields: &Vec<FieldDescriptor>) -> (def: QueryTypeDef)
    ensures
        def.name@ == entity@ + "Query"@,
        slot_models(def.slots@) == queryable_slots(fields@),
        def.constructor@ == "all"@,
        def.response_document@ == entity@,
{
    queryable_derive(entity, fields)
}

} // verus!
