//! Query records: the values of a derived query type.
//!
//! A [`QueryType`] has the slots of a [`QueryTypeDef`], in the definition's
//! order. Each slot is empty or holds a comparison. The record translates
//! into a document by walking the slots in that order, so the document never
//! depends on the order in which the slots were filled.
//!
//! A record type written out with one field per slot, each of its own operand
//! type, translates the same way: it starts from the empty document and hands
//! its slots to [`add_slot`] in declaration order.

use crate::generator::{QueryTypeDef, Slot};
use crate::operand::{ConversionError, Operand};
use crate::query::{embedded, keyed, Comparison, Parameter, QueryDocument};
use crate::value::{embed, entries, has_key, insert, put, Value};
use core::marker::PhantomData;
use vstd::prelude::*;
use vstd::string::StringExecFns;

verus! {

/// A query over the entity `E`: named slots in declaration order, each empty
/// or holding a comparison over operands of type `T`.
#[derive(Debug)]
pub struct QueryType<E, T> {
    names: Vec<String>,
    constraints: Vec<Option<Comparison<T>>>,
    entity: PhantomData<E>,
}

/// The unconstrained record of a definition's slots: every slot under its
/// name, in order, and empty.
pub open spec fn unconstrained<T>(slots: Seq<Slot>) -> Seq<(Seq<char>, Option<Comparison<T>>)> {
    slots.map_values(|s: Slot| (s.name@, None::<Comparison<T>>))
}

/// Whether some slot is named `name`.
pub open spec fn has_field<T>(slots: Seq<(Seq<char>, Option<Comparison<T>>)>, name: Seq<char>) -> bool {
    exists|i: int| 0 <= i < slots.len() && (#[trigger] slots[i]).0 == name
}

/// Whether slot `i` is the first one named `name`.
pub open spec fn is_first_named<T>(
    slots: Seq<(Seq<char>, Option<Comparison<T>>)>,
    name: Seq<char>,
    i: int,
) -> bool {
    &&& 0 <= i < slots.len()
    &&& slots[i].0 == name
    &&& forall|j: int| 0 <= j < i ==> (#[trigger] slots[j]).0 != name
}

/// The index of the first slot named `name`.
pub open spec fn first_named<T>(slots: Seq<(Seq<char>, Option<Comparison<T>>)>, name: Seq<char>) -> int {
    choose|i: int| is_first_named(slots, name, i)
}

/// The slots after the field `name` is constrained by `value`: the first slot
/// of that name holds the comparison, and every other slot is as before.
pub open spec fn assign<T>(
    slots: Seq<(Seq<char>, Option<Comparison<T>>)>,
    name: Seq<char>,
    value: Comparison<T>,
) -> Seq<(Seq<char>, Option<Comparison<T>>)> {
    slots.update(first_named(slots, name), (name, Some(value)))
}

/// What one slot does to the entries gathered before it: a slot that holds a
/// comparison sets its name to the comparison's document, or fails with the
/// comparison's error, and an empty slot adds nothing.
pub open spec fn slot_step<T: Operand>(
    front: Seq<(Seq<char>, Value)>,
    name: Seq<char>,
    slot: Option<Comparison<T>>,
) -> Result<Seq<(Seq<char>, Value)>, ConversionError> {
    match slot {
        None => Ok(front),
        Some(c) => match c.document() {
            Err(e) => Err(e),
            Ok(d) => Ok(put(front, name, Value::Document(d))),
        },
    }
}

/// Takes one slot of a record into the document being built: what
/// [`slot_step`] says of the document's entries. Where the slot's comparison
/// fails, the document is left as it was.
pub fn add_slot<T: Operand>(query: &mut bson::Document, name: &str, slot: Option<Comparison<T>>) -> (r:
    Result<(), ConversionError>)
    ensures
        match slot_step(entries(*old(query)), name@, slot) {
            Ok(after) => r is Ok && entries(*final(query)) == after,
            Err(e) => r == Err::<(), ConversionError>(e) && entries(*final(query)) == entries(
                *old(query),
            ),
        },
{
    match slot {
        None => Ok(()),
        Some(comparison) => match comparison.to_bson() {
            Ok(d) => {
                insert(query, name, embed(d));
                Ok(())
            },
            Err(e) => Err(e),
        },
    }
}

/// The document of a list of slots: the slots taken in order, each as
/// [`slot_step`] says, from no entries at all. The error of the first
/// comparison that has one ends the walk.
pub open spec fn slots_document<T: Operand>(slots: Seq<(Seq<char>, Option<Comparison<T>>)>) -> Result<
    Seq<(Seq<char>, Value)>,
    ConversionError,
>
    decreases slots.len(),
{
    if slots.len() == 0 {
        Ok(Seq::empty())
    } else {
        match slots_document(slots.drop_last()) {
            Err(e) => Err(e),
            Ok(front) => slot_step(front, slots.last().0, slots.last().1),
        }
    }
}

impl<E, T> View for QueryType<E, T> {
    type V = Seq<(Seq<char>, Option<Comparison<T>>)>;

    /// The slots, each with its name, in declaration order.
    closed spec fn view(&self) -> Seq<(Seq<char>, Option<Comparison<T>>)> {
        Seq::new(self.names@.len(), |i: int| (self.names@[i]@, self.constraints@[i]))
    }
}

impl<E, T> QueryType<E, T> {
    #[verifier::type_invariant]
    spec fn well_formed(&self) -> bool {
        self.names@.len() == self.constraints@.len()
    }

    /// The unconstrained query of a definition: one empty slot for each slot
    /// of the definition, under the same name and in the same order.
    pub fn all(def: &QueryTypeDef) -> (q: Self)
        ensures
            q@ == unconstrained::<T>(def.slots@),
    {
        let mut names: Vec<String> = Vec::new();
        let mut constraints: Vec<Option<Comparison<T>>> = Vec::new();
        let mut i: usize = 0;
        while i < def.slots.len()
            invariant
                i <= def.slots@.len(),
                names@.len() == i,
                constraints@.len() == i,
                forall|j: int| 0 <= j < i ==> (#[trigger] names@[j])@ == def.slots@[j].name@,
                forall|j: int| 0 <= j < i ==> #[trigger] constraints@[j] is None,
            decreases def.slots@.len() - i,
        {
            names.push(def.slots[i].name.clone());
            constraints.push(None);
            i += 1;
        }
        let q = QueryType { names, constraints, entity: PhantomData };
        proof {
            assert(q@ =~= unconstrained::<T>(def.slots@));
        }
        q
    }

    /// Whether the query has a field `name`.
    pub fn has_field(&self, name: &str) -> (found: bool)
        ensures
            found == has_field(self@, name@),
    {
        proof {
            use_type_invariant(self);
        }
        let wanted = String::from_str(name);
        let mut i: usize = 0;
        while i < self.names.len()
            invariant
                i <= self.names@.len(),
                self.names@.len() == self.constraints@.len(),
                wanted@ == name@,
                forall|j: int| 0 <= j < i ==> (#[trigger] self@[j]).0 != name@,
            decreases self.names@.len() - i,
        {
            if self.names[i] == wanted {
                proof {
                    assert(self@[i as int].0 == name@);
                }
                return true;
            }
            i += 1;
        }
        false
    }

    /// Constrains the field `name` by `value`, replacing what its slot held.
    /// The field must be one of the query's own.
    pub fn with_field(self, name: &str, value: Comparison<T>) -> (q: Self)
        requires
            has_field(self@, name@),
        ensures
            q@ == assign(self@, name@, value),
    {
        proof {
            use_type_invariant(&self);
        }
        let ghost before = self@;
        let QueryType { names, constraints, entity } = self;
        let mut constraints = constraints;
        let wanted = String::from_str(name);
        let mut i: usize = 0;
        while i < names.len()
            invariant
                i <= names@.len(),
                names@.len() == constraints@.len(),
                wanted@ == name@,
                before == self@,
                before == Seq::new(names@.len(), |k: int| (names@[k]@, constraints@[k])),
                forall|j: int| 0 <= j < i ==> (#[trigger] before[j]).0 != name@,
            decreases names@.len() - i,
        {
            if names[i] == wanted {
                proof {
                    assert(is_first_named(before, name@, i as int));
                }
                constraints.set(i, Some(value));
                let q = QueryType { names, constraints, entity };
                proof {
                    assert(q@ =~= assign(before, name@, value));
                }
                return q;
            }
            i += 1;
        }
        QueryType { names, constraints, entity }
    }
}

impl<E, T: Operand> Parameter for QueryType<E, T> {
    open spec fn document(&self) -> Result<Seq<(Seq<char>, Value)>, ConversionError> {
        slots_document(self@)
    }

    fn to_bson(self) -> (r: Result<bson::Document, ConversionError>) {
        proof {
            use_type_invariant(&self);
        }
        let ghost slots = self@;
        let QueryType { names, constraints, entity } = self;
        let mut query = bson::Document::new();
        let mut i: usize = 0;
        for constraint in it: constraints
            invariant
                it.seq() == constraints@,
                i == it.index(),
                names@.len() == constraints@.len(),
                slots == self@,
                slots == Seq::new(names@.len(), |k: int| (names@[k]@, constraints@[k])),
                slots_document(slots.take(i as int)) == Ok::<
                    Seq<(Seq<char>, Value)>,
                    ConversionError,
                >(entries(query)),
        {
            proof {
                assert(slots.take(i + 1).drop_last() =~= slots.take(i as int));
                assert(slots.take(i + 1).last() == (names@[i as int]@, constraint));
            }
            match add_slot(&mut query, names[i].as_str(), constraint) {
                Ok(()) => {},
                Err(e) => {
                    proof {
                        lemma_slots_error_in_prefix(slots, i + 1);
                    }
                    return Err(e);
                },
            }
            i += 1;
        }
        proof {
            assert(slots.take(i as int) =~= slots);
        }
        Ok(query)
    }
}

impl<E, T: Operand> QueryDocument for QueryType<E, T> {
    type ResponseDocument = E;
}

/// A record with one more slot at its end translates as the record without
/// it does, followed by the step of that slot.
pub proof fn lemma_one_more_slot<T: Operand>(
    slots: Seq<(Seq<char>, Option<Comparison<T>>)>,
    name: Seq<char>,
    slot: Option<Comparison<T>>,
)
    ensures
        slots_document(slots.push((name, slot))) == match slots_document(slots) {
            Err(e) => Err::<Seq<(Seq<char>, Value)>, ConversionError>(e),
            Ok(front) => slot_step(front, name, slot),
        },
{
    assert(slots.push((name, slot)).drop_last() =~= slots);
}

/// A field that the record has is the name of a first slot.
pub proof fn lemma_first_named<T>(slots: Seq<(Seq<char>, Option<Comparison<T>>)>, name: Seq<char>)
    requires
        has_field(slots, name),
    ensures
        is_first_named(slots, name, first_named(slots, name)),
{
    let k = choose|i: int| 0 <= i < slots.len() && (#[trigger] slots[i]).0 == name;
    lemma_first_named_before(slots, name, k);
}

proof fn lemma_first_named_before<T>(
    slots: Seq<(Seq<char>, Option<Comparison<T>>)>,
    name: Seq<char>,
    k: int,
)
    requires
        0 <= k < slots.len(),
        slots[k].0 == name,
    ensures
        exists|i: int| is_first_named(slots, name, i),
    decreases k,
{
    if exists|j: int| 0 <= j < k && (#[trigger] slots[j]).0 == name {
        let j = choose|j: int| 0 <= j < k && (#[trigger] slots[j]).0 == name;
        lemma_first_named_before(slots, name, j);
    } else {
        assert(is_first_named(slots, name, k));
    }
}

/// Constraining two different fields gives the same record, and so the same
/// document, whichever of the two is constrained first.
pub proof fn lemma_assignment_order<E, T: Operand>(
    q: QueryType<E, T>,
    first: Seq<char>,
    a: Comparison<T>,
    second: Seq<char>,
    b: Comparison<T>,
)
    requires
        first != second,
        has_field(q@, first),
        has_field(q@, second),
    ensures
        assign(assign(q@, first, a), second, b) == assign(assign(q@, second, b), first, a),
        slots_document(assign(assign(q@, first, a), second, b)) == slots_document(
            assign(assign(q@, second, b), first, a),
        ),
{
    let slots = q@;
    lemma_first_named(slots, first);
    lemma_first_named(slots, second);
    let i = first_named(slots, first);
    let j = first_named(slots, second);
    let with_first = assign(slots, first, a);
    let with_second = assign(slots, second, b);
    assert(is_first_named(with_first, second, j));
    assert(is_first_named(with_second, first, i));
    lemma_first_named(with_first, second);
    lemma_first_named(with_second, first);
    assert(first_named(with_first, second) == j);
    assert(first_named(with_second, first) == i);
    assert(assign(with_first, second, b) =~= assign(with_second, first, a));
}

/// A record whose slots are all empty is the empty document.
pub proof fn lemma_unconstrained_document<T: Operand>(slots: Seq<(Seq<char>, Option<Comparison<T>>)>)
    requires
        forall|i: int| 0 <= i < slots.len() ==> (#[trigger] slots[i]).1 is None,
    ensures
        slots_document(slots) == Ok::<Seq<(Seq<char>, Value)>, ConversionError>(Seq::empty()),
    decreases slots.len(),
{
    if slots.len() > 0 {
        lemma_unconstrained_document(slots.drop_last());
    }
}

/// A record with exactly one constrained slot is the document with the one
/// entry of that slot: its name, over the document of its comparison.
pub proof fn lemma_single_constraint_document<T: Operand>(
    slots: Seq<(Seq<char>, Option<Comparison<T>>)>,
    i: int,
)
    requires
        0 <= i < slots.len(),
        slots[i].1 is Some,
        forall|j: int| 0 <= j < slots.len() && j != i ==> (#[trigger] slots[j]).1 is None,
    ensures
        slots_document(slots) == keyed(slots[i].0, embedded(slots[i].1.unwrap().document())),
    decreases slots.len(),
{
    if i == slots.len() - 1 {
        lemma_unconstrained_document(slots.drop_last());
        match slots[i].1.unwrap().document() {
            Ok(d) => {
                let front = Seq::<(Seq<char>, Value)>::empty();
                assert(put(front, slots[i].0, Value::Document(d)) =~= seq![
                    (slots[i].0, Value::Document(d)),
                ]);
            },
            Err(_) => {},
        }
    } else {
        lemma_single_constraint_document(slots.drop_last(), i);
    }
}

/// Whether a slot is empty or holds a comparison that translates.
pub open spec fn slot_translates<T: Operand>(slot: (Seq<char>, Option<Comparison<T>>)) -> bool {
    match slot.1 {
        Some(c) => c.document() is Ok,
        None => true,
    }
}

/// A record translates exactly when every comparison in it does; otherwise
/// its error is that of the first slot, in declaration order, whose
/// comparison has one.
pub proof fn lemma_slots_outcome<T: Operand>(slots: Seq<(Seq<char>, Option<Comparison<T>>)>)
    ensures
        match slots_document(slots) {
            Ok(_) => forall|i: int| 0 <= i < slots.len() ==> slot_translates(#[trigger] slots[i]),
            Err(e) => exists|i: int|
                {
                    &&& 0 <= i < slots.len()
                    &&& (#[trigger] slots[i]).1 is Some
                    &&& slots[i].1.unwrap().document() == Err::<
                        Seq<(Seq<char>, Value)>,
                        ConversionError,
                    >(e)
                    &&& forall|j: int| 0 <= j < i ==> slot_translates(#[trigger] slots[j])
                },
        },
    decreases slots.len(),
{
    if slots.len() > 0 {
        let front = slots.drop_last();
        lemma_slots_outcome(front);
        match slots_document(front) {
            Ok(_) => {
                assert forall|j: int| 0 <= j < front.len() implies slot_translates(
                    #[trigger] slots[j],
                ) by {
                    assert(slot_translates(front[j]));
                }
                if !slot_translates(slots.last()) {
                    assert(slots[slots.len() - 1].1 is Some);
                }
            },
            Err(e) => {
                let i = choose|i: int|
                    {
                        &&& 0 <= i < front.len()
                        &&& (#[trigger] front[i]).1 is Some
                        &&& front[i].1.unwrap().document() == Err::<
                            Seq<(Seq<char>, Value)>,
                            ConversionError,
                        >(e)
                        &&& forall|j: int| 0 <= j < i ==> slot_translates(#[trigger] front[j])
                    };
                assert(slots[i].1 is Some);
                assert forall|j: int| 0 <= j < i implies slot_translates(#[trigger] slots[j]) by {
                    assert(slot_translates(front[j]));
                }
            },
        }
    }
}

/// Whether no two slots share a name.
pub open spec fn distinct_names<T>(slots: Seq<(Seq<char>, Option<Comparison<T>>)>) -> bool {
    forall|i: int, j: int|
        0 <= i < j < slots.len() ==> (#[trigger] slots[i]).0 != (#[trigger] slots[j]).0
}

/// The entry that a slot adds to the document, if it adds one.
pub open spec fn slot_entry<T: Operand>(slot: (Seq<char>, Option<Comparison<T>>)) -> Option<
    (Seq<char>, Value),
> {
    match slot.1 {
        Some(c) => match c.document() {
            Ok(d) => Some((slot.0, Value::Document(d))),
            Err(_) => None,
        },
        None => None,
    }
}

/// Where no two slots share a name, the document of a record that translates
/// holds the entries of its constrained slots and nothing else, in the order
/// in which the slots are declared.
pub proof fn lemma_declaration_order<T: Operand>(slots: Seq<(Seq<char>, Option<Comparison<T>>)>)
    requires
        distinct_names(slots),
        slots_document(slots) is Ok,
    ensures
        slots_document(slots) == Ok::<Seq<(Seq<char>, Value)>, ConversionError>(
            slots.filter_map(|s: (Seq<char>, Option<Comparison<T>>)| slot_entry(s)),
        ),
        forall|k: int|
            0 <= k < slots_document(slots).unwrap().len() ==> has_field(
                slots,
                (#[trigger] slots_document(slots).unwrap()[k]).0,
            ),
    decreases slots.len(),
{
    let entry = |s: (Seq<char>, Option<Comparison<T>>)| slot_entry(s);
    if slots.len() > 0 {
        let rest = slots.drop_last();
        let last = slots.last();
        lemma_declaration_order(rest);
        let front = slots_document(rest).unwrap();
        let document = slots_document(slots).unwrap();
        assert forall|k: int| 0 <= k < front.len() implies has_field(slots, (#[trigger] front[k]).0) by {
            let i = choose|i: int| 0 <= i < rest.len() && (#[trigger] rest[i]).0 == front[k].0;
            assert(slots[i].0 == front[k].0);
        }
        match last.1 {
            None => {},
            Some(c) => {
                let d = c.document().unwrap();
                if has_key(front, last.0) {
                    let k = choose|k: int| 0 <= k < front.len() && (#[trigger] front[k]).0 == last.0;
                    let i = choose|i: int| 0 <= i < rest.len() && (#[trigger] rest[i]).0 == front[k].0;
                    assert(slots[i].0 == slots[slots.len() - 1].0);
                }
                assert(document == front.push((last.0, Value::Document(d))));
                assert(front.push((last.0, Value::Document(d))) =~= front + seq![
                    (last.0, Value::Document(d)),
                ]);
                assert(slots[slots.len() - 1].0 == last.0);
            },
        }
    }
}

/// A failure among the first `n` slots is the failure of the whole record.
pub proof fn lemma_slots_error_in_prefix<T: Operand>(
    slots: Seq<(Seq<char>, Option<Comparison<T>>)>,
    n: int,
)
    requires
        0 <= n <= slots.len(),
        slots_document(slots.take(n)) is Err,
    ensures
        slots_document(slots) == slots_document(slots.take(n)),
    decreases slots.len(),
{
    if n == slots.len() {
        assert(slots.take(n) =~= slots);
    } else {
        assert(slots.drop_last().take(n) =~= slots.take(n));
        lemma_slots_error_in_prefix(slots.drop_last(), n);
    }
}

} // verus!
