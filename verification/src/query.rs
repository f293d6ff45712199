//! Query expressions and their translation into BSON documents.
//!
//! A [`Comparison`] constrains one field by an operand, a [`Logical`]
//! combines whole queries, and a [`Parameter`] is anything that translates
//! into a document. What a translation must produce is written once, as the
//! spec function [`Parameter::document`], and every `to_bson` in this module
//! is proved to produce exactly that.

use crate::operand::{converts_to, ConversionError, Operand};
use crate::value::{array, embed, entries, insert, value_of, values_of, Value};
use vstd::prelude::*;

verus! {

/// The entries of a document: key and element pairs, in the document's order.
pub type Entries = Seq<(Seq<char>, Value)>;

/// Whether the outcome `r` of a translation is the one that `expected`
/// names: a document with exactly the expected entries, or the expected
/// error.
pub open spec fn translates_to(
    r: Result<bson::Document, ConversionError>,
    expected: Result<Seq<(Seq<char>, Value)>, ConversionError>,
) -> bool {
    match r {
        Ok(d) => expected == Ok::<Seq<(Seq<char>, Value)>, ConversionError>(entries(d)),
        Err(e) => expected == Err::<Seq<(Seq<char>, Value)>, ConversionError>(e),
    }
}

/// Translations of expressions that stand for the same document end alike:
/// in documents with the same entries, or in the same error.
pub proof fn lemma_same_document_same_outcome(
    first: Result<bson::Document, ConversionError>,
    second: Result<bson::Document, ConversionError>,
    expected: Result<Seq<(Seq<char>, Value)>, ConversionError>,
)
    requires
        translates_to(first, expected),
        translates_to(second, expected),
    ensures
        match (first, second) {
            (Ok(a), Ok(b)) => entries(a) == entries(b),
            (Err(a), Err(b)) => a == b,
            _ => false,
        },
{
}

/// An expression that translates into a document.
///
/// An implementation says which document the expression stands for in
/// [`Parameter::document`], and its `to_bson` is held to that.
pub trait Parameter: Sized {
    /// The entries of the document this expression stands for, or the error
    /// of the first operand in it that has no BSON element.
    spec fn document(&self) -> Result<Entries, ConversionError>;

    /// Translates the expression, consuming it.
    fn to_bson(self) -> (r: Result<bson::Document, ConversionError>)
        ensures
            translates_to(r, self.document()),
    ;
}

/// A query whose matches are read back as `ResponseDocument`.
pub trait QueryDocument: Parameter {
    type ResponseDocument;
}

/// A constraint on a single field.
#[derive(Debug)]
pub enum Comparison<T> {
    Eq(T),
    Ne(T),
    Gt(T),
    Gte(T),
    Lt(T),
    Lte(T),
    In(Vec<T>),
    Nin(Vec<T>),
}

/// The document with the single entry `key`, holding `operand`; the error of
/// the operand where it has one.
pub open spec fn keyed(key: Seq<char>, operand: Result<Value, ConversionError>) -> Result<
    Seq<(Seq<char>, Value)>,
    ConversionError,
> {
    match operand {
        Ok(v) => Ok(seq![(key, v)]),
        Err(e) => Err(e),
    }
}

/// Builds the single-entry document for an operator and its converted
/// operand, or hands the operand's error on.
fn operator_document(key: &str, operand: Result<bson::Bson, ConversionError>) -> (r: Result<
    bson::Document,
    ConversionError,
>)
    ensures
        match operand {
            Ok(b) => r is Ok && entries(r.unwrap()) == seq![(key@, value_of(b))],
            Err(e) => r == Err::<bson::Document, ConversionError>(e),
        },
{
    match operand {
        Ok(b) => {
            let mut d = bson::Document::new();
            insert(&mut d, key, b);
            proof {
                assert(entries(d) =~= seq![(key@, value_of(b))]);
            }
            Ok(d)
        },
        Err(e) => Err(e),
    }
}

impl<T: Operand> Parameter for Comparison<T> {
    open spec fn document(&self) -> Result<Seq<(Seq<char>, Value)>, ConversionError> {
        match self {
            Comparison::Eq(v) => keyed("$eq"@, v.value()),
            Comparison::Ne(v) => keyed("$ne"@, v.value()),
            Comparison::Gt(v) => keyed("$gt"@, v.value()),
            Comparison::Gte(v) => keyed("$gte"@, v.value()),
            Comparison::Lt(v) => keyed("$lt"@, v.value()),
            Comparison::Lte(v) => keyed("$lte"@, v.value()),
            Comparison::In(list) => keyed("$in"@, list.value()),
            Comparison::Nin(list) => keyed("$nin"@, list.value()),
        }
    }

    fn to_bson(self) -> (r: Result<bson::Document, ConversionError>) {
        match self {
            Comparison::Eq(v) => operator_document("$eq", v.to_value()),
            Comparison::Ne(v) => operator_document("$ne", v.to_value()),
            Comparison::Gt(v) => operator_document("$gt", v.to_value()),
            Comparison::Gte(v) => operator_document("$gte", v.to_value()),
            Comparison::Lt(v) => operator_document("$lt", v.to_value()),
            Comparison::Lte(v) => operator_document("$lte", v.to_value()),
            Comparison::In(list) => operator_document("$in", list.to_value()),
            Comparison::Nin(list) => operator_document("$nin", list.to_value()),
        }
    }
}

/// A boolean combination of queries.
#[derive(Debug)]
pub enum Logical<T> {
    /// The negation of one query.
    Not(T),
    And(Vec<LogicalParameter<T>>),
    Or(Vec<LogicalParameter<T>>),
    Nor(Vec<LogicalParameter<T>>),
}

/// One member of a combination: a query, or a combination nested in it.
#[derive(Debug)]
pub enum LogicalParameter<T> {
    Value(T),
    Logical(Logical<T>),
}

/// A document as an element, or its error.
pub open spec fn embedded(inner: Result<Seq<(Seq<char>, Value)>, ConversionError>) -> Result<
    Value,
    ConversionError,
> {
    match inner {
        Ok(d) => Ok(Value::Document(d)),
        Err(e) => Err(e),
    }
}

/// A list of elements as an array element, or its error.
pub open spec fn listed(items: Result<Seq<Value>, ConversionError>) -> Result<
    Value,
    ConversionError,
> {
    match items {
        Ok(a) => Ok(Value::Array(a)),
        Err(e) => Err(e),
    }
}

/// The document of a combination: its operator key over the negated query's
/// document, or over the array of its members' documents.
pub open spec fn logical_document<T: Parameter>(l: Logical<T>) -> Result<
    Seq<(Seq<char>, Value)>,
    ConversionError,
>
    decreases l,
{
    match l {
        Logical::Not(x) => keyed("$not"@, embedded(x.document())),
        Logical::And(list) => keyed("$and"@, listed(member_documents(list@))),
        Logical::Or(list) => keyed("$or"@, listed(member_documents(list@))),
        Logical::Nor(list) => keyed("$nor"@, listed(member_documents(list@))),
    }
}

/// The document of a member: that of the query or of the nested combination
/// itself, with nothing wrapped around it.
pub open spec fn member_document<T: Parameter>(p: LogicalParameter<T>) -> Result<
    Seq<(Seq<char>, Value)>,
    ConversionError,
>
    decreases p,
{
    match p {
        LogicalParameter::Value(x) => x.document(),
        LogicalParameter::Logical(l) => logical_document(l),
    }
}

/// The documents of a list of members as elements, in the members' order, or
/// the error of the first member that has one.
pub open spec fn member_documents<T: Parameter>(s: Seq<LogicalParameter<T>>) -> Result<
    Seq<Value>,
    ConversionError,
>
    decreases s,
{
    if s.len() == 0 {
        Ok(Seq::empty())
    } else {
        match member_documents(s.drop_last()) {
            Err(e) => Err(e),
            Ok(front) => match member_document(s.last()) {
                Err(e) => Err(e),
                Ok(d) => Ok(front.push(Value::Document(d))),
            },
        }
    }
}

/// A list of members translates exactly when each member does, to the list of
/// the members' documents, each as an embedded document and in its member's
/// place; otherwise its error is that of the first member that has one.
pub proof fn lemma_member_documents<T: Parameter>(s: Seq<LogicalParameter<T>>)
    ensures
        match member_documents(s) {
            Ok(items) => {
                &&& items.len() == s.len()
                &&& forall|i: int|
                    0 <= i < s.len() ==> embedded(member_document(#[trigger] s[i])) == Ok::<
                        Value,
                        ConversionError,
                    >(items[i])
            },
            Err(e) => exists|i: int|
                {
                    &&& 0 <= i < s.len()
                    &&& member_document(#[trigger] s[i]) == Err::<
                        Seq<(Seq<char>, Value)>,
                        ConversionError,
                    >(e)
                    &&& forall|j: int| 0 <= j < i ==> member_document(#[trigger] s[j]) is Ok
                },
        },
    decreases s.len(),
{
    if s.len() > 0 {
        let front = s.drop_last();
        lemma_member_documents(front);
        match member_documents(front) {
            Ok(items) => {
                assert forall|j: int| 0 <= j < front.len() implies member_document(
                    #[trigger] s[j],
                ) is Ok by {
                    assert(embedded(member_document(front[j])) is Ok);
                }
                match member_document(s.last()) {
                    Ok(d) => {
                        assert forall|i: int| 0 <= i < s.len() implies embedded(
                            member_document(#[trigger] s[i]),
                        ) == Ok::<Value, ConversionError>(items.push(Value::Document(d))[i]) by {
                            if i < front.len() {
                                assert(embedded(member_document(front[i])) == Ok::<
                                    Value,
                                    ConversionError,
                                >(items[i]));
                            }
                        }
                    },
                    Err(e) => {
                        assert(member_document(s[s.len() - 1]) == Err::<
                            Seq<(Seq<char>, Value)>,
                            ConversionError,
                        >(e));
                    },
                }
            },
            Err(e) => {
                let i = choose|i: int|
                    {
                        &&& 0 <= i < front.len()
                        &&& member_document(#[trigger] front[i]) == Err::<
                            Seq<(Seq<char>, Value)>,
                            ConversionError,
                        >(e)
                        &&& forall|j: int| 0 <= j < i ==> member_document(#[trigger] front[j]) is Ok
                    };
                assert(member_document(s[i]) == Err::<Seq<(Seq<char>, Value)>, ConversionError>(e));
                assert forall|j: int| 0 <= j < i implies member_document(#[trigger] s[j]) is Ok by {
                    assert(member_document(front[j]) is Ok);
                }
            },
        }
    }
}

/// A negation holds the document of the query it negates as one embedded
/// document, never as a list.
pub proof fn lemma_not_is_unary<T: Parameter>(x: T)
    ensures
        Logical::Not(x).document() == match x.document() {
            Ok(d) => Ok::<Seq<(Seq<char>, Value)>, ConversionError>(
                seq![("$not"@, Value::Document(d))],
            ),
            Err(e) => Err::<Seq<(Seq<char>, Value)>, ConversionError>(e),
        },
{
}

/// A member stands for its own document: a nested combination for the
/// combination's document and a query for the query's, with no key around
/// either that would tell the two apart.
pub proof fn lemma_member_is_untagged<T: Parameter>(p: LogicalParameter<T>)
    ensures
        p.document() == match p {
            LogicalParameter::Value(x) => x.document(),
            LogicalParameter::Logical(l) => l.document(),
        },
{
}

/// A failure among the first `n` members is the failure of the whole list.
pub proof fn lemma_member_error_in_prefix<T: Parameter>(s: Seq<LogicalParameter<T>>, n: int)
    requires
        0 <= n <= s.len(),
        member_documents(s.take(n)) is Err,
    ensures
        member_documents(s) == member_documents(s.take(n)),
    decreases s.len(),
{
    if n == s.len() {
        assert(s.take(n) =~= s);
    } else {
        assert(s.drop_last().take(n) =~= s.take(n));
        lemma_member_error_in_prefix(s.drop_last(), n);
    }
}

fn translate_logical<T: Parameter>(l: Logical<T>) -> (r: Result<bson::Document, ConversionError>)
    ensures
        translates_to(r, logical_document(l)),
    decreases l,
{
    match l {
        Logical::Not(x) => match x.to_bson() {
            Ok(d) => operator_document("$not", Ok(embed(d))),
            Err(e) => Err(e),
        },
        Logical::And(list) => operator_document("$and", translate_members(list)),
        Logical::Or(list) => operator_document("$or", translate_members(list)),
        Logical::Nor(list) => operator_document("$nor", translate_members(list)),
    }
}

fn translate_member<T: Parameter>(p: LogicalParameter<T>) -> (r: Result<
    bson::Document,
    ConversionError,
>)
    ensures
        translates_to(r, member_document(p)),
    decreases p,
{
    match p {
        LogicalParameter::Value(x) => x.to_bson(),
        LogicalParameter::Logical(l) => translate_logical(l),
    }
}

fn translate_members<T: Parameter>(list: Vec<LogicalParameter<T>>) -> (r: Result<
    bson::Bson,
    ConversionError,
>)
    ensures
        converts_to(r, listed(member_documents(list@))),
    decreases list,
{
    let ghost all = list@;
    let mut items: Vec<bson::Bson> = Vec::new();
    proof {
        assert(values_of(items@) =~= Seq::<Value>::empty());
    }
    for p in it: list
        invariant
            it.seq() == all,
            member_documents(all.take(it.index() as int)) == Ok::<Seq<Value>, ConversionError>(
                values_of(items@),
            ),
    {
        proof {
            assert(all.take(it.index() + 1).drop_last() =~= all.take(it.index() as int));
        }
        match translate_member(p) {
            Ok(d) => {
                let b = embed(d);
                proof {
                    assert(values_of(items@.push(b)) =~= values_of(items@).push(value_of(b)));
                }
                items.push(b);
            },
            Err(e) => {
                proof {
                    lemma_member_error_in_prefix(all, it.index() + 1);
                }
                return Err(e);
            },
        }
    }
    proof {
        assert(all.take(all.len() as int) =~= all);
    }
    Ok(array(items))
}

impl<T: Parameter> Parameter for Logical<T> {
    open spec fn document(&self) -> Result<Seq<(Seq<char>, Value)>, ConversionError> {
        logical_document(*self)
    }

    fn to_bson(self) -> (r: Result<bson::Document, ConversionError>) {
        translate_logical(self)
    }
}

impl<T: Parameter> Parameter for LogicalParameter<T> {
    open spec fn document(&self) -> Result<Seq<(Seq<char>, Value)>, ConversionError> {
        member_document(*self)
    }

    fn to_bson(self) -> (r: Result<bson::Document, ConversionError>) {
        translate_member(self)
    }
}

} // verus!
