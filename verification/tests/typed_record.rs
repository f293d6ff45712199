use mongo_tq::operand::ConversionError;
use mongo_tq::query::{
    Comparison, Entries, Logical, LogicalParameter, Parameter, QueryDocument,
};
use mongo_tq::query_type::add_slot;

#[derive(Debug, Default, PartialEq)]
struct Block {
    number: i64,
    hash: Option<String>,
    size: u64,
}

/// The query type of `Block` as a record with one field per slot, each of
/// its own operand type.
struct BlockQuery {
    number: Option<Comparison<i64>>,
    hash: Option<Comparison<Option<String>>>,
    size: Option<Comparison<u64>>,
}

impl BlockQuery {
    pub fn with_number(mut self, value: Comparison<i64>) -> Self {
        self.number = Some(value);
        self
    }

    pub fn with_hash(mut self, value: Comparison<Option<String>>) -> Self {
        self.hash = Some(value);
        self
    }

    pub fn with_size(mut self, value: Comparison<u64>) -> Self {
        self.size = Some(value);
        self
    }

    pub fn all() -> Self {
        Self {
            number: None,
            hash: None,
            size: None,
        }
    }
}

impl Parameter for BlockQuery {
    /// Read by the verifier only, and never run.
    fn document(&self) -> Result<Entries, ConversionError> {
        unreachable!()
    }

    fn to_bson(self) -> Result<bson::Document, ConversionError> {
        let mut query = bson::Document::new();

        add_slot(&mut query, "number", self.number)?;
        add_slot(&mut query, "hash", self.hash)?;
        add_slot(&mut query, "size", self.size)?;

        Ok(query)
    }
}

impl QueryDocument for BlockQuery {
    type ResponseDocument = Block;
}

fn response_of<Q: QueryDocument>(_query: &Q) -> Q::ResponseDocument
where
    Q::ResponseDocument: Default,
{
    Q::ResponseDocument::default()
}

#[test]
fn typed_record_without_constraints() {
    assert_eq!(BlockQuery::all().to_bson().unwrap().to_string(), "{}");
}

#[test]
fn typed_record_with_one_constraint() {
    let d = BlockQuery::all()
        .with_hash(Comparison::Eq(Some("0x123".to_string())))
        .to_bson()
        .unwrap();
    assert_eq!(d.len(), 1);
    assert_eq!(d.to_string(), "{ \"hash\": { \"$eq\": \"0x123\" } }");
}

#[test]
fn typed_record_ignores_assignment_order() {
    let q1 = BlockQuery::all()
        .with_number(Comparison::Gt(1))
        .with_hash(Comparison::Eq(Some("0x123".to_string())));
    let q2 = BlockQuery::all()
        .with_hash(Comparison::Eq(Some("0x123".to_string())))
        .with_number(Comparison::Gt(1));
    let d1 = q1.to_bson().unwrap().to_string();
    assert_eq!(d1, q2.to_bson().unwrap().to_string());
    assert_eq!(
        d1,
        "{ \"number\": { \"$gt\": 1 }, \"hash\": { \"$eq\": \"0x123\" } }"
    );
}

#[test]
fn typed_record_reports_a_failing_slot() {
    let q = BlockQuery::all()
        .with_size(Comparison::Lt(u64::MAX))
        .with_number(Comparison::Gt(1));
    assert_eq!(
        q.to_bson(),
        Err(ConversionError::UnsignedIntegerExceededRange(u64::MAX))
    );
}

#[test]
fn typed_record_in_a_combination() {
    let q = Logical::Nor(vec![
        LogicalParameter::Value(BlockQuery::all().with_size(Comparison::Gte(7))),
        LogicalParameter::Value(BlockQuery::all().with_hash(Comparison::Ne(None))),
    ]);
    assert_eq!(
        q.to_bson().unwrap().to_string(),
        "{ \"$nor\": [{ \"size\": { \"$gte\": 7 } }, { \"hash\": { \"$ne\": null } }] }"
    );
}

#[test]
fn typed_record_names_its_entity() {
    assert_eq!(response_of(&BlockQuery::all()), Block::default());
}
