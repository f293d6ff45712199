use mongo_tq::generator::{queriable_derive, queryable_derive, FieldDescriptor, QueryTypeDef};
use mongo_tq::operand::Scalar;
use mongo_tq::query::{Comparison, Logical, LogicalParameter, Parameter};
use mongo_tq::query_type::QueryType;

/// The entity of these tests; only its name and its fields matter.
#[derive(Debug, Default, PartialEq)]
struct Student;

fn field(name: &str, ty: &str, queryable: bool) -> FieldDescriptor {
    FieldDescriptor {
        name: name.to_string(),
        ty: ty.to_string(),
        queryable,
    }
}

fn student_fields() -> Vec<FieldDescriptor> {
    vec![
        field("id", "i32", true),
        field("name", "String", true),
        field("age", "i32", false),
        field("info", "Info", true),
    ]
}

fn all(def: &QueryTypeDef) -> QueryType<Student, Scalar> {
    QueryType::all(def)
}

fn text(s: &str) -> Scalar {
    Scalar::Text(s.to_string())
}

fn slot_names(def: &QueryTypeDef) -> Vec<String> {
    def.slots.iter().map(|s| s.name.clone()).collect()
}

fn builders(def: &QueryTypeDef) -> Vec<String> {
    def.slots.iter().map(|s| s.builder.clone()).collect()
}

fn slot_types(def: &QueryTypeDef) -> Vec<String> {
    def.slots.iter().map(|s| s.ty.clone()).collect()
}

#[test]
fn test_basic_struct() {
    let student_query = queryable_derive("Student", &student_fields());
    let info_query = queryable_derive(
        "Info",
        &vec![field("field1", "i32", true), field("field2", "String", false)],
    );
    assert_eq!(info_query.name, "InfoQuery");
    assert_eq!(slot_names(&info_query), vec!["field1"]);

    let q = all(&student_query)
        .with_field("name", Comparison::Eq(text("little zayec")))
        .with_field("id", Comparison::Gt(Scalar::Int32(12)));

    let q2 = all(&student_query)
        .with_field("name", Comparison::Eq(text("bla")))
        .with_field("id", Comparison::Lt(Scalar::Int32(12)));

    let or_q = Logical::Or(vec![
        LogicalParameter::Value(q),
        LogicalParameter::Value(q2),
    ]);
    assert_eq!(
        or_q.to_bson().unwrap().to_string(),
        "{ \"$or\": [{ \"id\": { \"$gt\": 12 }, \"name\": { \"$eq\": \"little zayec\" } }, \
         { \"id\": { \"$lt\": 12 }, \"name\": { \"$eq\": \"bla\" } }] }"
    );

    let _query = all(&student_query)
        .with_field("id", Comparison::Eq(Scalar::Int32(1)))
        .with_field("name", Comparison::Eq(text("John")));

    let raw_q = _query.to_bson();
    println!("RW: {:?}", raw_q);
    assert_eq!(
        raw_q.unwrap().to_string(),
        "{ \"id\": { \"$eq\": 1 }, \"name\": { \"$eq\": \"John\" } }"
    );
}

#[test]
fn only_queryable_fields_get_a_slot() {
    let fields = vec![
        field("id", "i32", true),
        field("name", "String", true),
        field("age", "i32", false),
    ];
    let def = queryable_derive("Test", &fields);
    assert_eq!(def.name, "TestQuery");
    assert_eq!(slot_names(&def), vec!["id", "name"]);
    assert_eq!(slot_types(&def), vec!["i32", "String"]);
    assert_eq!(builders(&def), vec!["with_id", "with_name"]);
    assert_eq!(def.constructor, "all");
    assert_eq!(def.response_document, "Test");
}

#[test]
fn slots_keep_declaration_order() {
    let fields = vec![
        field("z", "i32", true),
        field("skipped", "i32", false),
        field("a", "String", true),
        field("m", "bool", true),
    ];
    let def = queryable_derive("Entity", &fields);
    assert_eq!(slot_names(&def), vec!["z", "a", "m"]);
    assert_eq!(builders(&def), vec!["with_z", "with_a", "with_m"]);
}

#[test]
fn entity_without_queryable_fields() {
    let def = queryable_derive("Plain", &vec![field("a", "i32", false)]);
    assert_eq!(def.name, "PlainQuery");
    assert!(def.slots.is_empty());
    assert_eq!(all(&def).to_bson().unwrap().len(), 0);

    let def = queryable_derive("Empty", &Vec::new());
    assert_eq!(def.name, "EmptyQuery");
    assert!(def.slots.is_empty());
}

#[test]
fn both_derives_give_the_same_query_type() {
    let fields = vec![
        field("id", "i32", true),
        field("name", "String", true),
        field("age", "i32", false),
    ];
    let def = queriable_derive("Test", &fields);
    assert_eq!(def.name, "TestQuery");
    assert_eq!(slot_names(&def), vec!["id", "name"]);
    assert_eq!(slot_types(&def), vec!["i32", "String"]);
    assert_eq!(builders(&def), vec!["with_id", "with_name"]);
    assert_eq!(def.constructor, "all");
    assert_eq!(def.response_document, "Test");

    let other = queryable_derive("Test", &fields);
    assert_eq!(def.name, other.name);
    assert_eq!(slot_names(&def), slot_names(&other));
    assert_eq!(builders(&def), builders(&other));
}

#[test]
fn every_field_marked_queryable_gets_a_slot() {
    let fields = vec![
        field("id", "i32", true),
        field("name", "String", true),
        field("age", "i32", true),
    ];
    let def = queriable_derive("Test", &fields);
    assert_eq!(def.name, "TestQuery");
    assert_eq!(slot_names(&def), vec!["id", "name", "age"]);
    assert_eq!(slot_types(&def), vec!["i32", "String", "i32"]);
    assert_eq!(builders(&def), vec!["with_id", "with_name", "with_age"]);
    assert_eq!(all(&def).to_bson().unwrap().len(), 0);
}

#[test]
fn unconstrained_slot_of_an_entity_field() {
    let def = queryable_derive("Student", &student_fields());
    assert_eq!(slot_names(&def), vec!["id", "name", "info"]);
    let q = all(&def).with_field("id", Comparison::In(vec![Scalar::Int32(1), Scalar::Int32(2)]));
    assert_eq!(
        q.to_bson().unwrap().to_string(),
        "{ \"id\": { \"$in\": [1, 2] } }"
    );
}
