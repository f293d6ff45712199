use bson::Bson;
use mongo_tq::operand::ConversionError;
use mongo_tq::query::{
    Comparison, Entries, Logical, LogicalParameter, Parameter, QueryDocument,
};

#[derive(Debug, Default, PartialEq)]
struct Student {
    id: u32,
    name: String,
    surname: String,
}

#[derive(Debug, Default)]
struct StudentQuery {
    id: Option<Comparison<u32>>,
    name: Option<Comparison<String>>,
    surname: Option<Comparison<String>>,
}

impl Parameter for StudentQuery {
    /// Read by the verifier only, and never run.
    fn document(&self) -> Result<Entries, ConversionError> {
        unreachable!()
    }

    fn to_bson(self) -> Result<bson::Document, ConversionError> {
        let mut query = bson::Document::new();

        match self.id {
            Some(id) => {
                query.insert("id", id.to_bson()?);
            }
            None => {}
        }

        match self.name {
            Some(name) => {
                query.insert("name", name.to_bson()?);
            }
            None => {}
        }

        match self.surname {
            Some(surname) => {
                query.insert("surname", surname.to_bson()?);
            }
            None => {}
        }

        Ok(query)
    }
}

impl QueryDocument for StudentQuery {
    type ResponseDocument = Student;
}

impl StudentQuery {
    pub fn with_id(self, id: Comparison<u32>) -> Self {
        Self {
            id: Some(id),
            ..self
        }
    }

    pub fn with_name(self, name: Comparison<String>) -> Self {
        Self {
            name: Some(name),
            ..self
        }
    }

    pub fn with_surname(self, surname: Comparison<String>) -> Self {
        Self {
            surname: Some(surname),
            ..self
        }
    }
}

#[derive(Debug, Default, PartialEq)]
struct Class {
    students: Vec<Student>,
}

#[derive(Debug, Default)]
struct ClassQuery {
    students: Option<Logical<StudentQuery>>,
}

impl Parameter for ClassQuery {
    /// Read by the verifier only, and never run.
    fn document(&self) -> Result<Entries, ConversionError> {
        unreachable!()
    }

    fn to_bson(self) -> Result<bson::Document, ConversionError> {
        let mut query = bson::Document::new();

        match self.students {
            Some(students) => {
                query.insert("students", students.to_bson()?);
            }
            None => {}
        }

        Ok(query)
    }
}

impl QueryDocument for ClassQuery {
    type ResponseDocument = Class;
}

/// An entity that can be written to a document and read back from one.
trait Entity: Sized {
    fn to_document(&self) -> bson::Document;
    fn from_document(d: bson::Document) -> Option<Self>;
}

impl Entity for Student {
    fn to_document(&self) -> bson::Document {
        let mut d = bson::Document::new();
        d.insert("id", Bson::Int64(self.id as i64));
        d.insert("name", self.name.clone());
        d.insert("surname", self.surname.clone());
        d
    }

    fn from_document(d: bson::Document) -> Option<Self> {
        Some(Student {
            id: d.get_i64("id").ok()? as u32,
            name: d.get_str("name").ok()?.to_string(),
            surname: d.get_str("surname").ok()?.to_string(),
        })
    }
}

impl Entity for Class {
    fn to_document(&self) -> bson::Document {
        let mut d = bson::Document::new();
        let students: Vec<Bson> = self
            .students
            .iter()
            .map(|s| Bson::Document(s.to_document()))
            .collect();
        d.insert("students", students);
        d
    }

    fn from_document(d: bson::Document) -> Option<Self> {
        let mut students = Vec::new();
        for s in d.get_array("students").ok()? {
            students.push(Student::from_document(s.as_document()?.clone())?);
        }
        Some(Class { students })
    }
}

fn single(key: &str, value: impl Into<Bson>) -> bson::Document {
    let mut d = bson::Document::new();
    d.insert(key, value);
    d
}

fn id_gt(n: i64) -> bson::Document {
    single("id", single("$gt", Bson::Int64(n)))
}

fn name_eq(name: &str) -> bson::Document {
    single("name", single("$eq", name))
}

fn foo<T: Parameter>(q: T) -> bson::Document {
    let query = q.to_bson().unwrap();
    println!("{:?}", query);
    query
}

fn query_document<T>(q: T) -> T::ResponseDocument
where
    T: QueryDocument,
    T::ResponseDocument: Default + Entity,
{
    let _query = q.to_bson().unwrap();
    let response = T::ResponseDocument::default();
    let d = response.to_document();

    T::ResponseDocument::from_document(d).unwrap()
}

#[test]
fn lib_it_works() {
    let student_q = StudentQuery::default()
        .with_id(Comparison::Gt(1))
        .with_name(Comparison::Eq("John".to_string()))
        .with_surname(Comparison::Eq("Doe".to_string()));

    let query = student_q.to_bson().unwrap();
    println!("{:?}", query);
    let mut expected = id_gt(1);
    expected.insert("name", single("$eq", "John"));
    expected.insert("surname", single("$eq", "Doe"));
    assert_eq!(query, expected);

    let student_q = StudentQuery::default().with_id(Comparison::Gt(1));

    let query = student_q.to_bson().unwrap();
    println!("{:?}", query);
    assert_eq!(query, id_gt(1));

    let student_id = StudentQuery::default().with_id(Comparison::Gt(1));
    let student_name = StudentQuery::default().with_name(Comparison::Eq("John".to_string()));
    let or = Logical::Or(vec![
        LogicalParameter::Value(student_id),
        LogicalParameter::Value(student_name),
    ]);
    let query = or.to_bson().unwrap();
    println!("{:?}", query);
    assert_eq!(
        query,
        single(
            "$or",
            vec![Bson::Document(id_gt(1)), Bson::Document(name_eq("John"))]
        )
    );
}

#[test]
fn lib_test_vec_of_students() {
    let class_q = ClassQuery {
        students: Some(Logical::Or(vec![
            LogicalParameter::Value(StudentQuery::default().with_id(Comparison::Gt(1))),
            LogicalParameter::Value(
                StudentQuery::default().with_name(Comparison::Eq("John".to_string())),
            ),
        ])),
    };
    let query = class_q.to_bson().unwrap();
    println!("{:?}", query);
    assert_eq!(
        query.to_string(),
        "{ \"students\": { \"$or\": [{ \"id\": { \"$gt\": 1 } }, { \"name\": { \"$eq\": \"John\" } }] } }"
    );
}

#[test]
fn lib_test_fn_receive_q() {
    let student_q = StudentQuery::default().with_id(Comparison::Gt(1));
    assert_eq!(foo(student_q).to_string(), "{ \"id\": { \"$gt\": 1 } }");
}

#[test]
fn lib_test_fn_receive_q_return_doc() {
    let student_q = StudentQuery::default().with_id(Comparison::Gt(1));
    assert_eq!(query_document(student_q), Student::default());

    let class_q = ClassQuery {
        students: Some(Logical::Or(vec![
            LogicalParameter::Value(StudentQuery::default().with_id(Comparison::Gt(1))),
            LogicalParameter::Value(
                StudentQuery::default().with_name(Comparison::Eq("John".to_string())),
            ),
        ])),
    };

    assert_eq!(query_document(class_q), Class::default());
}
