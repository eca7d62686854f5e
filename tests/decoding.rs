use decoder::decode;
use decoder::decode::{sequence, str, string, u32};
use decoder::{run, Error, Result, Value};

fn from_json(json: serde_json::Value) -> Value {
    match json {
        serde_json::Value::Null => Value::Unit,
        serde_json::Value::Bool(b) => Value::Bool(b),
        serde_json::Value::Number(n) => {
            if let Some(u) = n.as_u64() {
                Value::U64(u)
            } else if let Some(i) = n.as_i64() {
                Value::I64(i)
            } else {
                decoder::encode::f64_bits(n.as_f64().unwrap_or(0.0).to_bits())
            }
        }
        serde_json::Value::String(s) => Value::String(s),
        serde_json::Value::Array(items) => Value::Sequence(items.into_iter().map(from_json).collect()),
        serde_json::Value::Object(fields) => Value::Mapping(
            fields
                .into_iter()
                .map(|(k, v)| (Value::String(k), from_json(v)))
                .collect(),
        ),
    }
}

fn parse(input: &str) -> std::result::Result<Value, serde_json::Error> {
    serde_json::from_str::<serde_json::Value>(input).map(from_json)
}

struct User {
    name: String,
    age: u32,
    projects: Vec<Project>,
}

impl User {
    fn decode(value: Value) -> Result<Self> {
        let mut user = decode::map(value)?;
        let name = user.required("name", string)?;
        let age = user.required("age", u32)?;
        let projects = user.required("projects", sequence(Project::decode))?;

        Ok(User {
            name,
            age,
            projects,
        })
    }
}

#[derive(Debug, PartialEq, Eq)]
struct Project {
    name: String,
    repository: String,
}

impl Project {
    fn decode(value: Value) -> Result<Self> {
        if let Ok(repository) = str(&value) {
            return Ok(Project {
                name: repository.split("/").last().unwrap_or("Unknown").to_owned(),
                repository: repository.to_owned(),
            });
        }

        let mut project = decode::map(value)?;
        let name = project.required("name", string)?;
        let repository = project.required("repository", string)?;

        Ok(Project { name, repository })
    }
}

#[test]
fn it_works() {
    let user = run(
        parse,
        User::decode,
        r#"
        {
            "name": "Héctor",
            "age": 32,
            "projects": [ 
                "https://github.com/iced-rs/iced",
                { "name": "Sipper", "repository": "https://github.com/hecrj/sipper" }
             ]
        }"#,
    )
    .expect("Decode user");

    assert_eq!(user.name, "Héctor");
    assert_eq!(user.age, 32);
    assert_eq!(
        user.projects,
        vec![
            Project {
                name: "iced".to_owned(),
                repository: "https://github.com/iced-rs/iced".to_owned()
            },
            Project {
                name: "Sipper".to_owned(),
                repository: "https://github.com/hecrj/sipper".to_owned()
            },
        ]
    );
}

#[test]
fn run_wraps_a_failed_conversion() {
    let result = run(parse, User::decode, "{ not json");
    assert!(matches!(result, Err(Error::Deserializer(_))));
}

struct Person {
    name: String,
    age: u32,
}

fn decode_person(value: Value) -> Result<Person> {
    let mut fields = decode::map(value)?;
    let name = fields.required("name", string)?;
    let age = fields.required("age", u32)?;
    Ok(Person { name, age })
}

#[test]
fn unconsumed_fields_are_not_an_error() {
    let person = run(parse, decode_person, r#"{"name": "Alice", "age": 30, "extra": true}"#)
        .expect("decode person");
    assert_eq!(person.name, "Alice");
    assert_eq!(person.age, 30);
}

#[test]
fn missing_field_reports_the_remaining_entries() {
    let result = run(parse, decode_person, r#"{"age": 30}"#);
    match result {
        Err(Error::FieldMissing { key, map }) => {
            assert_eq!(key, "name");
            assert_eq!(map, vec![(Value::String("age".to_owned()), Value::U64(30))]);
        }
        _ => panic!("expected a missing field"),
    }
}
