use avocado::bson_type::BsonType;
use avocado::filter::{ne, regex, regex_opts, Filter, FilterDoc};
use avocado::regex_opts::RegexOpts;
use avocado::value::StructuredValue;
use bson::{Bson, Document};
use serde::ser::{Serialize, SerializeMap, SerializeSeq, Serializer};

/// Hands a structured value to a serializer, node by node.
struct Wire<'a>(&'a StructuredValue);

impl<'a> Serialize for Wire<'a> {
    fn serialize<S: Serializer>(&self, serializer: S) -> Result<S::Ok, S::Error> {
        match self.0 {
            StructuredValue::Raw(value) => value.serialize(serializer),
            StructuredValue::RawDocument(document) => document.serialize(serializer),
            StructuredValue::Int32(n) => serializer.serialize_i32(*n),
            StructuredValue::Int64(n) => serializer.serialize_i64(*n),
            StructuredValue::Str(s) => serializer.serialize_str(s),
            StructuredValue::Array(items) => {
                let mut seq = serializer.serialize_seq(Some(items.len()))?;
                for item in items {
                    seq.serialize_element(&Wire(item))?;
                }
                seq.end()
            }
            StructuredValue::Doc(entries) => {
                let mut map = serializer.serialize_map(Some(entries.len()))?;
                for (key, value) in entries {
                    map.serialize_entry(key, &Wire(value))?;
                }
                map.end()
            }
        }
    }
}

fn to_bson(value: &StructuredValue) -> Bson {
    bson::to_bson(&Wire(value)).unwrap()
}

fn one(key: &str, value: Bson) -> Document {
    let mut document = Document::new();
    document.insert(key, value);
    document
}

#[test]
fn the_repository_query_reaches_the_database_as_the_expected_document() {
    let mut release_date = FilterDoc::new();
    release_date.insert("year".to_string(), Filter::from(Bson::I32(2018)));
    let mut repo_filter = FilterDoc::new();
    repo_filter.insert("name".to_string(), regex("^Avocado.*$".into()));
    repo_filter.insert(
        "authors.0.username".to_string(),
        Filter::from(Bson::String("H2CO3".to_string())),
    );
    repo_filter.insert("release_date".to_string(), Filter::from(release_date));
    repo_filter.insert("stargazers".to_string(), Filter::Type(BsonType::array()));
    repo_filter.insert("downloads".to_string(), ne(Bson::I32(1337)));

    let value = to_bson(&repo_filter.serialize().unwrap());

    let mut expected = Document::new();
    expected.insert("name", one("$regex", Bson::String("^Avocado.*$".to_string())));
    expected.insert("authors.0.username", "H2CO3");
    expected.insert("release_date", one("year", Bson::I32(2018)));
    expected.insert("stargazers", one("$type", Bson::String("array".to_string())));
    expected.insert("downloads", one("$ne", Bson::I32(1337)));
    assert_eq!(value, Bson::Document(expected));
}

#[test]
fn the_pattern_and_comparison_query_reaches_the_database_in_order() {
    let mut query = FilterDoc::new();
    query.insert("name".to_string(), regex("^X".into()));
    query.insert("count".to_string(), ne(Bson::I32(5)));
    let value = to_bson(&query.serialize().unwrap());

    let mut expected = Document::new();
    expected.insert("name", one("$regex", Bson::String("^X".to_string())));
    expected.insert("count", one("$ne", Bson::I32(5)));
    assert_eq!(value, Bson::Document(expected.clone()));
    match value {
        Bson::Document(document) => {
            let keys: Vec<&String> = document.keys().collect();
            assert_eq!(keys, vec!["name", "count"]);
        }
        other => panic!("not a document: {:?}", other),
    }
}

#[test]
fn numbers_and_arrays_reach_the_database_with_their_width() {
    assert_eq!(
        to_bson(&Filter::Exists(true).serialize().unwrap()),
        Bson::Document(one("$exists", Bson::I32(1)))
    );
    assert_eq!(
        to_bson(&Filter::Size(3).serialize().unwrap()),
        Bson::Document(one("$size", Bson::I64(3)))
    );
    assert_eq!(
        to_bson(&Filter::Type(BsonType::number()).serialize().unwrap()),
        Bson::Document(one(
            "$type",
            Bson::Array(vec![
                Bson::String("double".to_string()),
                Bson::String("int".to_string()),
                Bson::String("int".to_string()),
                Bson::String("decimal".to_string()),
            ]),
        ))
    );
    assert_eq!(
        to_bson(&Filter::In(vec![Bson::I32(1), Bson::FloatingPoint(2.5)]).serialize().unwrap()),
        Bson::Document(one(
            "$in",
            Bson::Array(vec![Bson::I32(1), Bson::FloatingPoint(2.5)]),
        ))
    );
}

#[test]
fn a_schema_reaches_the_database_as_a_document() {
    let mut schema = Document::new();
    schema.insert("bsonType", "object");
    assert_eq!(
        to_bson(&Filter::JsonSchema(schema.clone()).serialize().unwrap()),
        Bson::Document(one("$jsonSchema", Bson::Document(schema)))
    );
}

#[test]
fn a_pattern_with_options_is_what_the_database_calls_a_regular_expression() {
    let filter = regex_opts("^x".into(), RegexOpts::ignore_case() | RegexOpts::dot_newline());
    assert_eq!(
        to_bson(&filter.serialize().unwrap()),
        Bson::RegExp("^x".to_string(), "is".to_string())
    );
}
