use avocado::doc::Document;

fn keys(doc: &Document<i32>) -> Vec<String> {
    (0..doc.len()).map(|i| doc.key_at(i).clone()).collect()
}

fn values(doc: &Document<i32>) -> Vec<i32> {
    (0..doc.len()).map(|i| *doc.value_at(i)).collect()
}

#[test]
fn new_document_is_empty() {
    let doc: Document<i32> = Document::new();
    assert_eq!(doc.len(), 0);
    assert!(doc.is_empty());
    assert_eq!(doc.get("a"), None);
    assert!(!doc.contains_key("a"));
    assert_eq!(doc.find("a"), None);
}

#[test]
fn insert_appends_new_keys_in_order() {
    let mut doc = Document::new();
    assert_eq!(doc.insert("b".to_string(), 2), None);
    assert_eq!(doc.insert("a".to_string(), 1), None);
    assert_eq!(doc.insert("c".to_string(), 3), None);
    assert_eq!(doc.len(), 3);
    assert!(!doc.is_empty());
    assert_eq!(keys(&doc), vec!["b", "a", "c"]);
    assert_eq!(values(&doc), vec![2, 1, 3]);
}

#[test]
fn reinserting_a_key_keeps_its_position() {
    let mut doc = Document::new();
    doc.insert("A".to_string(), 1);
    doc.insert("B".to_string(), 2);
    doc.insert("C".to_string(), 3);
    let previous = doc.insert("A".to_string(), 4);
    assert_eq!(previous, Some(1));
    assert_eq!(doc.len(), 3);
    assert_eq!(keys(&doc), vec!["A", "B", "C"]);
    assert_eq!(values(&doc), vec![4, 2, 3]);
}

#[test]
fn reinserting_the_last_and_the_middle_key_keeps_the_order() {
    let mut doc = Document::new();
    doc.insert("A".to_string(), 1);
    doc.insert("B".to_string(), 2);
    doc.insert("C".to_string(), 3);
    assert_eq!(doc.insert("C".to_string(), 30), Some(3));
    assert_eq!(doc.insert("B".to_string(), 20), Some(2));
    assert_eq!(keys(&doc), vec!["A", "B", "C"]);
    assert_eq!(values(&doc), vec![1, 20, 30]);
}

#[test]
fn lookup_finds_the_value_and_the_position() {
    let mut doc = Document::new();
    doc.insert("x".to_string(), 10);
    doc.insert("y".to_string(), 20);
    assert_eq!(doc.get("x"), Some(&10));
    assert_eq!(doc.get("y"), Some(&20));
    assert_eq!(doc.get("z"), None);
    assert_eq!(doc.find("x"), Some(0));
    assert_eq!(doc.find("y"), Some(1));
    assert_eq!(doc.find("z"), None);
    assert!(doc.contains_key("y"));
    assert!(!doc.contains_key(""));
    assert_eq!(doc.key_at(1), "y");
    assert_eq!(*doc.value_at(1), 20);
}

#[test]
fn keys_differ_by_case_and_by_length() {
    let mut doc = Document::new();
    doc.insert("a".to_string(), 1);
    doc.insert("A".to_string(), 2);
    doc.insert("aa".to_string(), 3);
    doc.insert("".to_string(), 4);
    assert_eq!(doc.len(), 4);
    assert_eq!(doc.get(""), Some(&4));
    assert_eq!(doc.get("A"), Some(&2));
}

#[test]
fn clone_keeps_keys_values_and_order() {
    let mut doc = Document::new();
    doc.insert("one".to_string(), 1);
    doc.insert("two".to_string(), 2);
    let copy = doc.clone();
    assert_eq!(copy, doc);
    assert_eq!(keys(&copy), vec!["one", "two"]);
    assert_eq!(values(&copy), vec![1, 2]);
}

#[test]
fn documents_with_other_order_are_not_equal() {
    let mut first = Document::new();
    first.insert("a".to_string(), 1);
    first.insert("b".to_string(), 2);
    let mut second = Document::new();
    second.insert("b".to_string(), 2);
    second.insert("a".to_string(), 1);
    assert_ne!(first, second);
}

#[test]
fn the_default_document_is_empty() {
    let doc: Document<i32> = Document::default();
    assert!(doc.is_empty());
    assert_eq!(doc, Document::new());
}
