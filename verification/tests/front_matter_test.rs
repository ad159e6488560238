use ssg::front_matter::{parse_document, FrontField, FrontValue};
use ssg::markdown::to_html;

fn value_of<'a>(fields: &'a [FrontField], key: &str) -> Option<&'a FrontValue> {
    fields.iter().find(|f| f.key == key).map(|f| &f.value)
}

#[test]
fn markdown_becomes_html() {
    assert_eq!(to_html("# Hello"), "<h1>Hello</h1>\n");
    assert_eq!(to_html("Some *text*."), "<p>Some <em>text</em>.</p>\n");
    assert_eq!(to_html(""), "");
}

#[test]
fn a_file_without_front_matter_is_all_body() {
    let doc = parse_document("# Hello\n\ntext");
    assert!(doc.fields.is_empty());
    assert_eq!(doc.body, "# Hello\n\ntext");
}

#[test]
fn an_empty_file_has_neither_fields_nor_body() {
    let doc = parse_document("");
    assert!(doc.fields.is_empty());
    assert_eq!(doc.body, "");
}

#[test]
fn front_matter_is_split_from_the_body() {
    let doc = parse_document("---\ntitle: \"Hi\"\n---\n# Hello");
    assert_eq!(doc.body, "# Hello");
    assert_eq!(doc.fields.len(), 1);
    assert_eq!(doc.fields[0].key, "title");
    assert_eq!(doc.fields[0].value, FrontValue::Text("Hi".to_string()));
}

#[test]
fn arrays_keep_their_items_in_order() {
    let doc = parse_document("---\ntags:\n  - zeta\n  - alpha\n  - mid\n---\nbody");
    assert_eq!(
        value_of(&doc.fields, "tags"),
        Some(&FrontValue::List(vec![
            Some("zeta".to_string()),
            Some("alpha".to_string()),
            Some("mid".to_string()),
        ]))
    );
}

#[test]
fn an_array_item_that_is_no_string_is_marked() {
    let doc = parse_document("---\nmixed:\n  - one\n  - 2\n  - true\n---\nbody");
    assert_eq!(
        value_of(&doc.fields, "mixed"),
        Some(&FrontValue::List(vec![Some("one".to_string()), None, None]))
    );
}

#[test]
fn values_of_other_kinds_are_other() {
    let doc = parse_document(
        "---\ncount: 3\nratio: 1.5\ndraft: true\nnothing: ~\nnested:\n  inner: x\ntitle: T\n---\nbody",
    );
    assert_eq!(doc.fields.len(), 6);
    assert_eq!(value_of(&doc.fields, "count"), Some(&FrontValue::Other));
    assert_eq!(value_of(&doc.fields, "ratio"), Some(&FrontValue::Other));
    assert_eq!(value_of(&doc.fields, "draft"), Some(&FrontValue::Other));
    assert_eq!(value_of(&doc.fields, "nothing"), Some(&FrontValue::Other));
    assert_eq!(value_of(&doc.fields, "nested"), Some(&FrontValue::Other));
    assert_eq!(
        value_of(&doc.fields, "title"),
        Some(&FrontValue::Text("T".to_string()))
    );
}

#[test]
fn no_key_comes_twice() {
    let doc = parse_document("---\na: 1\nb: two\nc: [x]\nd: four\n---\n");
    let mut keys: Vec<String> = doc.fields.iter().map(|f| f.key.clone()).collect();
    keys.sort();
    assert_eq!(keys, vec!["a", "b", "c", "d"]);
}

#[test]
fn front_matter_that_is_no_mapping_gives_no_fields() {
    let doc = parse_document("---\n- one\n- two\n---\nbody");
    assert!(doc.fields.is_empty());
    assert_eq!(doc.body, "body");
    let doc = parse_document("---\njust a string\n---\nbody");
    assert!(doc.fields.is_empty());
    assert_eq!(doc.body, "body");
}

#[test]
fn the_fields_depend_on_the_text_alone() {
    let text = "---\na: one\nb: [x, y]\nc: 3\nd: four\ne: [1, z]\n---\nbody";
    let mut first = parse_document(text).fields;
    let mut second = parse_document(text).fields;
    first.sort_by(|x, y| x.key.cmp(&y.key));
    second.sort_by(|x, y| x.key.cmp(&y.key));
    assert_eq!(first, second);
    assert_eq!(first.len(), 5);
    assert_eq!(
        first[4].value,
        FrontValue::List(vec![None, Some("z".to_string())])
    );
}
