use elastic_loader::request::bulk_operations;
use elastic_loader::request::id_text;
use elastic_loader::request::pushed_or_error;
use elasticsearch::http::request::Body;

fn json(text: &str) -> serde_json::Value {
    serde_json::from_str(text).unwrap()
}

fn body_of(ops: &elasticsearch::BulkOperations) -> String {
    let bytes = ops.bytes().unwrap();
    String::from_utf8(bytes.to_vec()).unwrap()
}

#[test]
fn identifier_text_is_the_decimal_numeral() {
    assert_eq!(id_text(0), "0");
    assert_eq!(id_text(1), "1");
    assert_eq!(id_text(9), "9");
    assert_eq!(id_text(10), "10");
    assert_eq!(id_text(25000), "25000");
    assert_eq!(id_text(1234567890), "1234567890");
    assert_eq!(id_text(usize::MAX), usize::MAX.to_string());
    for id in 0..2000usize {
        assert_eq!(id_text(id), id.to_string());
    }
}

#[test]
fn operations_tag_each_document_with_its_identifier() {
    let documents = vec![json(r#"{"year":"2016"}"#), json(r#"{"year":"2017"}"#)];
    let ops = bulk_operations(&documents, 0).unwrap();
    assert_eq!(
        body_of(&ops),
        "{\"create\":{\"_id\":\"1\"}}\n{\"year\":\"2016\"}\n{\"create\":{\"_id\":\"2\"}}\n{\"year\":\"2017\"}\n"
    );
}

#[test]
fn operations_of_a_later_batch_start_at_its_first_position() {
    let documents = vec![json("1"), json("2"), json("3")];
    let ops = bulk_operations(&documents, 20000).unwrap();
    assert_eq!(
        body_of(&ops),
        "{\"create\":{\"_id\":\"20001\"}}\n1\n{\"create\":{\"_id\":\"20002\"}}\n2\n{\"create\":{\"_id\":\"20003\"}}\n3\n"
    );
}

#[test]
fn operations_are_built_for_every_kind_of_document() {
    let documents = vec![
        json("null"),
        json("true"),
        json("-1.5e3"),
        json(r#""text""#),
        json(r#"[1,[2,{"a":null}]]"#),
        json(r#"{"nested":{"deep":{"deeper":[{}]}}}"#),
    ];
    let ops = bulk_operations(&documents, 9).unwrap();
    assert_eq!(body_of(&ops).lines().count(), 12);
    assert!(body_of(&ops).starts_with("{\"create\":{\"_id\":\"10\"}}\nnull\n"));
}

#[test]
fn operations_of_no_documents_are_empty() {
    let ops = bulk_operations(&[], 7).unwrap();
    assert_eq!(body_of(&ops), "");
}

#[test]
fn push_that_succeeded_is_no_error() {
    assert_eq!(pushed_or_error(Ok(())), Ok(()));
}
