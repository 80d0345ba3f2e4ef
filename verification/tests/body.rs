use outbound::body::{body_from_stdin, reads_stdin, Body, Part};
use outbound::failure::Failure;
use outbound::items::RequestItems;
use outbound::json::JsonValue;

fn text(s: &str) -> String {
    s.to_string()
}

fn items(raw: &[&str]) -> RequestItems {
    let raw: Vec<String> = raw.iter().map(|s| s.to_string()).collect();
    RequestItems::parse(&raw).unwrap()
}

#[test]
fn piped_body_and_data_items_conflict() {
    for raw in [["a=1"], ["a:=1"], ["a@f"]] {
        for form in [false, true] {
            for multipart in [false, true] {
                for piped in ["", "{}", "anything"] {
                    assert_eq!(
                        Body::resolve(&items(&raw).0, form, multipart, Some(text(piped))),
                        Err(Failure::Conflict)
                    );
                }
            }
        }
    }
}

#[test]
fn conflict_comes_before_the_kind_of_an_item() {
    assert_eq!(
        Body::resolve(&items(&["a:=1"]).0, false, true, Some(text("x"))),
        Err(Failure::Conflict)
    );
    assert_eq!(Body::resolve(&items(&["a:=1"]).0, false, true, None), Err(Failure::Type));
}

#[test]
fn headers_and_parameters_are_no_data() {
    assert_eq!(
        Body::resolve(&items(&["a:1", "q==2", "b:"]).0, false, false, Some(text("raw"))),
        Ok(Some(Body::Raw(text("raw"))))
    );
}

#[test]
fn fields_make_a_json_body() {
    assert_eq!(
        items(&["name=bob", "age:=30"]).body(false, false),
        Ok(Some(Body::Json(vec![
            (text("name"), JsonValue::Text(text("bob"))),
            (text("age"), JsonValue::Literal(serde_json::Value::from(30))),
        ])))
    );
}

#[test]
fn json_key_is_held_once() {
    assert_eq!(
        items(&["a=1", "b=2", "a:=3", "c=4", "b=5"]).body(false, false),
        Ok(Some(Body::Json(vec![
            (text("a"), JsonValue::Literal(serde_json::Value::from(3))),
            (text("b"), JsonValue::Text(text("5"))),
            (text("c"), JsonValue::Text(text("4"))),
        ])))
    );
    // keys of a JSON object differ by case
    assert_eq!(
        items(&["a=1", "A=2"]).body(false, false),
        Ok(Some(Body::Json(vec![
            (text("a"), JsonValue::Text(text("1"))),
            (text("A"), JsonValue::Text(text("2"))),
        ])))
    );
}

#[test]
fn json_body_takes_no_file() {
    assert_eq!(items(&["a=1", "f@p"]).body(false, false), Err(Failure::Type));
}

#[test]
fn form_keeps_every_field() {
    assert_eq!(
        items(&["a=1", "h:x", "b=2", "a=3"]).body(true, false),
        Ok(Some(Body::Form(vec![
            (text("a"), text("1")),
            (text("b"), text("2")),
            (text("a"), text("3")),
        ])))
    );
}

#[test]
fn form_takes_text_only() {
    assert_eq!(items(&["a=1", "f@p"]).body(true, false), Err(Failure::Type));
    assert_eq!(items(&["a=1", "j:=1"]).body(true, false), Err(Failure::Type));
}

#[test]
fn multipart_takes_text_and_files() {
    assert_eq!(
        items(&["a=1", "f@/tmp/p", "a=2"]).body(false, true),
        Ok(Some(Body::Multipart(vec![
            (text("a"), Part::Text(text("1"))),
            (text("f"), Part::File(text("/tmp/p"))),
            (text("a"), Part::Text(text("2"))),
        ])))
    );
    assert_eq!(items(&["a=1", "j:=1"]).body(false, true), Err(Failure::Type));
}

#[test]
fn multipart_comes_before_form() {
    assert_eq!(
        items(&["f@p"]).body(true, true),
        Ok(Some(Body::Multipart(vec![(text("f"), Part::File(text("p")))])))
    );
}

#[test]
fn without_data_the_body_is_what_was_piped() {
    for form in [false, true] {
        for multipart in [false, true] {
            assert_eq!(
                Body::resolve(&Vec::new(), form, multipart, Some(text("piped"))),
                Ok(Some(Body::Raw(text("piped"))))
            );
            assert_eq!(Body::resolve(&Vec::new(), form, multipart, None), Ok(None));
            assert_eq!(items(&["a:1"]).body(form, multipart), Ok(None));
        }
    }
}

#[test]
fn stdin_is_read_unless_interactive_or_ignored() {
    assert!(reads_stdin(false, false));
    assert!(!reads_stdin(true, false));
    assert!(!reads_stdin(false, true));
    assert!(!reads_stdin(true, true));
}

#[test]
fn what_was_read_is_a_raw_body() {
    assert_eq!(body_from_stdin(Some(text("{\"a\":1}"))), Some(Body::Raw(text("{\"a\":1}"))));
    assert_eq!(body_from_stdin(Some(text(""))), Some(Body::Raw(text(""))));
    assert_eq!(body_from_stdin(None), None);
}
