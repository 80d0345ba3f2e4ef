use outbound::auth::{Auth, AuthType};
use outbound::body::{Body, Part};
use outbound::failure::Failure;
use outbound::headers::Headers;
use outbound::invocation::Invocation;
use outbound::json::JsonValue;
use outbound::print::{Disposal, Print};
use outbound::request::{Method, OutboundRequest};
use outbound::url::Url;

fn text(s: &str) -> String {
    s.to_string()
}

fn asked(method: Method, url: &str, items: &[&str]) -> Invocation {
    Invocation {
        method,
        url: text(url),
        request_items: items.iter().map(|s| s.to_string()).collect(),
        form: false,
        multipart: false,
        auth: None,
        auth_type: None,
        default_scheme: None,
        ignore_stdin: false,
        offline: false,
        download: false,
        verbose: false,
        print: None,
    }
}

fn assembled(body: Option<Body>, set: Headers, unset: &[&str]) -> OutboundRequest {
    OutboundRequest::assemble(
        Method::Get,
        Url::new("example.com", "http").unwrap(),
        Vec::new(),
        set,
        unset.iter().map(|s| s.to_string()).collect(),
        body,
        None,
    )
}

#[test]
fn post_with_fields_sends_json() {
    let invocation = asked(Method::Post, "example.com/api", &["name=bob", "age:=30"]);
    let request = invocation.request(None).unwrap();
    assert_eq!(request.method(), Method::Post);
    assert_eq!(request.url().as_str(), "http://example.com/api");
    assert_eq!(
        request.body(),
        &Some(Body::Json(vec![
            (text("name"), JsonValue::Text(text("bob"))),
            (text("age"), JsonValue::Literal(serde_json::Value::from(30))),
        ]))
    );
    assert_eq!(request.headers().get("Accept"), Some("application/json, */*"));
    assert_eq!(request.headers().get("Host"), Some("example.com"));
    assert_eq!(request.headers().get("Content-Type"), None);
    assert!(request.query().is_empty());
    assert_eq!(request.auth(), &None);

    let mut object = serde_json::Map::new();
    if let Some(Body::Json(fields)) = request.body() {
        for (key, value) in fields {
            let value = match value {
                JsonValue::Text(text) => serde_json::Value::String(text.clone()),
                JsonValue::Literal(value) => value.clone(),
            };
            object.insert(key.clone(), value);
        }
    }
    let expected: serde_json::Value = serde_json::from_str("{\"name\":\"bob\",\"age\":30}").unwrap();
    assert_eq!(serde_json::Value::Object(object), expected);
}

#[test]
fn every_request_gets_the_defaults() {
    let request = assembled(None, Headers::new(), &[]);
    assert_eq!(request.headers().get("accept"), Some("*/*"));
    assert_eq!(request.headers().get("accept-encoding"), Some("gzip, deflate"));
    assert_eq!(request.headers().get("connection"), Some("keep-alive"));
    assert_eq!(request.headers().get("host"), Some("example.com"));
    assert_eq!(request.headers().get("content-type"), None);
    assert_eq!(request.headers().entries().len(), 4);
}

#[test]
fn accept_prefers_json_for_json_and_raw_bodies() {
    let json = assembled(Some(Body::Json(Vec::new())), Headers::new(), &[]);
    assert_eq!(json.headers().get("accept"), Some("application/json, */*"));
    assert_eq!(json.headers().get("content-type"), None);
    let raw = assembled(Some(Body::Raw(text("{}"))), Headers::new(), &[]);
    assert_eq!(raw.headers().get("accept"), Some("application/json, */*"));
    assert_eq!(raw.headers().get("content-type"), Some("application/json"));
    let form = assembled(Some(Body::Form(vec![(text("a"), text("1"))])), Headers::new(), &[]);
    assert_eq!(form.headers().get("accept"), Some("*/*"));
    assert_eq!(form.headers().get("content-type"), None);
    let parts = vec![(text("a"), Part::Text(text("1")))];
    let multipart = assembled(Some(Body::Multipart(parts)), Headers::new(), &[]);
    assert_eq!(multipart.headers().get("accept"), Some("*/*"));
    assert_eq!(multipart.headers().get("content-type"), None);
}

#[test]
fn user_header_replaces_the_default() {
    let mut set = Headers::new();
    set.insert("Accept", "text/html");
    set.insert("HOST", "other.example");
    set.insert("Content-Type", "text/plain");
    set.insert("X-Own", "1");
    let request = assembled(Some(Body::Raw(text("x"))), set, &[]);
    assert_eq!(request.headers().get("accept"), Some("text/html"));
    assert_eq!(request.headers().get("host"), Some("other.example"));
    assert_eq!(request.headers().get("content-type"), Some("text/plain"));
    assert_eq!(request.headers().get("x-own"), Some("1"));
    assert_eq!(request.headers().get("connection"), Some("keep-alive"));
    assert_eq!(request.headers().entries().len(), 6);
}

#[test]
fn unset_cancels_the_default_host() {
    let invocation = asked(Method::Get, "example.com", &["Host:"]);
    let request = invocation.request(None).unwrap();
    assert_eq!(request.headers().get("host"), None);
    assert!(!request.headers().contains("Host"));
    assert_eq!(request.headers().get("accept"), Some("*/*"));
    assert_eq!(request.headers_to_remove(), &vec![text("Host")]);
}

#[test]
fn unset_strips_whatever_was_set() {
    let request = asked(Method::Get, "example.com", &["a:", "a:1", "b:2", "ACCEPT:"])
        .request(None)
        .unwrap();
    assert_eq!(request.headers().get("a"), None);
    assert_eq!(request.headers().get("b"), Some("2"));
    assert_eq!(request.headers().get("accept"), None);
    assert_eq!(request.headers_to_remove(), &vec![text("a"), text("ACCEPT")]);
    let content_type = asked(Method::Post, "example.com", &["content-type:"])
        .request(Some(text("raw")))
        .unwrap();
    assert_eq!(content_type.headers().get("content-type"), None);
    assert_eq!(content_type.body(), &Some(Body::Raw(text("raw"))));
}

#[test]
fn parts_are_carried_as_given() {
    let request = OutboundRequest::assemble(
        Method::Put,
        Url::new("https://example.com/a", "http").unwrap(),
        vec![(text("q"), text("1")), (text("q"), text("2"))],
        Headers::new(),
        vec![text("x")],
        Some(Body::Form(vec![(text("a"), text("1"))])),
        Some(Auth::Bearer(text("t"))),
    );
    assert_eq!(request.method(), Method::Put);
    assert_eq!(request.url().as_str(), "https://example.com/a");
    assert_eq!(request.query(), &vec![(text("q"), text("1")), (text("q"), text("2"))]);
    assert_eq!(request.headers_to_remove(), &vec![text("x")]);
    assert_eq!(request.body(), &Some(Body::Form(vec![(text("a"), text("1"))])));
    assert_eq!(request.auth(), &Some(Auth::Bearer(text("t"))));
}

#[test]
fn invocation_carries_query_and_auth() {
    let mut invocation = asked(Method::Get, "https://example.com", &["q==rust", "p==1"]);
    invocation.auth = Some(text("alice:secret"));
    let request = invocation.request(None).unwrap();
    assert_eq!(request.query(), &vec![(text("q"), text("rust")), (text("p"), text("1"))]);
    assert_eq!(request.auth(), &Some(Auth::Basic(text("alice"), text("secret"))));
    assert_eq!(request.body(), &None);
    invocation.auth_type = Some(AuthType::Bearer);
    let request = invocation.request(None).unwrap();
    assert_eq!(request.auth(), &Some(Auth::Bearer(text("alice:secret"))));
}

#[test]
fn invocation_uses_its_default_scheme() {
    let mut invocation = asked(Method::Get, "example.com", &[]);
    assert_eq!(invocation.request(None).unwrap().url().as_str(), "http://example.com");
    invocation.default_scheme = Some(text("https"));
    assert_eq!(invocation.request(None).unwrap().url().as_str(), "https://example.com");
}

#[test]
fn piped_text_is_the_body() {
    let request = asked(Method::Post, "example.com", &["h:1"]).request(Some(text("{}"))).unwrap();
    assert_eq!(request.body(), &Some(Body::Raw(text("{}"))));
    assert_eq!(request.headers().get("content-type"), Some("application/json"));
    assert_eq!(request.headers().get("accept"), Some("application/json, */*"));
    assert_eq!(request.headers().get("h"), Some("1"));
}

#[test]
fn each_failure_ends_the_preparation() {
    let failed = |invocation: Invocation, piped: Option<String>| invocation.request(piped).err();
    assert_eq!(failed(asked(Method::Get, "example.com", &["bad"]), None), Some(Failure::Parse));
    assert_eq!(failed(asked(Method::Get, "example.com", &["a:={"]), None), Some(Failure::Json));
    assert_eq!(failed(asked(Method::Get, "http://", &[]), None), Some(Failure::Url));
    assert_eq!(
        failed(asked(Method::Get, "example.com", &["a=1"]), Some(text("x"))),
        Some(Failure::Conflict)
    );
    assert_eq!(failed(asked(Method::Get, "example.com", &["f@p"]), None), Some(Failure::Type));
    let mut form = asked(Method::Get, "example.com", &["a:=1"]);
    form.form = true;
    assert_eq!(failed(form, None), Some(Failure::Type));
}

#[test]
fn items_fail_before_the_address_and_the_address_before_the_body() {
    let both = asked(Method::Get, "http://", &["bad"]);
    assert_eq!(both.request(None).err(), Some(Failure::Parse));
    let later = asked(Method::Get, "http://", &["a=1"]);
    assert_eq!(later.request(Some(text("x"))).err(), Some(Failure::Url));
}

#[test]
fn invocation_decides_on_stdin_and_on_the_steps() {
    let mut invocation = asked(Method::Get, "example.com", &[]);
    assert!(invocation.reads_stdin(false));
    assert!(!invocation.reads_stdin(true));
    invocation.ignore_stdin = true;
    assert!(!invocation.reads_stdin(false));

    let plan = invocation.plan(false);
    assert!(plan.send && !plan.show_request_headers && !plan.show_response_headers);
    assert_eq!(plan.response_body, Some(Disposal::Show));
    assert!(invocation.plan(true).show_response_headers);
    invocation.verbose = true;
    invocation.offline = true;
    let plan = invocation.plan(false);
    assert!(plan.show_request_headers && plan.show_request_body && !plan.send);
    assert_eq!(plan.response_body, None);
    invocation.offline = false;
    invocation.download = true;
    invocation.print = Some(Print::new(false, false, false, false));
    let plan = invocation.plan(true);
    assert!(!plan.show_request_headers && !plan.show_response_headers);
    assert_eq!(plan.response_body, Some(Disposal::Save));
}

#[test]
fn every_failure_has_its_message() {
    assert_eq!(Failure::Parse.message(), "malformed request item");
    assert_eq!(
        Failure::Conflict.message(),
        "body from stdin and explicit data items cannot be mixed"
    );
    assert_eq!(Failure::Type.message(), "request item cannot be used with this kind of body");
    assert_eq!(Failure::Url.message(), "invalid URL");
    assert_eq!(Failure::Io.message(), "could not read input");
    assert_eq!(Failure::Json.message(), "malformed JSON literal");
    assert_eq!(Failure::Transport.message(), "the request could not be built or sent");
}

#[test]
fn method_has_its_name() {
    assert_eq!(Method::Get.name(), "GET");
    assert_eq!(Method::Head.name(), "HEAD");
    assert_eq!(Method::Post.name(), "POST");
    assert_eq!(Method::Put.name(), "PUT");
    assert_eq!(Method::Delete.name(), "DELETE");
    assert_eq!(Method::Connect.name(), "CONNECT");
    assert_eq!(Method::Options.name(), "OPTIONS");
    assert_eq!(Method::Trace.name(), "TRACE");
    assert_eq!(Method::Patch.name(), "PATCH");
}
