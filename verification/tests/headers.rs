use outbound::headers::Headers;
use outbound::items::RequestItems;

fn text(s: &str) -> String {
    s.to_string()
}

fn items(raw: &[&str]) -> RequestItems {
    let raw: Vec<String> = raw.iter().map(|s| s.to_string()).collect();
    RequestItems::parse(&raw).unwrap()
}

#[test]
fn later_header_overrides_earlier() {
    let (headers, unset) = items(&["a:1", "a:2"]).headers();
    assert_eq!(headers.get("a"), Some("2"));
    assert_eq!(headers.entries(), &vec![(text("a"), text("2"))]);
    assert!(unset.is_empty());
}

#[test]
fn override_ignores_the_case_of_the_name() {
    let (headers, _) = items(&["Accept:a", "X:1", "accept:b"]).headers();
    assert_eq!(headers.get("ACCEPT"), Some("b"));
    assert_eq!(headers.get("x"), Some("1"));
    assert_eq!(headers.entries().len(), 2);
}

#[test]
fn unset_removes_an_earlier_set() {
    let (headers, unset) = items(&["a:1", "b:2", "A:"]).headers();
    assert_eq!(headers.get("a"), None);
    assert_eq!(headers.get("b"), Some("2"));
    assert_eq!(unset, vec![text("A")]);
}

#[test]
fn set_behind_unset_is_kept_among_the_set_and_named_among_the_unset() {
    let (headers, unset) = items(&["a:", "a:1"]).headers();
    assert_eq!(headers.get("a"), Some("1"));
    assert_eq!(unset, vec![text("a")]);
}

#[test]
fn other_items_set_no_header() {
    let (headers, unset) = items(&["a=1", "b==2", "c:=3", "d@e"]).headers();
    assert!(headers.entries().is_empty());
    assert!(unset.is_empty());
}

#[test]
fn headers_hold_one_value_for_a_name() {
    let mut headers = Headers::new();
    assert!(!headers.contains("Accept"));
    assert_eq!(headers.get("Accept"), None);
    headers.insert("Accept", "*/*");
    headers.insert("Host", "example.com");
    headers.insert("accept", "text/plain");
    assert!(headers.contains("ACCEPT"));
    assert_eq!(headers.get("Accept"), Some("text/plain"));
    assert_eq!(headers.get("host"), Some("example.com"));
    assert_eq!(headers.entries().len(), 2);
    headers.remove("ACCEPT");
    assert!(!headers.contains("accept"));
    assert_eq!(headers.entries(), &vec![(text("Host"), text("example.com"))]);
    headers.remove("absent");
    assert_eq!(headers.entries().len(), 1);
}

#[test]
fn only_ascii_letters_lose_their_case() {
    let mut headers = Headers::new();
    headers.insert("É", "1");
    assert!(!headers.contains("é"));
    headers.insert("x-[", "2");
    assert!(!headers.contains("x-{"));
    headers.insert("x-@", "3");
    assert!(!headers.contains("x-`"));
    headers.insert("AZ", "4");
    assert_eq!(headers.get("az"), Some("4"));
}

#[test]
fn copy_holds_the_same_headers() {
    let mut headers = Headers::new();
    headers.insert("a", "1");
    let mut copy = headers.clone();
    assert_eq!(copy.get("A"), Some("1"));
    copy.insert("a", "2");
    assert_eq!(headers.get("a"), Some("1"));
}
