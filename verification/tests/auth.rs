use outbound::auth::{Auth, AuthType};

fn text(s: &str) -> String {
    s.to_string()
}

#[test]
fn credentials_are_basic_where_no_kind_is_named() {
    assert_eq!(
        Auth::new(Some(text("alice:secret")), None),
        Some(Auth::Basic(text("alice"), text("secret")))
    );
}

#[test]
fn bearer_takes_the_whole_text() {
    assert_eq!(
        Auth::new(Some(text("tok123")), Some(AuthType::Bearer)),
        Some(Auth::Bearer(text("tok123")))
    );
    assert_eq!(
        Auth::new(Some(text("a:b")), Some(AuthType::Bearer)),
        Some(Auth::Bearer(text("a:b")))
    );
}

#[test]
fn basic_splits_at_the_first_colon() {
    let basic = Some(AuthType::Basic);
    assert_eq!(Auth::new(Some(text("a:b:c")), basic), Some(Auth::Basic(text("a"), text("b:c"))));
    assert_eq!(Auth::new(Some(text("alice")), basic), Some(Auth::Basic(text("alice"), text(""))));
    assert_eq!(Auth::new(Some(text("alice:")), basic), Some(Auth::Basic(text("alice"), text(""))));
    assert_eq!(Auth::new(Some(text(":pw")), basic), Some(Auth::Basic(text(""), text("pw"))));
    assert_eq!(Auth::new(Some(text("")), basic), Some(Auth::Basic(text(""), text(""))));
    assert_eq!(Auth::new(Some(text("ü:ß")), None), Some(Auth::Basic(text("ü"), text("ß"))));
}

#[test]
fn without_credentials_there_is_no_auth() {
    assert_eq!(Auth::new(None, None), None);
    assert_eq!(Auth::new(None, Some(AuthType::Basic)), None);
    assert_eq!(Auth::new(None, Some(AuthType::Bearer)), None);
}
