use outbound::print::{Disposal, Plan, Print};

#[test]
fn redirected_output_shows_the_response_body_alone() {
    assert_eq!(Print::resolve(None, false, false), Print::new(false, false, false, true));
}

#[test]
fn verbose_shows_everything() {
    assert_eq!(Print::resolve(None, true, false), Print::new(true, true, true, true));
    assert_eq!(Print::resolve(None, true, true), Print::new(true, true, true, true));
}

#[test]
fn terminal_shows_the_response() {
    assert_eq!(Print::resolve(None, false, true), Print::new(false, false, true, true));
}

#[test]
fn explicit_policy_wins() {
    for verbose in [false, true] {
        for terminal in [false, true] {
            let asked = Print::new(true, false, false, false);
            assert_eq!(Print::resolve(Some(asked), verbose, terminal), asked);
            let nothing = Print::new(false, false, false, false);
            assert_eq!(Print::resolve(Some(nothing), verbose, terminal), nothing);
        }
    }
}

#[test]
fn new_keeps_the_order_of_its_arguments() {
    let print = Print::new(true, false, true, false);
    assert!(print.request_headers);
    assert!(!print.request_body);
    assert!(print.response_headers);
    assert!(!print.response_body);
}

#[test]
fn offline_exchange_ends_before_sending() {
    assert_eq!(
        Print::new(true, true, true, true).plan(true, true),
        Plan {
            show_request_headers: true,
            show_request_body: true,
            send: false,
            show_response_headers: false,
            response_body: None,
        }
    );
}

#[test]
fn download_saves_in_place_of_showing() {
    let plan = Print::new(false, false, true, true).plan(false, true);
    assert!(plan.send);
    assert!(plan.show_response_headers);
    assert_eq!(plan.response_body, Some(Disposal::Save));
}

#[test]
fn body_is_shown_or_dropped() {
    assert_eq!(
        Print::new(false, false, false, true).plan(false, false).response_body,
        Some(Disposal::Show)
    );
    let quiet = Print::new(false, true, false, false).plan(false, false);
    assert_eq!(quiet.response_body, Some(Disposal::Drop));
    assert!(quiet.show_request_body);
    assert!(!quiet.show_request_headers);
    assert!(!quiet.show_response_headers);
}
