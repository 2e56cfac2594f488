use lswinusb::strings::StringAction;
use lswinusb::strings::StringEvent;
use lswinusb::strings::StringResolver;

#[test]
fn zero_index_resolves_to_nothing_without_requests() {
    let r = StringResolver::start(0, 0x0409);
    assert_eq!(r.requests_made, 0);
    assert!(matches!(r.next_action(), StringAction::Finished));
    assert_eq!(r.take_result(), None);
}

#[test]
fn preferred_language_success_ends_after_one_request() {
    let r = StringResolver::start(1, 0x0407);
    assert!(matches!(r.next_action(), StringAction::RequestText(0x0407)));
    let r = r.step(StringEvent::Text(Some("Hersteller".to_string())));
    assert!(matches!(r.next_action(), StringAction::Finished));
    assert_eq!(r.requests_made, 1);
    assert_eq!(r.take_result(), Some("Hersteller".to_string()));
}

#[test]
fn listed_language_beats_the_fallback() {
    let r = StringResolver::start(2, 0x0407);
    let r = r.step(StringEvent::Text(None));
    assert!(matches!(r.next_action(), StringAction::RequestLanguages));
    let r = r.step(StringEvent::Languages(Some(0x0416)));
    assert!(matches!(r.next_action(), StringAction::RequestText(0x0416)));
    let r = r.step(StringEvent::Text(Some("produto".to_string())));
    assert_eq!(r.requests_made, 3);
    assert_eq!(r.take_result(), Some("produto".to_string()));
}

#[test]
fn missing_language_list_ends_resolution() {
    let r = StringResolver::start(3, 0x0407);
    let r = r.step(StringEvent::Text(None));
    let r = r.step(StringEvent::Languages(None));
    assert!(matches!(r.next_action(), StringAction::Finished));
    assert_eq!(r.requests_made, 2);
    assert_eq!(r.take_result(), None);
}

#[test]
fn fallback_round_is_exactly_the_fourth_request() {
    // The preferred-language round fails, the language list names 0x0407,
    // the retry at 0x0407 fails too, and US English finally answers.
    let r = StringResolver::start(2, 0x0413);
    assert!(matches!(r.next_action(), StringAction::RequestText(0x0413)));
    let r = r.step(StringEvent::Text(None));
    assert!(matches!(r.next_action(), StringAction::RequestLanguages));
    let r = r.step(StringEvent::Languages(Some(0x0407)));
    assert!(matches!(r.next_action(), StringAction::RequestText(0x0407)));
    let r = r.step(StringEvent::Text(None));
    assert!(matches!(r.next_action(), StringAction::RequestText(0x0409)));
    let r = r.step(StringEvent::Text(Some("Flash Drive".to_string())));
    assert!(matches!(r.next_action(), StringAction::Finished));
    assert_eq!(r.requests_made, 4);
    assert_eq!(r.take_result(), Some("Flash Drive".to_string()));
}

#[test]
fn failed_fallback_resolves_to_nothing_after_four_requests() {
    let r = StringResolver::start(1, 0x040c);
    let r = r.step(StringEvent::Text(None));
    let r = r.step(StringEvent::Languages(Some(0x0411)));
    let r = r.step(StringEvent::Text(None));
    let r = r.step(StringEvent::Text(None));
    assert_eq!(r.requests_made, 4);
    assert_eq!(r.take_result(), None);
}
