use karabiner::state::{Event, State, FREE, INIT, WAIT};

#[test]
fn marker_codes_are_zero_one_two() {
    assert_eq!(INIT, 0);
    assert_eq!(WAIT, 1);
    assert_eq!(FREE, 2);
}

#[test]
fn state_dereferences_to_its_code() {
    assert_eq!(*State(INIT), 0);
    assert_eq!(*State(WAIT), 1);
    assert_eq!(*State(FREE), 2);
}

#[test]
fn claim_moves_only_an_untouched_marker() {
    assert_eq!(State(INIT).after(Event::Claim), State(WAIT));
    assert_eq!(State(WAIT).after(Event::Claim), State(WAIT));
    assert_eq!(State(FREE).after(Event::Claim), State(FREE));
}

#[test]
fn settle_moves_only_an_untouched_marker() {
    assert_eq!(State(INIT).after(Event::Settle), State(FREE));
    assert_eq!(State(WAIT).after(Event::Settle), State(WAIT));
    assert_eq!(State(FREE).after(Event::Settle), State(FREE));
}

#[test]
fn release_always_ends_in_free() {
    assert_eq!(State(INIT).after(Event::Release), State(FREE));
    assert_eq!(State(WAIT).after(Event::Release), State(FREE));
    assert_eq!(State(FREE).after(Event::Release), State(FREE));
}

#[test]
fn only_an_untouched_marker_admits_a_claim() {
    assert!(State(INIT).admits_claim());
    assert!(!State(WAIT).admits_claim());
    assert!(!State(FREE).admits_claim());
}

#[test]
fn only_wait_counts_as_claimed() {
    assert!(!State(INIT).is_claimed());
    assert!(State(WAIT).is_claimed());
    assert!(!State(FREE).is_claimed());
}

#[test]
fn no_event_moves_the_marker_back() {
    let events = [Event::Claim, Event::Settle, Event::Release];
    for code in [INIT, WAIT, FREE] {
        for event in events {
            assert!(*State(code).after(event) >= code);
        }
    }
}

#[test]
fn a_race_of_claims_has_one_winner() {
    let mut marker = State(INIT);
    let mut winners = 0;
    for _ in 0..16 {
        if marker.admits_claim() {
            winners += 1;
        }
        marker = marker.after(Event::Claim);
    }
    assert_eq!(winners, 1);
    assert_eq!(marker, State(WAIT));
}
