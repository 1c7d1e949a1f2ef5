use devzen_bots::message::Report;
use devzen_bots::topics::card::{
    bad_status, card_url, FetchAction, FetchEvent, FetchState, FetchStep, TrelloCard,
};

fn failed(state: FetchState, cause: &str) -> FetchStep {
    FetchStep::next(state, FetchEvent::Failed { cause: cause.to_owned() }, "c1")
}

#[test]
fn address_of_a_card() {
    assert_eq!(card_url("c1", "k", "t"), "https://api.trello.com/1/cards/c1?key=k&token=t");
}

#[test]
fn three_requests_and_no_more() {
    let first = FetchStep::first();
    assert!(matches!(first.action, FetchAction::Get));
    assert!(first.reports.is_empty());
    let second = failed(first.state, "one");
    assert!(matches!(second.action, FetchAction::Get));
    assert!(matches!(&second.reports[..], [Report::Error(t)] if t == "Attempt 1/3 failed for card 'c1': one"));
    let third = failed(second.state, "two");
    assert!(matches!(third.action, FetchAction::Get));
    let end = failed(third.state, "three");
    assert!(matches!(&end.reports[..], [Report::Error(t)] if t == "Attempt 3/3 failed for card 'c1': three"));
    assert!(matches!(end.state, FetchState::Done));
    assert!(matches!(end.action, FetchAction::Return { result: Err(e) } if e == "Request failed: three"));
}

#[test]
fn a_bad_status_is_final() {
    let step = FetchStep::next(FetchStep::first().state, FetchEvent::Responded { status: 404 }, "c1");
    assert!(matches!(step.action, FetchAction::Return { result: Err(e) } if e == "Trello API returned HTTP 404 Not Found"));
    let step = FetchStep::next(FetchStep::first().state, FetchEvent::Responded { status: 799 }, "c1");
    assert!(matches!(step.action, FetchAction::Return { result: Err(e) } if e == "Trello API returned HTTP 799 <unknown status code>"));
    assert_eq!(bad_status("503 x"), "Trello API returned HTTP 503 x");
}

#[test]
fn successes_are_read() {
    for (status, good) in [(199u16, false), (200, true), (299, true), (300, false)] {
        let step = FetchStep::next(FetchStep::first().state, FetchEvent::Responded { status }, "c1");
        assert_eq!(matches!(step.action, FetchAction::Read), good);
    }
}

#[test]
fn a_card_is_returned() {
    let card = TrelloCard { desc: "d".to_owned() };
    let step = FetchStep::next(FetchState::Reading, FetchEvent::Parsed { card }, "c1");
    assert!(matches!(step.action, FetchAction::Return { result: Ok(c) } if c.desc == "d"));
}

#[test]
fn a_body_that_is_no_card() {
    let event = FetchEvent::Unparsed { cause: "c".to_owned() };
    let step = FetchStep::next(FetchState::Reading, event, "c1");
    assert!(matches!(step.action, FetchAction::Return { result: Err(e) } if e == "Failed to parse card JSON: c"));
}
