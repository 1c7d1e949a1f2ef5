use devzen_bots::message::Report;
use devzen_bots::topics::announcement::{topic_message, topic_reports};
use devzen_bots::topics::card::TrelloCard;
use devzen_bots::topics::hook::{
    moved_to_list, not_an_event, HookAction, HookEvent, HookState, HookStep, Status, TrelloAction,
    TrelloActionData, TrelloCardRef, TrelloList, TrelloWebhookEvent,
};
use devzen_bots::topics::listen::{address_error, listen_address};

fn event(action_type: &str, list_after: Option<&str>) -> TrelloWebhookEvent {
    TrelloWebhookEvent {
        action: TrelloAction {
            action_type: action_type.to_owned(),
            data: TrelloActionData {
                card: TrelloCardRef { id: "c1".to_owned(), name: "Topic".to_owned() },
                list_after: list_after.map(|id| TrelloList { id: id.to_owned() }),
            },
        },
    }
}

fn request(method: &str) -> HookStep {
    HookStep::next(HookState::Arrived, HookEvent::Request { method: method.to_owned() }, "list")
}

fn texts(reports: &[Report]) -> Vec<String> {
    reports
        .iter()
        .map(|r| match r {
            Report::Note(t) => format!("note: {t}"),
            Report::Error(t) => format!("error: {t}"),
        })
        .collect()
}

#[test]
fn tests_of_the_address_are_answered() {
    for method in ["GET", "HEAD"] {
        let step = request(method);
        assert!(matches!(step.action, HookAction::Answer { status: Status::Success }));
        assert!(step.reports.is_empty());
    }
    assert_eq!(Status::Success.code(), 200);
}

#[test]
fn other_methods_are_refused() {
    for method in ["PUT", "DELETE", "get", "", "OPTIONS"] {
        let step = request(method);
        assert!(matches!(step.action, HookAction::Answer { status: Status::MethodNotAllowed }));
    }
    assert_eq!(Status::MethodNotAllowed.code(), 405);
}

#[test]
fn a_post_is_read() {
    let step = request("POST");
    assert!(matches!(step.action, HookAction::ReadEvent));
    assert!(matches!(step.state, HookState::Reading));
}

#[test]
fn a_body_that_is_no_event() {
    let step = HookStep::next(
        HookState::Reading,
        HookEvent::Unparsed { cause: "c".to_owned(), body: b"a\xffb".to_vec() },
        "list",
    );
    assert!(matches!(step.action, HookAction::Answer { status: Status::Success }));
    assert_eq!(
        texts(&step.reports),
        vec!["error: Failed to parse webhook JSON: c", "error: Raw body: a\u{fffd}b"]
    );
    assert_eq!(
        texts(&not_an_event("c", "t")),
        vec!["error: Failed to parse webhook JSON: c", "error: Raw body: t"]
    );
}

#[test]
fn only_moves_to_the_list_are_followed() {
    assert!(moved_to_list(&event("updateCard", Some("list")), "list"));
    assert!(!moved_to_list(&event("updateCard", Some("other")), "list"));
    assert!(!moved_to_list(&event("updateCard", None), "list"));
    assert!(!moved_to_list(&event("createCard", Some("list")), "list"));
    let step = HookStep::next(
        HookState::Reading,
        HookEvent::Parsed { event: event("updateCard", None) },
        "list",
    );
    assert!(matches!(step.action, HookAction::Answer { status: Status::Success }));
}

#[test]
fn a_moved_card_is_fetched_and_announced() {
    let step = HookStep::next(
        HookState::Reading,
        HookEvent::Parsed { event: event("updateCard", Some("list")) },
        "list",
    );
    assert!(matches!(&step.action, HookAction::FetchCard { card_id } if card_id == "c1"));
    let card = TrelloCard { desc: "about http://a.io and http://b.io.".to_owned() };
    let step = HookStep::next(step.state, HookEvent::Fetched { card }, "list");
    assert_eq!(
        texts(&step.reports),
        vec!["note: Topic", "note: * http://a.io", "note: * http://b.io."]
    );
    match step.action {
        HookAction::Send { message } => {
            assert_eq!(message.plain, "Topic\n* http://a.io\n* http://b.io.");
        }
        _ => panic!("the message is to be sent"),
    }
    let step = HookStep::next(step.state, HookEvent::Sent, "list");
    assert!(matches!(step.action, HookAction::Answer { status: Status::Success }));
    assert!(matches!(step.state, HookState::Answered));
}

#[test]
fn a_card_that_cannot_be_fetched() {
    let state = HookState::Fetching { card_id: "c1".to_owned(), title: "Topic".to_owned() };
    let step = HookStep::next(state, HookEvent::NotFetched { cause: "e".to_owned() }, "list");
    assert!(matches!(step.action, HookAction::Answer { status: Status::Success }));
    assert_eq!(texts(&step.reports), vec!["error: Failed to fetch card 'c1': e"]);
}

#[test]
fn message_with_addresses() {
    let urls = vec!["http://a".to_owned(), "https://b".to_owned()];
    let message = topic_message("T", &urls);
    assert_eq!(message.plain, "T\n* http://a\n* https://b");
    assert_eq!(
        message.html,
        "<p>T</p>\n<ul>\n<li><a href=\"http://a\">http://a</a></li>\n<li><a href=\"https://b\">https://b</a></li>\n</ul>"
    );
    assert_eq!(message.plain.split('\n').count(), 3);
}

#[test]
fn message_without_addresses() {
    let message = topic_message("T", &Vec::new());
    assert_eq!(message.plain, "T");
    assert_eq!(message.html, "<p>T</p>");
    assert_eq!(texts(&topic_reports("T", &Vec::new())), vec!["note: T"]);
}

#[test]
fn where_to_listen() {
    assert_eq!(listen_address(&None, None), "127.0.0.1:3000");
    assert_eq!(listen_address(&Some("0.0.0.0".to_owned()), Some(65535)), "0.0.0.0:65535");
    assert_eq!(listen_address(&None, Some(0)), "127.0.0.1:0");
    assert_eq!(address_error("x:1", "e"), "Invalid host/port 'x:1': e");
}
