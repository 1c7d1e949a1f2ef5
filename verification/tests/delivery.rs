use devzen_bots::delivery::{DeliveryAction, DeliveryEvent, DeliveryState, DeliveryStep};
use devzen_bots::feed::announcement::feed_message;
use devzen_bots::feed::items::FeedItem;
use devzen_bots::message::Report;
use devzen_bots::recipient::Recipient;

fn user() -> Recipient {
    Recipient::User("@u:s".to_owned())
}

fn room() -> Recipient {
    Recipient::RoomAlias("#r:s".to_owned())
}

fn told(step: &DeliveryStep) -> String {
    assert!(matches!(step.action, DeliveryAction::Finish));
    assert!(matches!(step.state, DeliveryState::Done));
    match &step.reports[..] {
        [Report::Note(t)] => format!("note: {t}"),
        [Report::Error(t)] => format!("error: {t}"),
        _ => panic!("one report"),
    }
}

#[test]
fn message_about_an_episode() {
    let item = FeedItem {
        url: "https://d/1".to_owned(),
        title: "Ep".to_owned(),
        content: "<p>x</p>".to_owned(),
    };
    let message = feed_message(&item);
    assert_eq!(message.plain, "Ep https://d/1");
    assert_eq!(
        message.html,
        "<p><strong>Ep</strong> <a href=\"https://d/1\">https://d/1</a></p>\n<p>x</p>"
    );
}

#[test]
fn a_user_is_invited() {
    let step = DeliveryStep::first(&user());
    assert!(matches!(&step.action, DeliveryAction::CreateRoom { user_id } if user_id == "@u:s"));
    let event = DeliveryEvent::Created { room_id: "!x:s".to_owned() };
    let step = DeliveryStep::next(step.state, event, &user(), Some("Ep"));
    assert!(matches!(&step.action, DeliveryAction::FindRoom { room_id } if room_id == "!x:s"));
    let step = DeliveryStep::next(step.state, DeliveryEvent::Looked { found: true }, &user(), Some("Ep"));
    assert!(matches!(step.action, DeliveryAction::Send));
    let step = DeliveryStep::next(step.state, DeliveryEvent::Sent { error: None }, &user(), Some("Ep"));
    assert_eq!(told(&step), "note: Sent item 'Ep' to user '@u:s'");
}

#[test]
fn a_user_who_cannot_be_reached() {
    let event = DeliveryEvent::NotCreated { cause: "c".to_owned() };
    let step = DeliveryStep::next(DeliveryState::Creating, event, &user(), Some("Ep"));
    assert_eq!(told(&step), "error: Failed to create DM room for '@u:s': c");
    let state = DeliveryState::Finding { room_id: "!x:s".to_owned() };
    let step = DeliveryStep::next(state, DeliveryEvent::Looked { found: false }, &user(), Some("Ep"));
    assert_eq!(told(&step), "error: Room '!x:s' not found after creation");
    let event = DeliveryEvent::Sent { error: Some("c".to_owned()) };
    let step = DeliveryStep::next(DeliveryState::Sending, event, &user(), Some("Ep"));
    assert_eq!(told(&step), "error: Failed to send message to '@u:s': c");
}

#[test]
fn a_room_is_joined() {
    let step = DeliveryStep::first(&room());
    assert!(matches!(&step.action, DeliveryAction::JoinRoom { alias } if alias == "#r:s"));
    let step = DeliveryStep::next(step.state, DeliveryEvent::Joined { error: None }, &room(), Some("Ep"));
    assert!(matches!(step.action, DeliveryAction::Send));
    let step = DeliveryStep::next(step.state, DeliveryEvent::Sent { error: None }, &room(), Some("Ep"));
    assert_eq!(told(&step), "note: Sent item 'Ep' to room '#r:s'");
}

#[test]
fn a_room_that_cannot_be_reached() {
    let event = DeliveryEvent::Joined { error: Some("c".to_owned()) };
    let step = DeliveryStep::next(DeliveryState::Joining, event, &room(), Some("Ep"));
    assert_eq!(told(&step), "error: Failed to join room '#r:s': c");
    let event = DeliveryEvent::Sent { error: Some("c".to_owned()) };
    let step = DeliveryStep::next(DeliveryState::Sending, event, &room(), Some("Ep"));
    assert_eq!(told(&step), "error: Failed to send message to room '#r:s': c");
}

#[test]
fn a_message_about_no_item() {
    let sent = || DeliveryEvent::Sent { error: None };
    let step = DeliveryStep::next(DeliveryState::Sending, sent(), &user(), None);
    assert_eq!(told(&step), "note: Sent to user '@u:s'");
    let step = DeliveryStep::next(DeliveryState::Sending, sent(), &room(), None);
    assert_eq!(told(&step), "note: Sent to room '#r:s'");
}
