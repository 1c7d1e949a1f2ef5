use devzen_bots::delivery::{DeliveryAction, DeliveryEvent};
use devzen_bots::message::Report;
use devzen_bots::recipient::Recipient;
use devzen_bots::topics::rooms::{RoomsAction, RoomsEvent, RoomsStep};

fn error(text: &str) -> Option<String> {
    Some(text.to_owned())
}

fn user(id: &str) -> Recipient {
    Recipient::User(id.to_owned())
}

fn room(alias: &str) -> Recipient {
    Recipient::RoomAlias(alias.to_owned())
}

/// Which rooms are asked for, to which recipients the message goes, and what the
/// operator is told, where recipients are named by what fails.
fn run(list: &Vec<Recipient>, sync: Option<String>) -> (Vec<String>, Vec<String>, Vec<String>) {
    let mut asked: Vec<String> = Vec::new();
    let mut sent: Vec<String> = Vec::new();
    let mut told: Vec<String> = Vec::new();
    let mut events = 0;
    let mut step = RoomsStep::first();
    loop {
        for report in &step.reports {
            told.push(match report {
                Report::Note(t) => t.clone(),
                Report::Error(t) => t.clone(),
            });
        }
        let event = match step.action {
            RoomsAction::Sync => RoomsEvent::Synced { error: sync.clone() },
            RoomsAction::Finish => break,
            RoomsAction::Deliver { action } => RoomsEvent::Delivery {
                event: match action {
                    DeliveryAction::CreateRoom { user_id } => {
                        asked.push(user_id.clone());
                        if user_id.contains("create") {
                            DeliveryEvent::NotCreated { cause: "c".to_owned() }
                        } else {
                            DeliveryEvent::Created { room_id: format!("!{user_id}") }
                        }
                    }
                    DeliveryAction::FindRoom { room_id } => {
                        DeliveryEvent::Looked { found: !room_id.contains("find") }
                    }
                    DeliveryAction::JoinRoom { alias } => {
                        asked.push(alias.clone());
                        let failed = alias.contains("join");
                        DeliveryEvent::Joined { error: if failed { error("j") } else { None } }
                    }
                    DeliveryAction::Send => {
                        let to = asked.last().unwrap().clone();
                        let failed = to.contains("send");
                        sent.push(to);
                        DeliveryEvent::Sent { error: if failed { error("x") } else { None } }
                    }
                    DeliveryAction::Finish => unreachable!(),
                },
            },
        };
        events += 1;
        step = RoomsStep::next(step.state, event, list);
    }
    assert!(events <= 1 + 3 * list.len());
    (asked, sent, told)
}

#[test]
fn every_room_has_its_turn() {
    let list = vec![room("#join:s"), room("#send:s"), room("#r:s")];
    let (asked, sent, told) = run(&list, error("s"));
    assert_eq!(asked, vec!["#join:s", "#send:s", "#r:s"]);
    assert_eq!(sent, vec!["#send:s", "#r:s"]);
    assert_eq!(
        told,
        vec![
            "Matrix sync failed: s",
            "Failed to join room '#join:s': j",
            "Failed to send message to room '#send:s': x",
            "Sent to room '#r:s'",
        ]
    );
}

#[test]
fn every_user_has_their_turn() {
    let list =
        vec![user("@create:s"), user("@find:s"), room("#r:s"), user("@send:s"), user("@u:s")];
    let (asked, sent, told) = run(&list, None);
    assert_eq!(asked, vec!["@create:s", "@find:s", "#r:s", "@send:s", "@u:s"]);
    assert_eq!(sent, vec!["#r:s", "@send:s", "@u:s"]);
    assert_eq!(
        told,
        vec![
            "Failed to create DM room for '@create:s': c",
            "Room '!@find:s' not found after creation",
            "Sent to room '#r:s'",
            "Failed to send message to '@send:s': x",
            "Sent to user '@u:s'",
        ]
    );
}

#[test]
fn no_recipient_no_turn() {
    let step = RoomsStep::first();
    let step = RoomsStep::next(step.state, RoomsEvent::Synced { error: None }, &Vec::new());
    assert!(matches!(step.action, RoomsAction::Finish));
    assert!(step.reports.is_empty());
}
