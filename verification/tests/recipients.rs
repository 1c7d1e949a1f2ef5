use devzen_bots::homeserver::{homeserver_url, url_of_account};
use devzen_bots::recipient::{parse_recipients, Recipient};

#[test]
fn a_user() {
    let r = Recipient::parse("@carl:example.com").unwrap();
    assert!(matches!(r, Recipient::User(id) if id == "@carl:example.com"));
}

#[test]
fn a_room() {
    let r = Recipient::parse("#room:example.com").unwrap();
    assert!(matches!(r, Recipient::RoomAlias(id) if id == "#room:example.com"));
}

#[test]
fn bad_recipients() {
    assert_eq!(
        Recipient::parse("@carl").unwrap_err(),
        "Invalid user ID '@carl': required colon is missing"
    );
    assert_eq!(
        Recipient::parse("#room:").unwrap_err(),
        "Invalid room alias '#room:': server name is not a valid IP address or domain name"
    );
    assert_eq!(
        Recipient::parse("carl:example.com").unwrap_err(),
        "Unknown recipient format 'carl:example.com': must start with @ or #"
    );
    assert_eq!(
        Recipient::parse("").unwrap_err(),
        "Unknown recipient format '': must start with @ or #"
    );
}

#[test]
fn a_copy_of_a_recipient() {
    let user = Recipient::parse("@user:server").unwrap();
    assert_eq!(user.clone().id(), "@user:server");
    assert!(matches!(user.clone(), Recipient::User(_)));
    let room = Recipient::parse("#alias:server").unwrap();
    assert_eq!(room.clone().id(), "#alias:server");
    assert!(matches!(room.clone(), Recipient::RoomAlias(_)));
}

#[test]
fn recipients_from_parsed_identifiers() {
    let ok = |s: &str| -> Result<String, String> { Ok(s.to_owned()) };
    let err = |s: &str| -> Result<String, String> { Err(s.to_owned()) };
    assert!(matches!(Recipient::from_user_id("a", ok("b")), Ok(Recipient::User(id)) if id == "b"));
    assert_eq!(Recipient::from_user_id("a", err("e")).unwrap_err(), "Invalid user ID 'a': e");
    assert!(matches!(Recipient::from_room_alias("a", ok("b")), Ok(Recipient::RoomAlias(id)) if id == "b"));
    assert_eq!(
        Recipient::from_room_alias("a", err("e")).unwrap_err(),
        "Invalid room alias 'a': e"
    );
}

#[test]
fn the_first_bad_recipient_is_reported() {
    let raw: Vec<String> = ["#a:b.c", "x", "@y"].iter().map(|s| s.to_string()).collect();
    assert_eq!(
        parse_recipients(&raw).unwrap_err(),
        "Unknown recipient format 'x': must start with @ or #"
    );
}

#[test]
fn recipients_keep_their_order() {
    let raw: Vec<String> = ["#a:b.c", "@d:e.f", "#g:h.i"].iter().map(|s| s.to_string()).collect();
    let list = parse_recipients(&raw).unwrap();
    let ids: Vec<&str> = list
        .iter()
        .map(|r| r.id())
        .collect();
    assert_eq!(ids, vec!["#a:b.c", "@d:e.f", "#g:h.i"]);
    assert!(parse_recipients(&Vec::new()).unwrap().is_empty());
}

#[test]
fn homeserver_of_an_account() {
    assert_eq!(homeserver_url("user ID", "@bot:matrix.org").unwrap(), "https://matrix.org");
    assert_eq!(
        homeserver_url("user ID", "@bot:localhost:8448").unwrap(),
        "https://localhost:8448"
    );
    assert_eq!(
        homeserver_url("Matrix user ID", "bot").unwrap_err(),
        "Invalid Matrix user ID 'bot': leading sigil is incorrect or missing"
    );
    assert_eq!(url_of_account("x", "y", Ok("z".to_owned())).unwrap(), "https://z");
    assert_eq!(
        url_of_account("user ID", "y", Err("e".to_owned())).unwrap_err(),
        "Invalid user ID 'y': e"
    );
}
