use rexisce::util::xml::Element;
use rexisce::xmpp::modules::muc::{Affiliation, MucManager, Role};
use rexisce::xmpp::modules::{NS_CLIENT, NS_MUC, NS_MUC_USER, NS_X_CONFERENCE};

const ROOM_JID: &str = "general@conference.example.com";
const NICK: &str = "alice";

fn make_available_presence(room_jid: &str, nick: &str, role: &str, affiliation: &str) -> Element {
    let item = Element::new("item", NS_MUC_USER).with_attr("role", role).with_attr("affiliation", affiliation);
    let x = Element::new("x", NS_MUC_USER).with_child(item);
    Element::new("presence", NS_CLIENT).with_attr("from", format!("{}/{}", room_jid, nick).as_str()).with_child(x)
}

fn make_unavailable_presence(room_jid: &str, nick: &str) -> Element {
    Element::new("presence", NS_CLIENT).with_attr("from", format!("{}/{}", room_jid, nick).as_str()).with_attr("type", "unavailable")
}

fn make_groupchat_message(room_jid: &str, nick: &str, body: &str, id: &str) -> Element {
    let body_el = Element::new("body", NS_CLIENT).with_text(body);
    Element::new("message", NS_CLIENT)
        .with_attr("from", format!("{}/{}", room_jid, nick).as_str())
        .with_attr("type", "groupchat")
        .with_attr("id", id)
        .with_child(body_el)
}

#[test]
fn muc_manager_new_is_empty() {
    let mgr = MucManager::new();
    assert_eq!(mgr.room_count(), 0);
}

#[test]
fn join_room_builds_presence_stanza() {
    let mut mgr = MucManager::new();
    let el = mgr.join_room(ROOM_JID, NICK);
    assert_eq!(el.name(), "presence");
    let expected_to = format!("{}/{}", ROOM_JID, NICK);
    assert_eq!(el.attr("to"), Some(expected_to.as_str()));
    let x = el.children().iter().find(|c| c.name() == "x");
    assert!(x.is_some());
    assert_eq!(x.unwrap().ns(), NS_MUC);
}

#[test]
fn join_room_adds_room_to_manager() {
    let mut mgr = MucManager::new();
    mgr.join_room(ROOM_JID, NICK);
    assert!(mgr.room(ROOM_JID).is_some());
    assert_eq!(mgr.room(ROOM_JID).unwrap().nickname, NICK);
}

#[test]
fn leave_room_removes_room() {
    let mut mgr = MucManager::new();
    mgr.join_room(ROOM_JID, NICK);
    assert!(mgr.room(ROOM_JID).is_some());
    mgr.leave_room(ROOM_JID);
    assert!(mgr.room(ROOM_JID).is_none());
}

#[test]
fn leave_room_returns_unavailable_presence() {
    let mut mgr = MucManager::new();
    mgr.join_room(ROOM_JID, NICK);
    let el = mgr.leave_room(ROOM_JID).expect("should return presence");
    assert_eq!(el.name(), "presence");
    assert_eq!(el.attr("type"), Some("unavailable"));
    let expected_to = format!("{}/{}", ROOM_JID, NICK);
    assert_eq!(el.attr("to"), Some(expected_to.as_str()));
}

#[test]
fn on_presence_adds_occupant() {
    let mut mgr = MucManager::new();
    mgr.join_room(ROOM_JID, NICK);
    let presence = make_available_presence(ROOM_JID, "bob", "participant", "member");
    mgr.on_presence(&presence);
    let room = mgr.room(ROOM_JID).unwrap();
    assert!(room.occupants.contains_key("bob"));
    let occ = room.occupants.get("bob").unwrap();
    assert!(occ.available);
    assert_eq!(occ.role, Role::Participant);
    assert_eq!(occ.affiliation, Affiliation::Member);
}

#[test]
fn on_presence_unavailable_removes_occupant() {
    let mut mgr = MucManager::new();
    mgr.join_room(ROOM_JID, NICK);
    mgr.on_presence(&make_available_presence(ROOM_JID, "bob", "participant", "member"));
    assert!(mgr.room(ROOM_JID).unwrap().occupants.contains_key("bob"));
    mgr.on_presence(&make_unavailable_presence(ROOM_JID, "bob"));
    assert!(!mgr.room(ROOM_JID).unwrap().occupants.contains_key("bob"));
}

#[test]
fn rooms_map_contains_joined_rooms() {
    let mut mgr = MucManager::new();
    mgr.join_room(ROOM_JID, NICK);
    mgr.join_room("other@conference.example.com", "carol");
    assert_eq!(mgr.room(ROOM_JID).unwrap().jid, ROOM_JID);
    assert_eq!(mgr.room(ROOM_JID).unwrap().nickname, NICK);
    assert!(mgr.room("other@conference.example.com").is_some());
    assert!(mgr.room("nonexistent@conference.example.com").is_none());
}

#[test]
fn on_groupchat_message_parses_correctly() {
    let mgr = MucManager::new();
    let el = make_groupchat_message(ROOM_JID, "bob", "Hello, world!", "msg-001");
    let msg = mgr.on_groupchat_message(&el).expect("should parse message");
    assert_eq!(msg.room_jid, ROOM_JID);
    assert_eq!(msg.from_nick, "bob");
    assert_eq!(msg.body, "Hello, world!");
    assert_eq!(msg.id, "msg-001");
}

#[test]
fn groupchat_without_body_or_type_is_ignored() {
    let mgr = MucManager::new();
    let no_body = Element::new("message", NS_CLIENT).with_attr("from", "r@c/n").with_attr("type", "groupchat");
    assert!(mgr.on_groupchat_message(&no_body).is_none());
    let chat = make_groupchat_message(ROOM_JID, "bob", "hi", "1").with_attr("type", "chat");
    assert!(mgr.on_groupchat_message(&chat).is_none());
    let no_nick = Element::new("message", NS_CLIENT)
        .with_attr("from", ROOM_JID)
        .with_attr("type", "groupchat")
        .with_child(Element::new("body", NS_CLIENT).with_text("hi"));
    assert!(mgr.on_groupchat_message(&no_nick).is_none());
}

#[test]
fn groupchat_without_id_gets_fresh_one() {
    let mgr = MucManager::new();
    let el = Element::new("message", NS_CLIENT)
        .with_attr("from", "r@c/n")
        .with_attr("type", "groupchat")
        .with_child(Element::new("body", NS_CLIENT).with_text("hi"));
    let msg = mgr.on_groupchat_message(&el).unwrap();
    assert_eq!(msg.id.len(), 36);
}

#[test]
fn unknown_role_names_map_to_absent_values() {
    let mut mgr = MucManager::new();
    mgr.join_room(ROOM_JID, NICK);
    mgr.on_presence(&make_available_presence(ROOM_JID, "eve", "chief", "friend"));
    let room = mgr.room(ROOM_JID).unwrap();
    let occ = room.occupants.get("eve").unwrap();
    assert_eq!(occ.role, Role::NoRole);
    assert_eq!(occ.affiliation, Affiliation::NoAffiliation);
    assert_eq!(Role::from_str("moderator"), Role::Moderator);
    assert_eq!(Affiliation::from_str("owner"), Affiliation::Owner);
}

#[test]
fn presence_for_unjoined_room_changes_nothing() {
    let mut mgr = MucManager::new();
    mgr.on_presence(&make_available_presence("x@c", "bob", "participant", "member"));
    assert_eq!(mgr.room_count(), 0);
}

#[test]
fn invitation_includes_non_empty_reason() {
    let with = MucManager::build_invitation(ROOM_JID, "bob@example.com", Some("come"));
    assert_eq!(with.attr("to"), Some("bob@example.com"));
    let x = with.get_child("x", NS_X_CONFERENCE).unwrap();
    assert_eq!(x.attr("jid"), Some(ROOM_JID));
    assert_eq!(x.get_child("reason", NS_CLIENT).unwrap().text(), "come");
    let empty = MucManager::build_invitation(ROOM_JID, "bob@example.com", Some(""));
    assert!(empty.get_child("x", NS_X_CONFERENCE).unwrap().get_child("reason", NS_CLIENT).is_none());
}
