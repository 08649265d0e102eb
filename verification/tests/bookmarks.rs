use rexisce::util::xml::Element;
use rexisce::xmpp::modules::bookmarks::{Bookmark, BookmarkManager, NS_BOOKMARKS, NS_PRIVATE};

#[test]
fn parse_bookmarks_from_iq_parses_conference() {
    let mut storage = Element::new("storage", NS_BOOKMARKS);
    let mut conf1 = Element::new("conference", NS_BOOKMARKS)
        .with_attr("jid", "room1@server")
        .with_attr("name", "Room One")
        .with_attr("autojoin", "true");
    let mut nick_el = Element::new("nick", NS_BOOKMARKS);
    nick_el.push_text("Alice");
    conf1.push_child(nick_el);
    storage.push_child(conf1);
    storage.push_child(Element::new("conference", NS_BOOKMARKS).with_attr("jid", "room2@server").with_attr("autojoin", "1"));
    storage.push_child(Element::new("conference", NS_BOOKMARKS).with_attr("jid", "room3@server"));

    let bookmarks = BookmarkManager::parse_bookmarks_from_iq(&storage);
    assert_eq!(bookmarks.len(), 3);
    let b1 = &bookmarks[0];
    assert_eq!(b1.jid, "room1@server");
    assert_eq!(b1.name, Some("Room One".to_string()));
    assert!(b1.autojoin);
    assert_eq!(b1.nick, Some("Alice".to_string()));
    let b2 = &bookmarks[1];
    assert_eq!(b2.jid, "room2@server");
    assert!(b2.autojoin, "autojoin='1' should parse as true");
    let b3 = &bookmarks[2];
    assert_eq!(b3.jid, "room3@server");
    assert!(!b3.autojoin);
    assert!(b3.nick.is_none());
}

#[test]
fn parse_bookmarks_from_iq_accepts_full_iq_wrapper() {
    let conf = Element::new("conference", NS_BOOKMARKS)
        .with_attr("jid", "wrapped@conference.example.com")
        .with_attr("autojoin", "true");
    let storage = Element::new("storage", NS_BOOKMARKS).with_child(conf);
    let query = Element::new("query", NS_PRIVATE).with_child(storage);
    let iq = Element::new("iq", "jabber:client").with_attr("type", "result").with_attr("id", "bm-get-1").with_child(query);
    let bookmarks = BookmarkManager::parse_bookmarks_from_iq(&iq);
    assert_eq!(bookmarks.len(), 1);
    assert_eq!(bookmarks[0].jid, "wrapped@conference.example.com");
    assert!(bookmarks[0].autojoin);
}

#[test]
fn build_fetch_iq_has_correct_structure() {
    let mgr = BookmarkManager::new();
    let iq = mgr.build_fetch_iq("bm-fetch-test");
    assert_eq!(iq.name(), "iq");
    assert_eq!(iq.attr("type"), Some("get"));
    assert_eq!(iq.attr("id"), Some("bm-fetch-test"));
    let query = iq.get_child("query", NS_PRIVATE).expect("<query> must exist");
    let storage = query.get_child("storage", NS_BOOKMARKS).expect("<storage> must exist");
    assert_eq!(storage.ns(), NS_BOOKMARKS);
}

#[test]
fn build_save_iq_serialises_bookmarks() {
    let mut mgr = BookmarkManager::new();
    mgr.set_bookmarks(vec![
        Bookmark {
            jid: "dev@conference.example.com".to_string(),
            name: Some("Dev Room".to_string()),
            autojoin: true,
            nick: Some("Alice".to_string()),
            password: None,
        },
        Bookmark {
            jid: "lurk@conference.example.com".to_string(),
            name: None,
            autojoin: false,
            nick: None,
            password: None,
        },
    ]);
    let iq = mgr.build_save_iq("bm-save-1");
    assert_eq!(iq.attr("type"), Some("set"));
    assert_eq!(iq.attr("id"), Some("bm-save-1"));
    let storage = iq
        .get_child("query", NS_PRIVATE)
        .and_then(|q| q.get_child("storage", NS_BOOKMARKS))
        .expect("<storage> must exist");
    let confs: Vec<&Element> = storage.children().iter().filter(|c| c.name() == "conference").collect();
    assert_eq!(confs.len(), 2);
    assert_eq!(confs[0].attr("jid"), Some("dev@conference.example.com"));
    assert_eq!(confs[0].attr("name"), Some("Dev Room"));
    assert_eq!(confs[0].attr("autojoin"), Some("true"));
    assert_eq!(confs[0].get_child("nick", NS_BOOKMARKS).map(|n| n.text()).as_deref(), Some("Alice"));
    assert_eq!(confs[1].attr("jid"), Some("lurk@conference.example.com"));
    assert_eq!(confs[1].attr("autojoin"), Some("false"));
    assert!(confs[1].get_child("nick", NS_BOOKMARKS).is_none());
}

#[test]
fn save_iq_roundtrips_through_parse() {
    let original = vec![
        Bookmark {
            jid: "alpha@conference.example.com".to_string(),
            name: Some("Alpha".to_string()),
            autojoin: true,
            nick: Some("Bot".to_string()),
            password: Some("secret".to_string()),
        },
        Bookmark {
            jid: "beta@conference.example.com".to_string(),
            name: None,
            autojoin: false,
            nick: None,
            password: None,
        },
    ];
    let mut mgr = BookmarkManager::new();
    mgr.set_bookmarks(original.clone());
    let iq = mgr.build_save_iq("rt-1");
    let parsed = BookmarkManager::parse_bookmarks_from_iq(&iq);
    assert_eq!(parsed.len(), 2);
    assert_eq!(parsed[0].jid, original[0].jid);
    assert_eq!(parsed[0].name, original[0].name);
    assert_eq!(parsed[0].autojoin, original[0].autojoin);
    assert_eq!(parsed[0].nick, original[0].nick);
    assert_eq!(parsed[0].password, original[0].password);
    assert_eq!(parsed[1].jid, original[1].jid);
    assert!(!parsed[1].autojoin);
}
