use rexisce::util::xml::Element;
use rexisce::xmpp::modules::muc_admin::{AffiliationAction, MucAdminManager};
use rexisce::xmpp::modules::NS_MUC_ADMIN;

fn item_of(iq: &Element) -> &Element {
    iq.get_child("query", NS_MUC_ADMIN).and_then(|q| q.get_child("item", NS_MUC_ADMIN)).expect("<item> must exist")
}

#[test]
fn affiliation_grant_member_sets_correct_affiliation() {
    let mut mgr = MucAdminManager::new();
    let (id, iq) = mgr.build_affiliation_query("room@conference.example.com", AffiliationAction::GrantMember("alice@example.com".to_string()));
    assert!(!id.is_empty());
    assert_eq!(iq.attr("type"), Some("set"));
    assert_eq!(iq.attr("to"), Some("room@conference.example.com"));
    let query = iq.get_child("query", NS_MUC_ADMIN).expect("<query> must exist");
    let item = query.get_child("item", NS_MUC_ADMIN).expect("<item> must exist");
    assert_eq!(item.attr("affiliation"), Some("member"));
    assert_eq!(item.attr("jid"), Some("alice@example.com"));
}

#[test]
fn affiliation_ban_sets_outcast() {
    let mut mgr = MucAdminManager::new();
    let (_id, iq) = mgr.build_affiliation_query("room@conference.example.com", AffiliationAction::Ban("troll@example.com".to_string()));
    let item = item_of(&iq);
    assert_eq!(item.attr("affiliation"), Some("outcast"));
    assert_eq!(item.attr("jid"), Some("troll@example.com"));
}

#[test]
fn affiliation_revoke_sets_none() {
    let mut mgr = MucAdminManager::new();
    let (_id, iq) =
        mgr.build_affiliation_query("room@conference.example.com", AffiliationAction::RevokeMembership("bob@example.com".to_string()));
    let item = item_of(&iq);
    assert_eq!(item.attr("affiliation"), Some("none"));
    assert_eq!(item.attr("jid"), Some("bob@example.com"));
}

#[test]
fn role_query_moderator_uses_nick() {
    let mut mgr = MucAdminManager::new();
    let (id, iq) = mgr.build_role_query("room@conference.example.com", "Alice", "moderator");
    assert!(!id.is_empty());
    assert_eq!(iq.attr("type"), Some("set"));
    let item = item_of(&iq);
    assert_eq!(item.attr("nick"), Some("Alice"));
    assert_eq!(item.attr("role"), Some("moderator"));
    assert!(item.attr("jid").is_none());
}

#[test]
fn role_query_kick_sets_role_none() {
    let mut mgr = MucAdminManager::new();
    let (_id, iq) = mgr.build_role_query("room@conference.example.com", "Troublemaker", "none");
    let item = item_of(&iq);
    assert_eq!(item.attr("nick"), Some("Troublemaker"));
    assert_eq!(item.attr("role"), Some("none"));
}

#[test]
fn affiliation_query_ids_are_unique() {
    let mut mgr = MucAdminManager::new();
    let (id1, _) = mgr.build_affiliation_query("room@conference.example.com", AffiliationAction::GrantMember("a@example.com".to_string()));
    let (id2, _) = mgr.build_affiliation_query("room@conference.example.com", AffiliationAction::GrantMember("b@example.com".to_string()));
    assert_ne!(id1, id2);
}

#[test]
fn affiliation_unban_and_admin_variants() {
    let mut mgr = MucAdminManager::new();
    let (_id, iq) = mgr.build_affiliation_query("room@conference.example.com", AffiliationAction::Unban("x@example.com".to_string()));
    assert_eq!(item_of(&iq).attr("affiliation"), Some("none"));
    let (_id, iq) = mgr.build_affiliation_query("room@conference.example.com", AffiliationAction::GrantAdmin("y@example.com".to_string()));
    assert_eq!(item_of(&iq).attr("affiliation"), Some("admin"));
    let (_id, iq) = mgr.build_affiliation_query("room@conference.example.com", AffiliationAction::GrantOwner("z@example.com".to_string()));
    assert_eq!(item_of(&iq).attr("affiliation"), Some("owner"));
}
