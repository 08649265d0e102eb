use rexisce::util::xml::Element;
use rexisce::xmpp::modules::message_mutations::{MutationManager, NS_CORRECTION, NS_FASTEN, NS_REACTIONS, NS_RETRACTION};
use rexisce::xmpp::modules::NS_CLIENT;

fn child<'a>(e: &'a Element, name: &str) -> &'a Element {
    e.children().iter().find(|c| c.name() == name).expect("missing child")
}

fn plain(body: &str) -> Element {
    Element::new("message", NS_CLIENT)
        .with_attr("to", "alice@example.com")
        .with_attr("type", "chat")
        .with_child(Element::new("body", NS_CLIENT).with_text(body))
}

#[test]
fn build_reaction_has_reactions_namespace() {
    let mgr = MutationManager::new();
    let el = mgr.build_reaction("bob@example.com", "msg-001", &["👍"]);
    let reactions_el = child(&el, "reactions");
    assert_eq!(reactions_el.ns(), NS_REACTIONS);
    assert_eq!(reactions_el.attr("id"), Some("msg-001"));
}

#[test]
fn build_reaction_includes_emojis() {
    let mgr = MutationManager::new();
    let el = mgr.build_reaction("bob@example.com", "msg-002", &["👍", "❤️", "😂"]);
    let reactions_el = child(&el, "reactions");
    let collected: Vec<String> = reactions_el.children().iter().filter(|c| c.name() == "reaction").map(|c| c.text()).collect();
    assert_eq!(collected, vec!["👍", "❤️", "😂"]);
}

#[test]
fn build_reaction_empty_emojis_no_reaction_children() {
    let mgr = MutationManager::new();
    let el = mgr.build_reaction("bob@example.com", "msg-003", &[]);
    let reactions_el = child(&el, "reactions");
    let count = reactions_el.children().iter().filter(|c| c.name() == "reaction").count();
    assert_eq!(count, 0);
}

#[test]
fn parse_reaction_extracts_emojis_and_target_id() {
    let mgr = MutationManager::new();
    let built = mgr.build_reaction("alice@example.com", "msg-100", &["👍", "❤️"]);
    let update = mgr.parse_reaction("bob@example.com", &built).expect("must parse reaction");
    assert_eq!(update.target_id, "msg-100");
    assert_eq!(update.from_jid, "bob@example.com");
    assert_eq!(update.emojis, vec!["👍", "❤️"]);
}

#[test]
fn parse_reaction_returns_none_for_non_reaction_message() {
    let mgr = MutationManager::new();
    assert!(mgr.parse_reaction("bob@example.com", &plain("hello")).is_none());
}

#[test]
fn build_correction_has_replace_element() {
    let mgr = MutationManager::new();
    let el = mgr.build_correction("alice@example.com", "orig-555", "corrected text");
    let replace_el = child(&el, "replace");
    assert_eq!(replace_el.ns(), NS_CORRECTION);
    assert_eq!(replace_el.attr("id"), Some("orig-555"));
}

#[test]
fn parse_correction_extracts_target_and_body() {
    let mgr = MutationManager::new();
    let built = mgr.build_correction("alice@example.com", "orig-200", "the fixed body");
    let correction = mgr.parse_correction("carol@example.com", &built).expect("must parse correction");
    assert_eq!(correction.target_id, "orig-200");
    assert_eq!(correction.from_jid, "carol@example.com");
    assert_eq!(correction.new_body, "the fixed body");
}

#[test]
fn parse_correction_returns_none_without_replace() {
    let mgr = MutationManager::new();
    assert!(mgr.parse_correction("bob@example.com", &plain("just a message")).is_none());
}

#[test]
fn build_retraction_has_apply_to_element() {
    let mgr = MutationManager::new();
    let el = mgr.build_retraction("alice@example.com", "origin-888");
    let apply_to_el = el
        .children()
        .iter()
        .find(|c| c.name() == "apply-to" && c.ns() == NS_FASTEN)
        .expect("<apply-to> must exist");
    assert_eq!(apply_to_el.attr("id"), Some("origin-888"));
    let retract_el = apply_to_el
        .children()
        .iter()
        .find(|c| c.name() == "retract" && c.ns() == NS_RETRACTION)
        .expect("<retract> child must exist inside <apply-to>");
    assert_eq!(retract_el.ns(), NS_RETRACTION);
}

#[test]
fn parse_retraction_extracts_origin_id() {
    let mgr = MutationManager::new();
    let built = mgr.build_retraction("alice@example.com", "origin-999");
    let retraction = mgr.parse_retraction("dave@example.com", &built).expect("must parse retraction");
    assert_eq!(retraction.target_id, "origin-999");
    assert_eq!(retraction.from_jid, "dave@example.com");
}

#[test]
fn parse_retraction_returns_none_without_retract() {
    let mgr = MutationManager::new();
    assert!(mgr.parse_retraction("bob@example.com", &plain("normal")).is_none());
}

#[test]
fn build_retraction_has_no_body() {
    let mgr = MutationManager::new();
    let el = mgr.build_retraction("alice@example.com", "origin-777");
    assert!(el.children().iter().find(|c| c.name() == "body").is_none(), "retraction stanza must not carry a <body>");
}
