use rexisce::util::xml::Element;
use rexisce::xmpp::modules::adhoc::{AdhocManager, CommandStatus, NS_ADHOC};
use rexisce::xmpp::modules::{NS_CLIENT, NS_DATA};

fn child<'a>(e: &'a Element, name: &str) -> &'a Element {
    e.children().iter().find(|c| c.name() == name).expect("missing child")
}

fn result_iq(id: &str, command: Element) -> Element {
    Element::new("iq", NS_CLIENT).with_attr("type", "result").with_attr("id", id).with_child(command)
}

#[test]
fn build_execute_registers_pending() {
    let mut mgr = AdhocManager::new();
    let (id, _el) = mgr.build_execute("admin.example.org", "list-commands");
    assert!(!id.is_empty());
    assert_eq!(mgr.pending_node(&id), Some("list-commands"));
}

#[test]
fn build_execute_has_action_execute() {
    let mut mgr = AdhocManager::new();
    let (_id, el) = mgr.build_execute("admin.example.org", "change-user-password");
    assert_eq!(el.attr("type"), Some("set"));
    let cmd = child(&el, "command");
    assert_eq!(cmd.ns(), NS_ADHOC);
    assert_eq!(cmd.attr("action"), Some("execute"));
    assert_eq!(cmd.attr("node"), Some("change-user-password"));
}

#[test]
fn build_cancel_has_action_cancel() {
    let mut mgr = AdhocManager::new();
    let (_id, el) = mgr.build_cancel("admin.example.org", "change-user-password", "session-42");
    let cmd = child(&el, "command");
    assert_eq!(cmd.attr("action"), Some("cancel"));
    assert_eq!(cmd.attr("sessionid"), Some("session-42"));
}

#[test]
fn on_result_parses_status_completed() {
    let mut mgr = AdhocManager::new();
    let (id, _) = mgr.build_execute("admin.example.org", "announce");
    let command = Element::new("command", NS_ADHOC)
        .with_attr("node", "announce")
        .with_attr("sessionid", "sess-1")
        .with_attr("status", "completed");
    let resp = mgr.on_result(&result_iq(&id, command)).expect("expected a response");
    assert_eq!(resp.status, CommandStatus::Completed);
    assert_eq!(resp.node, "announce");
    assert_eq!(resp.session_id, "sess-1");
}

#[test]
fn on_result_parses_fields() {
    let mut mgr = AdhocManager::new();
    let (id, _) = mgr.build_execute("admin.example.org", "get-user-info");
    let value_el = Element::new("value", NS_DATA).with_text("alice");
    let option_value = Element::new("value", NS_DATA).with_text("a");
    let option_el = Element::new("option", NS_DATA).with_attr("label", "Option A").with_child(option_value);
    let field_el = Element::new("field", NS_DATA)
        .with_attr("var", "username")
        .with_attr("type", "text-single")
        .with_attr("label", "Username")
        .with_child(value_el)
        .with_child(option_el);
    let x = Element::new("x", NS_DATA).with_attr("type", "form").with_child(field_el);
    let command = Element::new("command", NS_ADHOC)
        .with_attr("node", "get-user-info")
        .with_attr("sessionid", "sess-2")
        .with_attr("status", "executing")
        .with_child(x);
    let resp = mgr.on_result(&result_iq(&id, command)).expect("expected a response");
    assert_eq!(resp.status, CommandStatus::Executing);
    assert_eq!(resp.fields.len(), 1);
    let field = &resp.fields[0];
    assert_eq!(field.var, "username");
    assert_eq!(field.label, Some("Username".to_string()));
    assert_eq!(field.field_type, "text-single");
    assert_eq!(field.value, Some("alice".to_string()));
    assert_eq!(field.options.len(), 1);
    assert_eq!(field.options[0], ("Option A".to_string(), "a".to_string()));
}

#[test]
fn on_result_clears_pending() {
    let mut mgr = AdhocManager::new();
    let (id, _) = mgr.build_execute("admin.example.org", "restart");
    let command = Element::new("command", NS_ADHOC)
        .with_attr("node", "restart")
        .with_attr("sessionid", "sess-3")
        .with_attr("status", "completed");
    mgr.on_result(&result_iq(&id, command));
    assert_eq!(mgr.pending_node(&id), None);
}
