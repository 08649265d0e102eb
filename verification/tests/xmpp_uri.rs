use rexisce::xmpp::modules::xmpp_uri::{build, parse, XmppUriAction};

// 1 -----------------------------------------------------------------------
#[test]
fn parse_bare_jid() {
    let uri = parse("xmpp:user@example.org").expect("should parse");
    assert_eq!(uri.jid, "user@example.org");
    assert_eq!(uri.action, XmppUriAction::Unknown(String::new()));
    assert!(uri.params.is_empty());
}

// 2 -----------------------------------------------------------------------
#[test]
fn parse_message_action() {
    let uri = parse("xmpp:user@example.org?message").expect("should parse");
    assert_eq!(uri.jid, "user@example.org");
    assert_eq!(uri.action, XmppUriAction::Message);
    assert!(uri.params.is_empty());
}

// 3 -----------------------------------------------------------------------
#[test]
fn parse_join_action() {
    let uri = parse("xmpp:room@muc.example.org?join").expect("should parse");
    assert_eq!(uri.jid, "room@muc.example.org");
    assert_eq!(uri.action, XmppUriAction::Join);
}

// 4 -----------------------------------------------------------------------
#[test]
fn parse_params() {
    let uri = parse("xmpp:user@example.org?message;body=Hello%20World;thread=t1")
        .expect("should parse");
    assert_eq!(uri.action, XmppUriAction::Message);
    assert_eq!(uri.params.get("body"), Some(&"Hello%20World".to_string()));
    assert_eq!(uri.params.get("thread"), Some(&"t1".to_string()));
}

// 5 -----------------------------------------------------------------------
#[test]
fn returns_none_for_non_xmpp_uri() {
    assert!(parse("https://example.org").is_none());
    assert!(parse("mailto:user@example.org").is_none());
    assert!(parse("").is_none());
}

// 6 -----------------------------------------------------------------------
#[test]
fn build_round_trips() {
    let original = "xmpp:user@example.org?message;body=Hi;thread=abc";
    let parsed = parse(original).expect("should parse");

    // Collect params in a stable order to build deterministically.
    let mut param_pairs: Vec<(&str, &str)> = parsed
        .params
        .pairs()
        .iter()
        .map(|(k, v)| (k.as_str(), v.as_str()))
        .collect();
    param_pairs.sort_by_key(|(k, _)| *k);

    let rebuilt = build(&parsed.jid, &parsed.action, &param_pairs);
    let re_parsed = parse(&rebuilt).expect("rebuilt URI should parse");

    assert_eq!(re_parsed.jid, parsed.jid);
    assert_eq!(re_parsed.action, parsed.action);
    assert_eq!(re_parsed.params, parsed.params);
}

#[test]
fn built_uri_parses_back_with_later_key_winning() {
    let uri = build("room@muc.example.org", &XmppUriAction::Join, &[("password", "a"), ("nick", "me"), ("password", "b")]);
    assert_eq!(uri, "xmpp:room@muc.example.org?join;password=a;nick=me;password=b");
    let parsed = parse(&uri).expect("should parse");
    assert_eq!(parsed.jid, "room@muc.example.org");
    assert_eq!(parsed.action, XmppUriAction::Join);
    assert_eq!(parsed.params.len(), 2);
    assert_eq!(parsed.params.get("password"), Some(&"b".to_string()));
    assert_eq!(parsed.params.get("nick"), Some(&"me".to_string()));
}

#[test]
fn unknown_action_named_like_a_known_one_parses_as_the_known_one() {
    let uri = build("user@example.org", &XmppUriAction::Unknown("message".to_string()), &[]);
    assert_eq!(parse(&uri).expect("should parse").action, XmppUriAction::Message);
}
