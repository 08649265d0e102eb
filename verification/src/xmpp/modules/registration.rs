//! In-band registration (XEP-0077): asking for the form and submitting it.
use vstd::prelude::*;
use crate::util::strs::str_eq;
use crate::util::xml::{Element, ElementView, elem};
use super::NS_CLIENT;
use crate::xmpp::{XmppCommand, XmppEvent, XmppEventView};

verus! {

broadcast use crate::util::xml::group_xml;

pub const NS_REGISTER: &'static str = "jabber:iq:register";

/// An `<iq>` of type `ty` and id `id` around `query`.
pub open spec fn register_iq(ty: Seq<char>, id: Seq<char>, query: ElementView) -> ElementView {
    elem("iq"@, NS_CLIENT@).with_attr("type"@, ty).with_attr("id"@, id).with_child(query)
}

/// The `<query>` with username, password and, when given, e-mail.
pub open spec fn submit_query(username: Seq<char>, password: Seq<char>, email: Option<Seq<char>>) -> ElementView {
    let q = elem("query"@, NS_REGISTER@).with_child(elem("username"@, NS_REGISTER@).with_text(username)).with_child(
        elem("password"@, NS_REGISTER@).with_text(password),
    );
    match email {
        Some(e) => q.with_child(elem("email"@, NS_REGISTER@).with_text(e)),
        None => q,
    }
}

/// Builds registration stanzas.
pub struct RegistrationManager;

impl RegistrationManager {
    pub fn new() -> (r: Self) {
        RegistrationManager
    }

    /// The request for the registration fields, under id `id`.
    pub fn build_get_form(id: &str) -> (r: Element)
        ensures
            r@ == register_iq("get"@, id@, elem("query"@, NS_REGISTER@)),
    {
        Element::new("iq", NS_CLIENT).with_attr("type", "get").with_attr("id", id).with_child(Element::new("query", NS_REGISTER))
    }

    /// The registration with a username, a password and an optional e-mail, under id `id`.
    pub fn build_registration_submit(id: &str, username: &str, password: &str, email: Option<&str>) -> (r: Element)
        ensures
            r@ == register_iq(
                "set"@,
                id@,
                submit_query(
                    username@,
                    password@,
                    match email {
                        Some(e) => Some(e@),
                        None => None,
                    },
                ),
            ),
    {
        let mut query = Element::new("query", NS_REGISTER).with_child(Element::new("username", NS_REGISTER).with_text(username)).with_child(
            Element::new("password", NS_REGISTER).with_text(password),
        );
        match email {
            Some(e) => query.push_child(Element::new("email", NS_REGISTER).with_text(e)),
            None => {},
        }
        Element::new("iq", NS_CLIENT).with_attr("type", "set").with_attr("id", id).with_child(query)
    }

    /// The registration with a filled data form, under id `id`.
    pub fn build_registration_form_submit(id: &str, form: Element) -> (r: Element)
        ensures
            r@ == register_iq("set"@, id@, elem("query"@, NS_REGISTER@).with_child(form@)),
    {
        let query = Element::new("query", NS_REGISTER).with_child(form);
        Element::new("iq", NS_CLIENT).with_attr("type", "set").with_attr("id", id).with_child(query)
    }

    /// The registration `<query>` of an `<iq type='result'>`.
    pub fn parse_registration_query(el: &Element) -> (r: Option<Element>)
        ensures
            (el@.name == "iq"@ && el@.attr("type"@) == Some("result"@)) ==> (match r {
                Some(q) => el@.child("query"@, NS_REGISTER@) == Some(q@),
                None => el@.child("query"@, NS_REGISTER@) is None,
            }),
            !(el@.name == "iq"@ && el@.attr("type"@) == Some("result"@)) ==> r is None,
    {
        if str_eq(el.name(), "iq") && el.attr_is("type", "result") {
            return match el.get_child("query", NS_REGISTER) {
                Some(q) => Some(q.duplicate()),
                None => None,
            };
        }
        None
    }
}

/// What a stanza does to an in-band registration session: the event to
/// report, if any, and whether the session is over.
#[derive(Debug)]
pub struct RegistrationStep {
    pub event: Option<XmppEvent>,
    pub finished: bool,
}

/// The stanzas-error namespace.
pub const NS_STANZAS: &'static str = "urn:ietf:params:xml:ns:xmpp-stanzas";

/// The reason a registration error reports: the name of its `<error>`
/// child (in the client namespace, else in the stanzas namespace), or
/// `unknown error` when it has none.
pub open spec fn failure_reason(el: ElementView) -> Seq<char> {
    match el.child("error"@, NS_CLIENT@) {
        Some(e) => e.name,
        None => match el.child("error"@, NS_STANZAS@) {
            Some(e) => e.name,
            None => "unknown error"@,
        },
    }
}

/// Whether `el` is an `<iq>` of type `ty`.
pub open spec fn iq_of_type(el: ElementView, ty: Seq<char>) -> bool {
    el.name == "iq"@ && el.attr("type"@) == Some(ty)
}

/// What a stanza from the server does while registering on `server`: a
/// result carrying the registration form hands the form to the user
/// interface; another result reports success and ends the session; an
/// error reports the failure and ends it; anything else is ignored.
pub fn registration_step(el: &Element, server: &str) -> (r: RegistrationStep)
    ensures
        iq_of_type(el@, "result"@) && el@.child("query"@, NS_REGISTER@) is Some ==> !r.finished && (r.event matches Some(ev)
            && ev@ == XmppEventView::RegistrationFormReceived {
            _server: server@,
            _form: el@.child("query"@, NS_REGISTER@)->0,
        }),
        iq_of_type(el@, "result"@) && el@.child("query"@, NS_REGISTER@) is None ==> r.finished && (r.event matches Some(ev)
            && ev@ == XmppEventView::RegistrationSuccess),
        iq_of_type(el@, "error"@) ==> r.finished && (r.event matches Some(ev) && ev@ == XmppEventView::RegistrationFailure(
            failure_reason(el@),
        )),
        !iq_of_type(el@, "result"@) && !iq_of_type(el@, "error"@) ==> !r.finished && r.event is None,
{
    proof {
        reveal_strlit("result");
        reveal_strlit("error");
        assert("result"@.len() == 6 && "error"@.len() == 5);
        assert("result"@ != "error"@);
    }
    if let Some(query) = RegistrationManager::parse_registration_query(el) {
        return RegistrationStep {
            event: Some(XmppEvent::RegistrationFormReceived { _server: server.to_owned(), _form: query }),
            finished: false,
        };
    }
    if str_eq(el.name(), "iq") && el.attr_is("type", "result") {
        return RegistrationStep { event: Some(XmppEvent::RegistrationSuccess), finished: true };
    }
    if str_eq(el.name(), "iq") && el.attr_is("type", "error") {
        let reason = match el.get_child("error", NS_CLIENT) {
            Some(e) => e.name().to_owned(),
            None => match el.get_child("error", NS_STANZAS) {
                Some(e) => e.name().to_owned(),
                None => "unknown error".to_owned(),
            },
        };
        return RegistrationStep { event: Some(XmppEvent::RegistrationFailure(reason)), finished: true };
    }
    RegistrationStep { event: None, finished: false }
}

/// What a command of the user interface does while registering.
#[derive(Debug)]
pub enum RegistrationAction {
    /// Send this stanza.
    Send(Element),
    /// Close the stream; the session is over.
    Stop,
    /// Nothing: other commands wait for a full session.
    Ignore,
}

/// A submitted form goes out as the registration `reg2`; a disconnect ends
/// the session; any other command is ignored.
pub fn registration_command(cmd: XmppCommand) -> (r: RegistrationAction)
    ensures
        match cmd {
            XmppCommand::SubmitRegistration { form, .. } => r matches RegistrationAction::Send(e) && e@ == register_iq(
                "set"@,
                "reg2"@,
                elem("query"@, NS_REGISTER@).with_child(form@),
            ),
            XmppCommand::Disconnect => r is Stop,
            _ => r is Ignore,
        },
{
    match cmd {
        XmppCommand::SubmitRegistration { form, .. } => RegistrationAction::Send(
            RegistrationManager::build_registration_form_submit("reg2", form),
        ),
        XmppCommand::Disconnect => RegistrationAction::Stop,
        _ => RegistrationAction::Ignore,
    }
}

} // verus!
