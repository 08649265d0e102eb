//! Room configuration (XEP-0045 §10.2): requesting the form, submitting a
//! configuration and reading one.
use vstd::prelude::*;
use crate::util::ext::{is_uuid_v4_text, new_uuid};
use crate::util::maps::StrMap;
use crate::util::strs::{chars_of, concat, dec_str, parse_unsigned, parse_unsigned_chars, str_eq, u64_to_string};
use crate::util::xml::{Element, ElementView, elem};
use super::{NS_CLIENT, NS_DATA, NS_MUC_OWNER};

verus! {

broadcast use crate::util::xml::group_xml;

pub const NS_ROOMCONFIG: &'static str = "http://jabber.org/protocol/muc#roomconfig";

/// The room a pending configuration request is about.
#[derive(Debug, Clone)]
pub enum MucConfigQuery {
    RequestConfig { room_jid: String },
    SubmitConfig { room_jid: String },
}

pub enum MucConfigQueryView {
    RequestConfig { room_jid: Seq<char> },
    SubmitConfig { room_jid: Seq<char> },
}

impl View for MucConfigQuery {
    type V = MucConfigQueryView;

    open spec fn view(&self) -> MucConfigQueryView {
        match self {
            MucConfigQuery::RequestConfig { room_jid } => MucConfigQueryView::RequestConfig { room_jid: room_jid@ },
            MucConfigQuery::SubmitConfig { room_jid } => MucConfigQueryView::SubmitConfig { room_jid: room_jid@ },
        }
    }
}

/// A room configuration; each field that is `None` is left out of a submission.
#[derive(Debug, Clone)]
pub struct MucRoomConfig {
    pub room_name: Option<String>,
    pub room_description: Option<String>,
    pub max_history_fetch: Option<i32>,
    pub allow_private_messages: Option<bool>,
    pub allow_public_messages: Option<bool>,
    pub public: Option<bool>,
    pub persistent_room: Option<bool>,
    pub password_protected: Option<bool>,
    pub password: Option<String>,
    pub whois: Option<String>,
    pub max_users: Option<u32>,
}

pub struct MucRoomConfigView {
    pub room_name: Option<Seq<char>>,
    pub room_description: Option<Seq<char>>,
    pub max_history_fetch: Option<i32>,
    pub allow_private_messages: Option<bool>,
    pub allow_public_messages: Option<bool>,
    pub public: Option<bool>,
    pub persistent_room: Option<bool>,
    pub password_protected: Option<bool>,
    pub password: Option<Seq<char>>,
    pub whois: Option<Seq<char>>,
    pub max_users: Option<u32>,
}

pub open spec fn ov(o: Option<String>) -> Option<Seq<char>> {
    match o {
        Some(s) => Some(s@),
        None => None,
    }
}

impl View for MucRoomConfig {
    type V = MucRoomConfigView;

    open spec fn view(&self) -> MucRoomConfigView {
        MucRoomConfigView {
            room_name: ov(self.room_name),
            room_description: ov(self.room_description),
            max_history_fetch: self.max_history_fetch,
            allow_private_messages: self.allow_private_messages,
            allow_public_messages: self.allow_public_messages,
            public: self.public,
            persistent_room: self.persistent_room,
            password_protected: self.password_protected,
            password: ov(self.password),
            whois: ov(self.whois),
            max_users: self.max_users,
        }
    }
}

/// The configuration a room starts from when a form is read.
pub open spec fn default_config() -> MucRoomConfigView {
    MucRoomConfigView {
        room_name: None,
        room_description: None,
        max_history_fetch: Some(50),
        allow_private_messages: Some(true),
        allow_public_messages: Some(true),
        public: Some(true),
        persistent_room: Some(true),
        password_protected: Some(false),
        password: None,
        whois: Some("anyone"@),
        max_users: Some(200),
    }
}

impl Default for MucRoomConfig {
    fn default() -> (r: Self)
        ensures
            r@ == default_config(),
    {
        MucRoomConfig {
            room_name: None,
            room_description: None,
            max_history_fetch: Some(50),
            allow_private_messages: Some(true),
            allow_public_messages: Some(true),
            public: Some(true),
            persistent_room: Some(true),
            password_protected: Some(false),
            password: None,
            whois: Some("anyone".to_owned()),
            max_users: Some(200),
        }
    }
}

/// The decimal text of a signed number.
pub open spec fn int_str(x: int) -> Seq<char> {
    if x < 0 {
        "-"@ + dec_str((-x) as nat)
    } else {
        dec_str(x as nat)
    }
}

/// A text field (hidden or single-line) with an optional value.
pub open spec fn text_field(var: Seq<char>, value: Option<Seq<char>>, hidden: bool) -> ElementView {
    let f = elem("field"@, NS_DATA@).with_attr("var"@, var).with_attr("type"@, if hidden { "hidden"@ } else { "text-single"@ });
    match value {
        Some(v) => f.with_child(elem("value"@, NS_DATA@).with_text(v)),
        None => f,
    }
}

/// A boolean field, `1` or `0`.
pub open spec fn bool_field(var: Seq<char>, value: bool) -> ElementView {
    elem("field"@, NS_DATA@).with_attr("var"@, var).with_attr("type"@, "boolean"@).with_child(
        elem("value"@, NS_DATA@).with_text(if value { "1"@ } else { "0"@ }),
    )
}

/// The submitted form of `c`: the form type, then each field that is set.
pub open spec fn config_form(c: MucRoomConfigView) -> ElementView {
    let f0 = elem("x"@, NS_DATA@).with_attr("type"@, "submit"@).with_child(text_field("FORM_TYPE"@, Some(NS_ROOMCONFIG@), true));
    let f1 = match c.room_name {
        Some(n) => f0.with_child(text_field("muc#roomconfig_roomname"@, Some(n), false)),
        None => f0,
    };
    let f2 = match c.room_description {
        Some(d) => f1.with_child(text_field("muc#roomconfig_roomdesc"@, Some(d), false)),
        None => f1,
    };
    let f3 = match c.max_users {
        Some(m) => f2.with_child(text_field("muc#roomconfig_maxusers"@, Some(dec_str(m as nat)), false)),
        None => f2,
    };
    let f4 = match c.public {
        Some(p) => f3.with_child(bool_field("muc#roomconfig_publicroom"@, p)),
        None => f3,
    };
    let f5 = match c.persistent_room {
        Some(p) => f4.with_child(bool_field("muc#roomconfig_persistentroom"@, p)),
        None => f4,
    };
    let f6 = match c.whois {
        Some(w) => f5.with_child(text_field("muc#roomconfig_whois"@, Some(w), false)),
        None => f5,
    };
    match c.max_history_fetch {
        Some(h) => f6.with_child(text_field("muc#roomconfig_maxstanzas"@, Some(int_str(h as int)), false)),
        None => f6,
    }
}

/// The owner `<iq>` of type `ty` and id `id` to `room` around `query`.
pub open spec fn owner_iq(id: Seq<char>, room: Seq<char>, ty: Seq<char>, query: ElementView) -> ElementView {
    elem("iq"@, NS_CLIENT@).with_attr("id"@, id).with_attr("to"@, room).with_attr("type"@, ty).with_child(query)
}

/// The value of a field: the text of its first `<value>`.
pub open spec fn field_value(f: ElementView) -> Option<Seq<char>> {
    match f.child_named("value"@) {
        Some(v) => Some(v.text),
        None => None,
    }
}

/// `c` updated by the `<field>` elements among `fs`; nothing when one lacks a `var`.
pub open spec fn apply_fields(c: MucRoomConfigView, fs: Seq<ElementView>) -> Option<MucRoomConfigView>
    decreases fs.len(),
{
    if fs.len() == 0 {
        Some(c)
    } else {
        match apply_fields(c, fs.drop_last()) {
            None => None,
            Some(acc) => {
                let f = fs.last();
                if f.name != "field"@ {
                    Some(acc)
                } else {
                    match f.attr("var"@) {
                        None => None,
                        Some(var) => {
                            let value = field_value(f);
                            Some(
                                if var == "muc#roomconfig_roomname"@ {
                                    MucRoomConfigView { room_name: value, ..acc }
                                } else if var == "muc#roomconfig_roomdesc"@ {
                                    MucRoomConfigView { room_description: value, ..acc }
                                } else if var == "muc#roomconfig_maxusers"@ {
                                    MucRoomConfigView {
                                        max_users: match value {
                                            Some(v) => match parse_unsigned(v, 0xffff_ffff) {
                                                Some(n) => Some(n as u32),
                                                None => None,
                                            },
                                            None => None,
                                        },
                                        ..acc
                                    }
                                } else if var == "muc#roomconfig_publicroom"@ {
                                    MucRoomConfigView {
                                        public: match value {
                                            Some(v) => Some(v == "1"@),
                                            None => None,
                                        },
                                        ..acc
                                    }
                                } else if var == "muc#roomconfig_persistentroom"@ {
                                    MucRoomConfigView {
                                        persistent_room: match value {
                                            Some(v) => Some(v == "1"@),
                                            None => None,
                                        },
                                        ..acc
                                    }
                                } else if var == "muc#roomconfig_whois"@ {
                                    MucRoomConfigView { whois: value, ..acc }
                                } else {
                                    acc
                                },
                            )
                        },
                    }
                }
            },
        }
    }
}

/// The configuration a form in `el` describes, starting from the defaults.
pub open spec fn parsed_config(el: ElementView) -> Option<MucRoomConfigView> {
    match el.child("x"@, NS_DATA@) {
        None => None,
        Some(form) => apply_fields(default_config(), form.children),
    }
}

pub struct MucConfigManager {
    pending_queries: StrMap<MucConfigQuery>,
}

impl MucConfigManager {
    /// The room of each configuration request sent.
    pub closed spec fn pending(&self) -> Map<Seq<char>, MucConfigQueryView> {
        self.pending_queries.view().map_values(|q: MucConfigQuery| q@)
    }

    pub fn new() -> (r: Self)
        ensures
            r.pending() == Map::<Seq<char>, MucConfigQueryView>::empty(),
    {
        let r = MucConfigManager { pending_queries: StrMap::new() };
        assert(r.pending() =~= Map::<Seq<char>, MucConfigQueryView>::empty());
        r
    }

    /// The request for the configuration form of `room_jid`; its id is
    /// `muc-config-req-` and a fresh UUID, recorded as pending.
    pub fn build_config_request(&mut self, room_jid: &str) -> (r: (String, Element))
        ensures
            exists|u: Seq<char>| is_uuid_v4_text(u) && r.0@ == "muc-config-req-"@ + u,
            r.1@ == owner_iq(r.0@, room_jid@, "get"@, elem("query"@, NS_MUC_OWNER@)),
            final(self).pending() == old(self).pending().insert(r.0@, MucConfigQueryView::RequestConfig { room_jid: room_jid@ }),
    {
        let u = new_uuid();
        let query_id = concat("muc-config-req-", u.as_str());
        let q = MucConfigQuery::RequestConfig { room_jid: room_jid.to_owned() };
        self.pending_queries.insert(query_id.clone(), q);
        assert(self.pending() =~= old(self).pending().insert(query_id@, MucConfigQueryView::RequestConfig { room_jid: room_jid@ }));
        let iq = Element::new("iq", NS_CLIENT).with_attr("id", query_id.as_str()).with_attr("to", room_jid).with_attr(
            "type",
            "get",
        ).with_child(Element::new("query", NS_MUC_OWNER));
        (query_id, iq)
    }

    /// The submission of `config` to `room_jid`; its id is `muc-config-submit-`
    /// and a fresh UUID, recorded as pending.
    pub fn build_config_submit(&mut self, room_jid: &str, config: &MucRoomConfig) -> (r: (String, Element))
        ensures
            exists|u: Seq<char>| is_uuid_v4_text(u) && r.0@ == "muc-config-submit-"@ + u,
            r.1@ == owner_iq(r.0@, room_jid@, "set"@, elem("query"@, NS_MUC_OWNER@).with_child(config_form(config@))),
            final(self).pending() == old(self).pending().insert(r.0@, MucConfigQueryView::SubmitConfig { room_jid: room_jid@ }),
    {
        let u = new_uuid();
        let query_id = concat("muc-config-submit-", u.as_str());
        let q = MucConfigQuery::SubmitConfig { room_jid: room_jid.to_owned() };
        self.pending_queries.insert(query_id.clone(), q);
        assert(self.pending() =~= old(self).pending().insert(query_id@, MucConfigQueryView::SubmitConfig { room_jid: room_jid@ }));
        let form = build_form(config);
        let iq = Element::new("iq", NS_CLIENT).with_attr("id", query_id.as_str()).with_attr("to", room_jid).with_attr(
            "type",
            "set",
        ).with_child(Element::new("query", NS_MUC_OWNER).with_child(form));
        (query_id, iq)
    }

    /// Reads the configuration form in `el`, starting from the defaults.
    pub fn parse_config_form(&self, el: &Element) -> (r: Option<MucRoomConfig>)
        ensures
            r is None <==> parsed_config(el@) is None,
            r matches Some(c) ==> c@ == parsed_config(el@)->0,
    {
        let form = match el.get_child("x", NS_DATA) {
            Some(f) => f,
            None => return None,
        };
        let mut config = MucRoomConfig::default();
        let fs = form.children();
        let ghost fv = form@.children;
        let mut i: usize = 0;
        while i < fs.len()
            invariant
                i <= fs@.len(),
                fv == form@.children,
                el@.child("x"@, NS_DATA@) == Some(form@),
                fs@.len() == fv.len(),
                forall|j: int| 0 <= j < fs@.len() ==> #[trigger] fs@[j]@ == fv[j],
                apply_fields(default_config(), fv.take(i as int)) == Some(config@),
            decreases fs@.len() - i,
        {
            let f = &fs[i];
            proof {
                assert(fv.take(i + 1).drop_last() =~= fv.take(i as int));
                assert(fv.take(i + 1).last() == f@);
            }
            if str_eq(f.name(), "field") {
                let var = match f.attr("var") {
                    Some(v) => v,
                    None => {
                        proof {
                            lemma_fields_none(fv, i as int + 1);
                        }
                        return None;
                    },
                };
                let value: Option<String> = match f.get_child_named("value") {
                    Some(v) => Some(v.text()),
                    None => None,
                };
                if str_eq(var, "muc#roomconfig_roomname") {
                    config.room_name = value;
                } else if str_eq(var, "muc#roomconfig_roomdesc") {
                    config.room_description = value;
                } else if str_eq(var, "muc#roomconfig_maxusers") {
                    config.max_users = match value {
                        Some(v) => {
                            let cs = chars_of(v.as_str());
                            assert(cs@.skip(0) =~= cs@);
                            match parse_unsigned_chars(&cs, 0, 0xffff_ffff) {
                                Some(n) => Some(n as u32),
                                None => None,
                            }
                        },
                        None => None,
                    };
                } else if str_eq(var, "muc#roomconfig_publicroom") {
                    config.public = match value {
                        Some(v) => Some(str_eq(v.as_str(), "1")),
                        None => None,
                    };
                } else if str_eq(var, "muc#roomconfig_persistentroom") {
                    config.persistent_room = match value {
                        Some(v) => Some(str_eq(v.as_str(), "1")),
                        None => None,
                    };
                } else if str_eq(var, "muc#roomconfig_whois") {
                    config.whois = value;
                }
            }
            i += 1;
        }
        assert(fv.take(fs@.len() as int) =~= fv);
        Some(config)
    }
}

proof fn lemma_fields_none(fs: Seq<ElementView>, i: int)
    requires
        0 <= i <= fs.len(),
        apply_fields(default_config(), fs.take(i)) is None,
    ensures
        apply_fields(default_config(), fs) is None,
    decreases fs.len() - i,
{
    if i < fs.len() {
        assert(fs.take(i + 1).drop_last() =~= fs.take(i));
        lemma_fields_none(fs, i + 1);
    } else {
        assert(fs.take(i) =~= fs);
    }
}

/// The decimal text of a signed 32-bit number.
fn i32_to_string(x: i32) -> (r: String)
    ensures
        r@ == int_str(x as int),
{
    if x < 0 {
        let m: u64 = (-(x as i64)) as u64;
        let t = u64_to_string(m);
        concat("-", t.as_str())
    } else {
        u64_to_string(x as u64)
    }
}

fn text_field_exec(var: &str, value: Option<&str>, hidden: bool) -> (r: Element)
    ensures
        r@ == text_field(var@, match value { Some(v) => Some(v@), None => None }, hidden),
{
    let mut f = Element::new("field", NS_DATA).with_attr("var", var).with_attr("type", if hidden { "hidden" } else { "text-single" });
    match value {
        Some(v) => f.push_child(Element::new("value", NS_DATA).with_text(v)),
        None => {},
    }
    f
}

fn bool_field_exec(var: &str, value: bool) -> (r: Element)
    ensures
        r@ == bool_field(var@, value),
{
    Element::new("field", NS_DATA).with_attr("var", var).with_attr("type", "boolean").with_child(
        Element::new("value", NS_DATA).with_text(if value { "1" } else { "0" }),
    )
}

fn build_form(c: &MucRoomConfig) -> (r: Element)
    ensures
        r@ == config_form(c@),
{
    let mut f = Element::new("x", NS_DATA).with_attr("type", "submit").with_child(text_field_exec("FORM_TYPE", Some(NS_ROOMCONFIG), true));
    match &c.room_name {
        Some(n) => f.push_child(text_field_exec("muc#roomconfig_roomname", Some(n.as_str()), false)),
        None => {},
    }
    match &c.room_description {
        Some(d) => f.push_child(text_field_exec("muc#roomconfig_roomdesc", Some(d.as_str()), false)),
        None => {},
    }
    match c.max_users {
        Some(m) => {
            let t = u64_to_string(m as u64);
            f.push_child(text_field_exec("muc#roomconfig_maxusers", Some(t.as_str()), false));
        },
        None => {},
    }
    match c.public {
        Some(p) => f.push_child(bool_field_exec("muc#roomconfig_publicroom", p)),
        None => {},
    }
    match c.persistent_room {
        Some(p) => f.push_child(bool_field_exec("muc#roomconfig_persistentroom", p)),
        None => {},
    }
    match &c.whois {
        Some(w) => f.push_child(text_field_exec("muc#roomconfig_whois", Some(w.as_str()), false)),
        None => {},
    }
    match c.max_history_fetch {
        Some(h) => {
            let t = i32_to_string(h);
            f.push_child(text_field_exec("muc#roomconfig_maxstanzas", Some(t.as_str()), false));
        },
        None => {},
    }
    f
}

} // verus!
