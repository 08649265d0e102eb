//! Ad-hoc commands (XEP-0050): executing, continuing and cancelling command
//! sessions, and reading their results.
use vstd::prelude::*;
use crate::util::ext::{is_uuid_v4_text, new_uuid};
use crate::util::maps::StrMap;
use crate::util::strs::str_eq;
use crate::util::xml::{Element, ElementView, elem};
use super::{NS_CLIENT, NS_DATA};

verus! {

broadcast use crate::util::xml::group_xml;

pub const NS_ADHOC: &'static str = "http://jabber.org/protocol/commands";

/// Where a command session stands.
#[derive(Debug, Clone, Copy, PartialEq, Eq, Structural)]
pub enum CommandStatus {
    Executing,
    Completed,
    Canceled,
}

/// A field of a data form.
#[derive(Debug, Clone, PartialEq)]
pub struct DataField {
    pub var: String,
    pub label: Option<String>,
    pub field_type: String,
    pub value: Option<String>,
    /// `(label, value)` of each option.
    pub options: Vec<(String, String)>,
}

/// The result of a command request.
#[derive(Debug, Clone, PartialEq)]
pub struct CommandResponse {
    pub session_id: String,
    pub node: String,
    pub status: CommandStatus,
    pub fields: Vec<DataField>,
    pub notes: Vec<String>,
}

#[verifier::ext_equal]
pub struct DataFieldView {
    pub var: Seq<char>,
    pub label: Option<Seq<char>>,
    pub field_type: Seq<char>,
    pub value: Option<Seq<char>>,
    pub options: Seq<(Seq<char>, Seq<char>)>,
}

#[verifier::ext_equal]
pub struct CommandResponseView {
    pub session_id: Seq<char>,
    pub node: Seq<char>,
    pub status: CommandStatus,
    pub fields: Seq<DataFieldView>,
    pub notes: Seq<Seq<char>>,
}

pub open spec fn pairs_view(s: Seq<(String, String)>) -> Seq<(Seq<char>, Seq<char>)> {
    Seq::new(s.len(), |i: int| (s[i].0@, s[i].1@))
}

pub open spec fn fields_view(s: Seq<DataField>) -> Seq<DataFieldView> {
    Seq::new(s.len(), |i: int| s[i]@)
}

pub open spec fn strings_view(s: Seq<String>) -> Seq<Seq<char>> {
    Seq::new(s.len(), |i: int| s[i]@)
}

pub open spec fn ov(o: Option<String>) -> Option<Seq<char>> {
    match o {
        Some(s) => Some(s@),
        None => None,
    }
}

impl View for DataField {
    type V = DataFieldView;

    open spec fn view(&self) -> DataFieldView {
        DataFieldView {
            var: self.var@,
            label: ov(self.label),
            field_type: self.field_type@,
            value: ov(self.value),
            options: pairs_view(self.options@),
        }
    }
}

impl View for CommandResponse {
    type V = CommandResponseView;

    open spec fn view(&self) -> CommandResponseView {
        CommandResponseView {
            session_id: self.session_id@,
            node: self.node@,
            status: self.status,
            fields: fields_view(self.fields@),
            notes: strings_view(self.notes@),
        }
    }
}

/// The value of an attribute, or `dflt`.
pub open spec fn attr_or(e: ElementView, k: Seq<char>, dflt: Seq<char>) -> Seq<char> {
    match e.attr(k) {
        Some(v) => v,
        None => dflt,
    }
}

/// The text of the first `<value>` child.
pub open spec fn first_value(e: ElementView) -> Option<Seq<char>> {
    match e.child_named("value"@) {
        Some(v) => Some(v.text),
        None => None,
    }
}

/// The options among `cs`: label (or empty) and first value (or empty).
pub open spec fn options_of(cs: Seq<ElementView>) -> Seq<(Seq<char>, Seq<char>)>
    decreases cs.len(),
{
    if cs.len() == 0 {
        Seq::empty()
    } else if cs.last().name == "option"@ {
        options_of(cs.drop_last()).push(
            (
                attr_or(cs.last(), "label"@, ""@),
                match first_value(cs.last()) {
                    Some(v) => v,
                    None => Seq::empty(),
                },
            ),
        )
    } else {
        options_of(cs.drop_last())
    }
}

/// The field a `<field>` element describes.
pub open spec fn field_of(f: ElementView) -> DataFieldView {
    DataFieldView {
        var: attr_or(f, "var"@, ""@),
        label: f.attr("label"@),
        field_type: attr_or(f, "type"@, "text-single"@),
        value: first_value(f),
        options: options_of(f.children),
    }
}

/// The fields among `cs`.
pub open spec fn fields_of(cs: Seq<ElementView>) -> Seq<DataFieldView>
    decreases cs.len(),
{
    if cs.len() == 0 {
        Seq::empty()
    } else if cs.last().name == "field"@ {
        fields_of(cs.drop_last()).push(field_of(cs.last()))
    } else {
        fields_of(cs.drop_last())
    }
}

/// The texts of the command notes among `cs`.
pub open spec fn notes_of(cs: Seq<ElementView>) -> Seq<Seq<char>>
    decreases cs.len(),
{
    if cs.len() == 0 {
        Seq::empty()
    } else if cs.last().name == "note"@ && cs.last().ns == NS_ADHOC@ {
        notes_of(cs.drop_last()).push(cs.last().text)
    } else {
        notes_of(cs.drop_last())
    }
}

pub open spec fn status_of(s: Seq<char>) -> CommandStatus {
    if s == "completed"@ {
        CommandStatus::Completed
    } else if s == "canceled"@ {
        CommandStatus::Canceled
    } else {
        CommandStatus::Executing
    }
}

/// What a `<command>` element reports.
pub open spec fn response_of(c: ElementView) -> CommandResponseView {
    CommandResponseView {
        session_id: attr_or(c, "sessionid"@, ""@),
        node: attr_or(c, "node"@, ""@),
        status: status_of(attr_or(c, "status"@, "executing"@)),
        fields: match c.child("x"@, NS_DATA@) {
            Some(x) => fields_of(x.children),
            None => Seq::empty(),
        },
        notes: notes_of(c.children),
    }
}

/// The command `<iq type='set'>` with id `id` to `to`.
pub open spec fn command_iq(id: Seq<char>, to: Seq<char>, command: ElementView) -> ElementView {
    elem("iq"@, NS_CLIENT@).with_attr("type"@, "set"@).with_attr("id"@, id).with_attr("to"@, to).with_child(command)
}

/// The submitted form with each field's `var` and value.
pub open spec fn submit_form(fields: Seq<DataFieldView>) -> ElementView
    decreases fields.len(),
{
    if fields.len() == 0 {
        elem("x"@, NS_DATA@).with_attr("type"@, "submit"@)
    } else {
        let f = fields.last();
        let fe = elem("field"@, NS_DATA@).with_attr("var"@, f.var);
        submit_form(fields.drop_last()).with_child(
            match f.value {
                Some(v) => fe.with_child(elem("value"@, NS_DATA@).with_text(v)),
                None => fe,
            },
        )
    }
}

pub struct AdhocManager {
    pending: StrMap<String>,
}

impl AdhocManager {
    /// The command node of each request awaiting its answer.
    pub closed spec fn pending(&self) -> Map<Seq<char>, Seq<char>> {
        self.pending.view().map_values(|n: String| n@)
    }

    pub fn new() -> (r: Self)
        ensures
            r.pending() == Map::<Seq<char>, Seq<char>>::empty(),
    {
        let r = AdhocManager { pending: StrMap::new() };
        assert(r.pending() =~= Map::<Seq<char>, Seq<char>>::empty());
        r
    }

    /// The command node of the pending request `id`, if there is one.
    pub fn pending_node(&self, id: &str) -> (r: Option<&str>)
        ensures
            r matches Some(n) ==> self.pending().contains_key(id@) && self.pending()[id@] == n@,
            r is None ==> !self.pending().contains_key(id@),
    {
        match self.pending.get(id) {
            Some(n) => Some(n.as_str()),
            None => None,
        }
    }

    fn track(&mut self, id: &String, node: &str)
        ensures
            final(self).pending() == old(self).pending().insert(id@, node@),
    {
        self.pending.insert(id.clone(), node.to_owned());
        assert(self.pending() =~= old(self).pending().insert(id@, node@));
    }

    /// The request executing command `node` at `to_jid`, under a fresh id recorded as pending.
    pub fn build_execute(&mut self, to_jid: &str, node: &str) -> (r: (String, Element))
        ensures
            is_uuid_v4_text(r.0@),
            r.1@ == command_iq(r.0@, to_jid@, elem("command"@, NS_ADHOC@).with_attr("action"@, "execute"@).with_attr("node"@, node@)),
            final(self).pending() == old(self).pending().insert(r.0@, node@),
    {
        let id = new_uuid();
        let command = Element::new("command", NS_ADHOC).with_attr("action", "execute").with_attr("node", node);
        let iq = build_command_iq(id.as_str(), to_jid, command);
        self.track(&id, node);
        (id, iq)
    }

    /// The request continuing session `session_id` of `node` with `fields`,
    /// under a fresh id recorded as pending.
    pub fn build_continue(&mut self, to_jid: &str, node: &str, session_id: &str, fields: &[DataField]) -> (r: (String, Element))
        ensures
            is_uuid_v4_text(r.0@),
            r.1@ == command_iq(
                r.0@,
                to_jid@,
                elem("command"@, NS_ADHOC@).with_attr("action"@, "next"@).with_attr("node"@, node@).with_attr(
                    "sessionid"@,
                    session_id@,
                ).with_child(submit_form(fields_view(fields@))),
            ),
            final(self).pending() == old(self).pending().insert(r.0@, node@),
    {
        let id = new_uuid();
        let ghost fv = fields_view(fields@);
        let mut x = Element::new("x", NS_DATA).with_attr("type", "submit");
        let mut i: usize = 0;
        while i < fields.len()
            invariant
                i <= fields@.len(),
                fv == fields_view(fields@),
                x@ == submit_form(fv.take(i as int)),
            decreases fields.len() - i,
        {
            let f = &fields[i];
            proof {
                assert(fv.take(i + 1).drop_last() =~= fv.take(i as int));
                assert(fv.take(i + 1).last() == f@);
            }
            let mut fe = Element::new("field", NS_DATA).with_attr("var", f.var.as_str());
            match &f.value {
                Some(v) => fe.push_child(Element::new("value", NS_DATA).with_text(v.as_str())),
                None => {},
            }
            x.push_child(fe);
            i += 1;
        }
        assert(fv.take(i as int) =~= fv);
        let command = Element::new("command", NS_ADHOC).with_attr("action", "next").with_attr("node", node).with_attr(
            "sessionid",
            session_id,
        ).with_child(x);
        let iq = build_command_iq(id.as_str(), to_jid, command);
        self.track(&id, node);
        (id, iq)
    }

    /// The request cancelling session `session_id` of `node`, under a fresh id recorded as pending.
    pub fn build_cancel(&mut self, to_jid: &str, node: &str, session_id: &str) -> (r: (String, Element))
        ensures
            is_uuid_v4_text(r.0@),
            r.1@ == command_iq(
                r.0@,
                to_jid@,
                elem("command"@, NS_ADHOC@).with_attr("action"@, "cancel"@).with_attr("node"@, node@).with_attr("sessionid"@, session_id@),
            ),
            final(self).pending() == old(self).pending().insert(r.0@, node@),
    {
        let id = new_uuid();
        let command = Element::new("command", NS_ADHOC).with_attr("action", "cancel").with_attr("node", node).with_attr(
            "sessionid",
            session_id,
        );
        let iq = build_command_iq(id.as_str(), to_jid, command);
        self.track(&id, node);
        (id, iq)
    }

    /// Reads the result of a pending command request; the request stops
    /// being pending even when the result has no `<command>`.
    pub fn on_result(&mut self, el: &Element) -> (r: Option<CommandResponse>)
        ensures
            (el@.attr("type"@) == Some("result"@) && el@.attr("id"@) is Some) ==> final(self).pending() == old(self).pending().remove(
                el@.attr("id"@)->0,
            ),
            !(el@.attr("type"@) == Some("result"@) && el@.attr("id"@) is Some) ==> final(self).pending() == old(self).pending(),
            r is Some <==> ({
                &&& el@.attr("type"@) == Some("result"@)
                &&& el@.attr("id"@) matches Some(id)
                &&& old(self).pending().contains_key(id)
                &&& el@.child("command"@, NS_ADHOC@) is Some
            }),
            r matches Some(resp) ==> resp@ == response_of(el@.child("command"@, NS_ADHOC@)->0),
    {
        if !el.attr_is("type", "result") {
            return None;
        }
        let iq_id = match el.attr("id") {
            Some(i) => i,
            None => return None,
        };
        let removed = self.pending.remove(iq_id);
        assert(self.pending() =~= old(self).pending().remove(iq_id@));
        if removed.is_none() {
            return None;
        }
        let command = match el.get_child("command", NS_ADHOC) {
            Some(c) => c,
            None => return None,
        };
        Some(parse_command(command))
    }
}

fn build_command_iq(id: &str, to: &str, command: Element) -> (r: Element)
    ensures
        r@ == command_iq(id@, to@, command@),
{
    Element::new("iq", NS_CLIENT).with_attr("type", "set").with_attr("id", id).with_attr("to", to).with_child(command)
}

fn attr_or_exec(e: &Element, k: &str, dflt: &str) -> (r: String)
    ensures
        r@ == attr_or(e@, k@, dflt@),
{
    match e.attr(k) {
        Some(v) => v.to_owned(),
        None => dflt.to_owned(),
    }
}

fn first_value_exec(e: &Element) -> (r: Option<String>)
    ensures
        ov(r) == first_value(e@),
{
    match e.get_child_named("value") {
        Some(v) => Some(v.text()),
        None => None,
    }
}

fn parse_field(f: &Element) -> (r: DataField)
    ensures
        r@ == field_of(f@),
{
    let cs = f.children();
    let ghost csv = f@.children;
    let mut options: Vec<(String, String)> = Vec::new();
    let mut i: usize = 0;
    assert(pairs_view(options@) =~= Seq::<(Seq<char>, Seq<char>)>::empty());
    while i < cs.len()
        invariant
            i <= cs@.len(),
            csv == f@.children,
            cs@.len() == csv.len(),
            forall|j: int| 0 <= j < cs@.len() ==> #[trigger] cs@[j]@ == csv[j],
            pairs_view(options@) == options_of(csv.take(i as int)),
        decreases cs@.len() - i,
    {
        let c = &cs[i];
        proof {
            assert(csv.take(i + 1).drop_last() =~= csv.take(i as int));
            assert(csv.take(i + 1).last() == c@);
        }
        if str_eq(c.name(), "option") {
            let ghost before = options@;
            let label = attr_or_exec(c, "label", "");
            let value = match first_value_exec(c) {
                Some(v) => v,
                None => String::new(),
            };
            let ghost pv = (label@, value@);
            options.push((label, value));
            assert(pairs_view(options@) =~= pairs_view(before).push(pv));
        }
        i += 1;
    }
    assert(csv.take(cs@.len() as int) =~= csv);
    DataField {
        var: attr_or_exec(f, "var", ""),
        label: match f.attr("label") {
            Some(l) => Some(l.to_owned()),
            None => None,
        },
        field_type: attr_or_exec(f, "type", "text-single"),
        value: first_value_exec(f),
        options,
    }
}

fn parse_command(c: &Element) -> (r: CommandResponse)
    ensures
        r@ == response_of(c@),
{
    let node = attr_or_exec(c, "node", "");
    let session_id = attr_or_exec(c, "sessionid", "");
    let st = attr_or_exec(c, "status", "executing");
    let status = if str_eq(st.as_str(), "completed") {
        CommandStatus::Completed
    } else if str_eq(st.as_str(), "canceled") {
        CommandStatus::Canceled
    } else {
        CommandStatus::Executing
    };
    let mut fields: Vec<DataField> = Vec::new();
    assert(fields_view(fields@) =~= Seq::<DataFieldView>::empty());
    match c.get_child("x", NS_DATA) {
        Some(x) => {
            let xs = x.children();
            let ghost xv = x@.children;
            let mut i: usize = 0;
            while i < xs.len()
                invariant
                    i <= xs@.len(),
                    xv == x@.children,
                    xs@.len() == xv.len(),
                    forall|j: int| 0 <= j < xs@.len() ==> #[trigger] xs@[j]@ == xv[j],
                    fields_view(fields@) == fields_of(xv.take(i as int)),
                decreases xs@.len() - i,
            {
                let f = &xs[i];
                proof {
                    assert(xv.take(i + 1).drop_last() =~= xv.take(i as int));
                    assert(xv.take(i + 1).last() == f@);
                }
                if str_eq(f.name(), "field") {
                    let ghost before = fields@;
                    let df = parse_field(f);
                    fields.push(df);
                    assert(fields_view(fields@) =~= fields_view(before).push(df@));
                }
                i += 1;
            }
            assert(xv.take(xs@.len() as int) =~= xv);
        },
        None => {},
    }
    let cs = c.children();
    let ghost csv = c@.children;
    let mut notes: Vec<String> = Vec::new();
    let mut k: usize = 0;
    assert(strings_view(notes@) =~= Seq::<Seq<char>>::empty());
    while k < cs.len()
        invariant
            k <= cs@.len(),
            csv == c@.children,
            cs@.len() == csv.len(),
            forall|j: int| 0 <= j < cs@.len() ==> #[trigger] cs@[j]@ == csv[j],
            strings_view(notes@) == notes_of(csv.take(k as int)),
        decreases cs@.len() - k,
    {
        let n = &cs[k];
        proof {
            assert(csv.take(k + 1).drop_last() =~= csv.take(k as int));
            assert(csv.take(k + 1).last() == n@);
        }
        if str_eq(n.name(), "note") && str_eq(n.ns(), NS_ADHOC) {
            let ghost before = notes@;
            let t = n.text();
            notes.push(t);
            assert(strings_view(notes@) =~= strings_view(before).push(n@.text));
        }
        k += 1;
    }
    assert(csv.take(cs@.len() as int) =~= csv);
    CommandResponse { session_id, node, status, fields, notes }
}

} // verus!
