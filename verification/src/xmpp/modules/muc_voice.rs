//! Voice requests in moderated rooms (XEP-0045 §8.6): asking for voice,
//! approving or declining it, and recognising a request.
use vstd::prelude::*;
use crate::util::maps::StrMap;
use crate::util::strs::str_eq;
use crate::util::xml::{Element, ElementView, elem};
use super::{NS_CLIENT, NS_MUC};

verus! {

broadcast use crate::util::xml::group_xml;

/// A request for voice from an occupant.
#[derive(Debug, Clone)]
pub struct VoiceRequest {
    pub room_jid: String,
    pub nick: String,
    pub role: String,
}

pub struct VoiceRequestView {
    pub room_jid: Seq<char>,
    pub nick: Seq<char>,
    pub role: Seq<char>,
}

impl View for VoiceRequest {
    type V = VoiceRequestView;

    open spec fn view(&self) -> VoiceRequestView {
        VoiceRequestView { room_jid: self.room_jid@, nick: self.nick@, role: self.role@ }
    }
}

/// A `<message>` to `room` with a MUC `<x>` around `payload`.
pub open spec fn room_message(room: Seq<char>, payload: ElementView) -> ElementView {
    elem("message"@, NS_CLIENT@).with_attr("to"@, room).with_child(elem("x"@, NS_MUC@).with_child(payload))
}

/// Whether some child of `cs` is named `request`.
pub open spec fn has_request(cs: Seq<ElementView>) -> bool {
    exists|j: int| 0 <= j < cs.len() && (#[trigger] cs[j]).name == "request"@
}

/// Whether `el` has a MUC `<x>` child holding a `<request>`.
pub open spec fn is_request(el: ElementView) -> bool {
    exists|i: int| 0 <= i < el.children.len() && (#[trigger] el.children[i]).name == "x"@ && el.children[i].ns == NS_MUC@
        && has_request(el.children[i].children)
}

/// The request that `el` carries: the `nick` of the `<request>` in its first
/// MUC `<x>`, from the room that sent it.
pub open spec fn voice_request_of(el: ElementView) -> Option<VoiceRequestView> {
    match el.child("x"@, NS_MUC@) {
        None => None,
        Some(x) => match x.child_named("request"@) {
            None => None,
            Some(req) => match (el.attr("from"@), req.attr("nick"@)) {
                (Some(room), Some(nick)) => Some(VoiceRequestView { room_jid: room, nick, role: "participant"@ }),
                _ => None,
            },
        },
    }
}

/// Builds and reads voice-request stanzas.
#[derive(Debug)]
pub struct MucVoiceManager {
    pending_requests: StrMap<VoiceRequest>,
}

impl MucVoiceManager {
    /// The voice requests awaiting an answer, by room.
    pub closed spec fn pending_requests(&self) -> Map<Seq<char>, VoiceRequestView> {
        self.pending_requests.view().map_values(|v: VoiceRequest| v@)
    }

    /// A manager with no voice request pending.
    pub fn new() -> (r: Self)
        ensures
            r.pending_requests() == Map::<Seq<char>, VoiceRequestView>::empty(),
    {
        let r = MucVoiceManager { pending_requests: StrMap::new() };
        assert(r.pending_requests() =~= Map::<Seq<char>, VoiceRequestView>::empty());
        r
    }

    /// The message asking `room_jid` for voice.
    pub fn build_voice_request(&self, room_jid: &str, nick: &str) -> (r: Element)
        ensures
            r@ == room_message(room_jid@, elem("decline"@, NS_MUC@)),
    {
        room_msg(room_jid, Element::new("decline", NS_MUC))
    }

    /// The message approving voice for `nick` in `room_jid`.
    pub fn build_approve_voice(&self, room_jid: &str, nick: &str) -> (r: Element)
        ensures
            r@ == room_message(room_jid@, elem("approve"@, NS_MUC@).with_attr("nick"@, nick@)),
    {
        room_msg(room_jid, Element::new("approve", NS_MUC).with_attr("nick", nick))
    }

    /// The message declining voice for `nick` in `room_jid`.
    pub fn build_decline_voice(&self, room_jid: &str, nick: &str) -> (r: Element)
        ensures
            r@ == room_message(room_jid@, elem("decline"@, NS_MUC@).with_attr("nick"@, nick@)),
    {
        room_msg(room_jid, Element::new("decline", NS_MUC).with_attr("nick", nick))
    }

    /// Reads a voice request.
    pub fn parse_voice_request(&self, el: &Element) -> (r: Option<VoiceRequest>)
        ensures
            r is None <==> voice_request_of(el@) is None,
            r matches Some(v) ==> v@ == voice_request_of(el@)->0,
    {
        let x = match el.get_child("x", NS_MUC) {
            Some(x) => x,
            None => return None,
        };
        let request = match x.get_child_named("request") {
            Some(r) => r,
            None => return None,
        };
        let room_jid = match el.attr("from") {
            Some(f) => f.to_owned(),
            None => return None,
        };
        let nick = match request.attr("nick") {
            Some(n) => n.to_owned(),
            None => return None,
        };
        Some(VoiceRequest { room_jid, nick, role: "participant".to_owned() })
    }

    /// Whether `el` carries a voice request.
    pub fn is_voice_request(&self, el: &Element) -> (b: bool)
        ensures
            b == is_request(el@),
    {
        let cs = el.children();
        let ghost csv = el@.children;
        let mut i: usize = 0;
        while i < cs.len()
            invariant
                i <= cs@.len(),
                csv == el@.children,
                cs@.len() == csv.len(),
                forall|j: int| 0 <= j < cs@.len() ==> #[trigger] cs@[j]@ == csv[j],
                forall|k: int| 0 <= k < i ==> !((#[trigger] csv[k]).name == "x"@ && csv[k].ns == NS_MUC@ && has_request(csv[k].children)),
            decreases cs@.len() - i,
        {
            let c = &cs[i];
            assert(c@ == csv[i as int]);
            if str_eq(c.name(), "x") && str_eq(c.ns(), NS_MUC) {
                let gs = c.children();
                let mut k: usize = 0;
                while k < gs.len()
                    invariant
                        k <= gs@.len(),
                        i < csv.len(),
                        csv == el@.children,
                        c@ == csv[i as int],
                        c@.name == "x"@ && c@.ns == NS_MUC@,
                        gs@.len() == c@.children.len(),
                        forall|j: int| 0 <= j < gs@.len() ==> #[trigger] gs@[j]@ == c@.children[j],
                        forall|j: int| 0 <= j < k ==> (#[trigger] c@.children[j]).name != "request"@,
                    decreases gs@.len() - k,
                {
                    if str_eq(gs[k].name(), "request") {
                        assert(c@.children[k as int].name == "request"@);
                        assert(has_request(c@.children));
                        assert(csv[i as int].name == "x"@);
                        return true;
                    }
                    k += 1;
                }
                assert(!has_request(c@.children));
            }
            i += 1;
        }
        false
    }
}

fn room_msg(room_jid: &str, payload: Element) -> (r: Element)
    ensures
        r@ == room_message(room_jid@, payload@),
{
    Element::new("message", NS_CLIENT).with_attr("to", room_jid).with_child(Element::new("x", NS_MUC).with_child(payload))
}

} // verus!
