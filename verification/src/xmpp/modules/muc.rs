//! Multi-user chat (XEP-0045): joining and leaving rooms, the occupants of
//! each room from presence, groupchat messages, and invitations (XEP-0249).
use vstd::prelude::*;
use crate::util::ext::{is_uuid_v4_text, new_uuid};
use crate::util::maps::StrMap;
use crate::util::strs::{chars_of, concat, first_index, str_eq, string_of_range, find_char};
use crate::util::xml::{Element, ElementView, elem};
use super::{NS_CLIENT, NS_MUC, NS_MUC_USER, NS_X_CONFERENCE};

verus! {

broadcast use crate::util::xml::group_xml;

/// The role of an occupant.
#[derive(Debug, Clone, Copy, PartialEq, Eq, Structural)]
pub enum Role {
    Moderator,
    Participant,
    Visitor,
    /// The role `none`.
    NoRole,
}

/// The affiliation of an occupant.
#[derive(Debug, Clone, Copy, PartialEq, Eq, Structural)]
pub enum Affiliation {
    Owner,
    Admin,
    Member,
    Outcast,
    /// The affiliation `none`.
    NoAffiliation,
}

pub open spec fn role_of(s: Seq<char>) -> Role {
    if s == "moderator"@ {
        Role::Moderator
    } else if s == "participant"@ {
        Role::Participant
    } else if s == "visitor"@ {
        Role::Visitor
    } else {
        Role::NoRole
    }
}

pub open spec fn affiliation_of(s: Seq<char>) -> Affiliation {
    if s == "owner"@ {
        Affiliation::Owner
    } else if s == "admin"@ {
        Affiliation::Admin
    } else if s == "member"@ {
        Affiliation::Member
    } else if s == "outcast"@ {
        Affiliation::Outcast
    } else {
        Affiliation::NoAffiliation
    }
}

impl Role {
    /// The role named `s`; any other name is the absent one.
    pub fn from_str(s: &str) -> (r: Role)
        ensures
            r == role_of(s@),
    {
        if str_eq(s, "moderator") {
            Role::Moderator
        } else if str_eq(s, "participant") {
            Role::Participant
        } else if str_eq(s, "visitor") {
            Role::Visitor
        } else {
            Role::NoRole
        }
    }
}

impl Affiliation {
    /// The affiliation named `s`; any other name is the absent one.
    pub fn from_str(s: &str) -> (r: Affiliation)
        ensures
            r == affiliation_of(s@),
    {
        if str_eq(s, "owner") {
            Affiliation::Owner
        } else if str_eq(s, "admin") {
            Affiliation::Admin
        } else if str_eq(s, "member") {
            Affiliation::Member
        } else if str_eq(s, "outcast") {
            Affiliation::Outcast
        } else {
            Affiliation::NoAffiliation
        }
    }
}

/// An occupant of a room.
#[derive(Debug, Clone)]
pub struct Occupant {
    pub nick: String,
    pub jid: Option<String>,
    pub role: Role,
    pub affiliation: Affiliation,
    pub available: bool,
}

/// A room we joined: its address, our nickname, its subject and its occupants by nickname.
#[derive(Debug)]
pub struct MucRoom {
    pub jid: String,
    pub nickname: String,
    pub subject: String,
    pub occupants: StrMap<Occupant>,
}

/// A message of a room.
#[derive(Debug, Clone)]
pub struct MucMessage {
    pub room_jid: String,
    pub from_nick: String,
    pub body: String,
    pub id: String,
}

pub struct OccupantView {
    pub nick: Seq<char>,
    pub jid: Option<Seq<char>>,
    pub role: Role,
    pub affiliation: Affiliation,
    pub available: bool,
}

pub struct MucRoomView {
    pub jid: Seq<char>,
    pub nickname: Seq<char>,
    pub subject: Seq<char>,
    pub occupants: Map<Seq<char>, OccupantView>,
}

pub struct MucMessageView {
    pub room_jid: Seq<char>,
    pub from_nick: Seq<char>,
    pub body: Seq<char>,
    pub id: Seq<char>,
}

impl View for Occupant {
    type V = OccupantView;

    open spec fn view(&self) -> OccupantView {
        OccupantView {
            nick: self.nick@,
            jid: match self.jid {
                Some(j) => Some(j@),
                None => None,
            },
            role: self.role,
            affiliation: self.affiliation,
            available: self.available,
        }
    }
}

impl View for MucRoom {
    type V = MucRoomView;

    open spec fn view(&self) -> MucRoomView {
        MucRoomView {
            jid: self.jid@,
            nickname: self.nickname@,
            subject: self.subject@,
            occupants: self.occupants.view().map_values(|o: Occupant| o@),
        }
    }
}

impl View for MucMessage {
    type V = MucMessageView;

    open spec fn view(&self) -> MucMessageView {
        MucMessageView { room_jid: self.room_jid@, from_nick: self.from_nick@, body: self.body@, id: self.id@ }
    }
}

/// What the `<x>` items of a presence say of an occupant.
pub struct OccupantInfo {
    pub role: Role,
    pub affiliation: Affiliation,
    pub jid: Option<Seq<char>>,
}

/// `info` updated by the `<item>` elements among `items`, later ones overriding earlier ones.
pub open spec fn items_fold(info: OccupantInfo, items: Seq<ElementView>) -> OccupantInfo
    decreases items.len(),
{
    if items.len() == 0 {
        info
    } else {
        let a = items_fold(info, items.drop_last());
        let it = items.last();
        if it.name == "item"@ {
            OccupantInfo {
                role: match it.attr("role"@) {
                    Some(r) => role_of(r),
                    None => a.role,
                },
                affiliation: match it.attr("affiliation"@) {
                    Some(f) => affiliation_of(f),
                    None => a.affiliation,
                },
                jid: match it.attr("jid"@) {
                    Some(j) => Some(j),
                    None => a.jid,
                },
            }
        } else {
            a
        }
    }
}

/// What the MUC `<x>` children among `cs` say of an occupant.
pub open spec fn presence_info(cs: Seq<ElementView>) -> OccupantInfo
    decreases cs.len(),
{
    if cs.len() == 0 {
        OccupantInfo { role: Role::NoRole, affiliation: Affiliation::NoAffiliation, jid: None }
    } else {
        let a = presence_info(cs.drop_last());
        let c = cs.last();
        if c.name == "x"@ && c.ns == NS_MUC_USER@ {
            items_fold(a, c.children)
        } else {
            a
        }
    }
}

/// `s` split at its first `/`.
pub open spec fn split_slash(s: Seq<char>) -> Option<(Seq<char>, Seq<char>)> {
    match first_index(s, '/') {
        Some(i) => Some((s.take(i), s.skip(i + 1))),
        None => None,
    }
}

/// The join presence to `room/nick`.
pub open spec fn join_presence(room: Seq<char>, nick: Seq<char>) -> ElementView {
    elem("presence"@, NS_CLIENT@).with_attr("to"@, room + "/"@ + nick).with_child(elem("x"@, NS_MUC@))
}

/// The body of a groupchat message: the text of its first `<body>`.
pub open spec fn body_of(el: ElementView) -> Option<Seq<char>> {
    match el.child_named("body"@) {
        Some(b) => Some(b.text),
        None => None,
    }
}

/// Whether `el` is a groupchat message from `room/nick` with a non-empty body.
pub open spec fn is_room_message(el: ElementView) -> bool {
    &&& el.name == "message"@
    &&& el.attr("type"@) == Some("groupchat"@)
    &&& el.attr("from"@) matches Some(from)
    &&& split_slash(from) is Some
    &&& body_of(el) matches Some(b)
    &&& b.len() > 0
}

/// The joined rooms after a presence of `room/nick`: an unavailable
/// presence removes the occupant, any other adds or replaces it with what
/// its MUC items say; presences from elsewhere change nothing.
pub open spec fn rooms_after_presence(rooms: Map<Seq<char>, MucRoomView>, e: ElementView) -> Map<Seq<char>, MucRoomView> {
    match e.attr("from"@) {
        None => rooms,
        Some(from) => match split_slash(from) {
            None => rooms,
            Some((room, nick)) => if !rooms.contains_key(room) {
                rooms
            } else {
                let r = rooms[room];
                if e.attr("type"@) == Some("unavailable"@) {
                    rooms.insert(room, MucRoomView { occupants: r.occupants.remove(nick), ..r })
                } else {
                    let info = presence_info(e.children);
                    rooms.insert(
                        room,
                        MucRoomView {
                            occupants: r.occupants.insert(
                                nick,
                                OccupantView { nick, jid: info.jid, role: info.role, affiliation: info.affiliation, available: true },
                            ),
                            ..r
                        },
                    )
                }
            },
        },
    }
}

pub struct MucManager {
    rooms: StrMap<MucRoom>,
}

impl MucManager {
    /// The joined rooms by address.
    pub closed spec fn rooms(&self) -> Map<Seq<char>, MucRoomView> {
        self.rooms.view().map_values(|r: MucRoom| r@)
    }

    pub fn new() -> (r: Self)
        ensures
            r.rooms() == Map::<Seq<char>, MucRoomView>::empty(),
    {
        let r = MucManager { rooms: StrMap::new() };
        assert(r.rooms() =~= Map::<Seq<char>, MucRoomView>::empty());
        r
    }

    /// The number of joined rooms.
    pub fn room_count(&self) -> (n: usize)
        ensures
            n == self.rooms().len(),
    {
        assert(self.rooms().dom() =~= self.rooms.view().dom());
        self.rooms.len()
    }

    /// The room `room_jid`, when joined.
    pub fn room(&self, room_jid: &str) -> (r: Option<&MucRoom>)
        ensures
            r is None <==> !self.rooms().contains_key(room_jid@),
            r matches Some(x) ==> self.rooms()[room_jid@] == x@,
    {
        self.rooms.get(room_jid)
    }

    /// Records the room as joined with no subject or occupants, and returns the join presence.
    pub fn join_room(&mut self, room_jid: &str, nickname: &str) -> (r: Element)
        ensures
            r@ == join_presence(room_jid@, nickname@),
            final(self).rooms() == old(self).rooms().insert(
                room_jid@,
                MucRoomView { jid: room_jid@, nickname: nickname@, subject: Seq::empty(), occupants: Map::empty() },
            ),
    {
        let room = MucRoom { jid: room_jid.to_owned(), nickname: nickname.to_owned(), subject: String::new(), occupants: StrMap::new() };
        assert(room@.occupants =~= Map::<Seq<char>, OccupantView>::empty());
        self.rooms.insert(room_jid.to_owned(), room);
        assert(self.rooms() =~= old(self).rooms().insert(
            room_jid@,
            MucRoomView { jid: room_jid@, nickname: nickname@, subject: Seq::empty(), occupants: Map::empty() },
        ));
        let a = concat(room_jid, "/");
        let to = concat(a.as_str(), nickname);
        Element::new("presence", NS_CLIENT).with_attr("to", to.as_str()).with_child(Element::new("x", NS_MUC))
    }

    /// Forgets the room and returns the unavailable presence to our nickname in it.
    pub fn leave_room(&mut self, room_jid: &str) -> (r: Option<Element>)
        ensures
            r is None <==> !old(self).rooms().contains_key(room_jid@),
            final(self).rooms() == old(self).rooms().remove(room_jid@),
            r matches Some(e) ==> e@ == elem("presence"@, NS_CLIENT@).with_attr(
                "to"@,
                room_jid@ + "/"@ + old(self).rooms()[room_jid@].nickname,
            ).with_attr("type"@, "unavailable"@),
    {
        let room = match self.rooms.remove(room_jid) {
            Some(r) => r,
            None => {
                assert(self.rooms() =~= old(self).rooms().remove(room_jid@));
                return None;
            },
        };
        assert(self.rooms() =~= old(self).rooms().remove(room_jid@));
        let a = concat(room_jid, "/");
        let to = concat(a.as_str(), room.nickname.as_str());
        Some(Element::new("presence", NS_CLIENT).with_attr("to", to.as_str()).with_attr("type", "unavailable"))
    }

    /// Updates the occupants of a joined room from a presence of `room/nick`:
    /// an unavailable presence removes the occupant, any other adds or
    /// replaces it with what its MUC items say.
    pub fn on_presence(&mut self, el: &Element)
        ensures
            final(self).rooms() == rooms_after_presence(old(self).rooms(), el@),
    {
        let from = match el.attr("from") {
            Some(f) => f,
            None => return,
        };
        let (room_jid, nick) = match split_at_slash(from) {
            Some(p) => p,
            None => return,
        };
        let mut room = match self.rooms.remove(room_jid.as_str()) {
            Some(r) => r,
            None => {
                assert(self.rooms() =~= old(self).rooms());
                return;
            },
        };
        let ghost r0 = room@;
        if el.attr_is("type", "unavailable") {
            room.occupants.remove(nick.as_str());
            assert(room@.occupants =~= r0.occupants.remove(nick@));
        } else {
            let (role, affiliation, jid) = read_presence_info(el);
            let occ = Occupant { nick: nick.clone(), jid, role, affiliation, available: true };
            room.occupants.insert(nick.clone(), occ);
            assert(room@.occupants =~= r0.occupants.insert(nick@, occ@));
        }
        let ghost rv = room@;
        self.rooms.insert(room_jid.clone(), room);
        assert(self.rooms() =~= old(self).rooms().insert(room_jid@, rv));
    }

    /// Reads a groupchat message with a non-empty body from `room/nick`; its
    /// id is the stanza's, or a fresh one.
    pub fn on_groupchat_message(&self, el: &Element) -> (r: Option<MucMessage>)
        ensures
            r is Some <==> is_room_message(el@),
            r matches Some(m) ==> {
                let (room, nick) = split_slash(el@.attr("from"@)->0)->0;
                &&& m@.room_jid == room
                &&& m@.from_nick == nick
                &&& m@.body == body_of(el@)->0
                &&& (el@.attr("id"@) matches Some(id) ==> m@.id == id)
                &&& (el@.attr("id"@) is None ==> is_uuid_v4_text(m@.id))
            },
    {
        if !str_eq(el.name(), "message") || !el.attr_is("type", "groupchat") {
            return None;
        }
        let from = match el.attr("from") {
            Some(f) => f,
            None => return None,
        };
        let (room_jid, from_nick) = match split_at_slash(from) {
            Some(p) => p,
            None => return None,
        };
        let body = match el.get_child_named("body") {
            Some(b) => b.text(),
            None => return None,
        };
        if body.as_str().is_empty() {
            return None;
        }
        let id = match el.attr("id") {
            Some(i) => i.to_owned(),
            None => new_uuid(),
        };
        Some(MucMessage { room_jid, from_nick, body, id })
    }

    /// A direct invitation of `user` to `room`, with the reason when it is non-empty.
    pub fn build_invitation(room: &str, user: &str, reason: Option<&str>) -> (r: Element)
        ensures
            ({
                let x = elem("x"@, NS_X_CONFERENCE@).with_attr("jid"@, room@);
                let x2 = match reason {
                    Some(t) => if t@.len() > 0 { x.with_child(elem("reason"@, NS_CLIENT@).with_text(t@)) } else { x },
                    None => x,
                };
                r@ == elem("message"@, NS_CLIENT@).with_attr("to"@, user@).with_child(x2)
            }),
    {
        let mut x = Element::new("x", NS_X_CONFERENCE).with_attr("jid", room);
        match reason {
            Some(t) => {
                if !t.is_empty() {
                    x = x.with_child(Element::new("reason", NS_CLIENT).with_text(t));
                }
            },
            None => {},
        }
        Element::new("message", NS_CLIENT).with_attr("to", user).with_child(x)
    }
}

/// `s` split at its first `/`.
fn split_at_slash(s: &str) -> (r: Option<(String, String)>)
    ensures
        r is None <==> split_slash(s@) is None,
        r matches Some(p) ==> split_slash(s@) == Some((p.0@, p.1@)),
{
    let v = chars_of(s);
    match find_char(&v, '/') {
        Some(i) => {
            let a = string_of_range(&v, 0, i);
            let b = string_of_range(&v, i + 1, v.len());
            assert(a@ =~= s@.take(i as int));
            assert(b@ =~= s@.skip(i + 1));
            Some((a, b))
        },
        None => None,
    }
}

/// The role, affiliation and real address that the MUC items of a presence give.
fn read_presence_info(el: &Element) -> (r: (Role, Affiliation, Option<String>))
    ensures
        ({
            let info = presence_info(el@.children);
            &&& r.0 == info.role
            &&& r.1 == info.affiliation
            &&& (match r.2 { Some(j) => Some(j@), None => None }) == info.jid
        }),
{
    let cs = el.children();
    let ghost csv = el@.children;
    let mut role = Role::NoRole;
    let mut affiliation = Affiliation::NoAffiliation;
    let mut jid: Option<String> = None;
    let mut i: usize = 0;
    while i < cs.len()
        invariant
            i <= cs@.len(),
            csv == el@.children,
            cs@.len() == csv.len(),
            forall|j: int| 0 <= j < cs@.len() ==> #[trigger] cs@[j]@ == csv[j],
            ({
                let info = presence_info(csv.take(i as int));
                &&& role == info.role
                &&& affiliation == info.affiliation
                &&& (match jid { Some(j) => Some(j@), None => None }) == info.jid
            }),
        decreases cs@.len() - i,
    {
        let c = &cs[i];
        proof {
            assert(csv.take(i + 1).drop_last() =~= csv.take(i as int));
            assert(csv.take(i + 1).last() == c@);
        }
        if str_eq(c.name(), "x") && str_eq(c.ns(), NS_MUC_USER) {
            let ghost start = presence_info(csv.take(i as int));
            let items = c.children();
            let ghost iv = c@.children;
            let mut k: usize = 0;
            while k < items.len()
                invariant
                    k <= items@.len(),
                    iv == c@.children,
                    items@.len() == iv.len(),
                    forall|j: int| 0 <= j < items@.len() ==> #[trigger] items@[j]@ == iv[j],
                    ({
                        let info = items_fold(start, iv.take(k as int));
                        &&& role == info.role
                        &&& affiliation == info.affiliation
                        &&& (match jid { Some(j) => Some(j@), None => None }) == info.jid
                    }),
                decreases items@.len() - k,
            {
                let it = &items[k];
                proof {
                    assert(iv.take(k + 1).drop_last() =~= iv.take(k as int));
                    assert(iv.take(k + 1).last() == it@);
                }
                if str_eq(it.name(), "item") {
                    match it.attr("role") {
                        Some(r) => role = Role::from_str(r),
                        None => {},
                    }
                    match it.attr("affiliation") {
                        Some(a) => affiliation = Affiliation::from_str(a),
                        None => {},
                    }
                    match it.attr("jid") {
                        Some(j) => jid = Some(j.to_owned()),
                        None => {},
                    }
                }
                k += 1;
            }
            assert(iv.take(items@.len() as int) =~= iv);
        }
        i += 1;
    }
    assert(csv.take(cs@.len() as int) =~= csv);
    (role, affiliation, jid)
}

/// Each XEP-0045 affiliation name gives its own affiliation, and no other
/// name gives any of them: every other name is the absent affiliation.
pub proof fn law_affiliation_names(s: Seq<char>)
    ensures
        (affiliation_of(s) == Affiliation::Owner) <==> s == "owner"@,
        (affiliation_of(s) == Affiliation::Admin) <==> s == "admin"@,
        (affiliation_of(s) == Affiliation::Member) <==> s == "member"@,
        (affiliation_of(s) == Affiliation::Outcast) <==> s == "outcast"@,
        (affiliation_of(s) == Affiliation::NoAffiliation) <==> !(s == "owner"@ || s == "admin"@ || s == "member"@ || s
            == "outcast"@),
{
    reveal_strlit("owner");
    reveal_strlit("admin");
    reveal_strlit("member");
    reveal_strlit("outcast");
    assert("owner"@ != "admin"@ && "owner"@ != "member"@ && "owner"@ != "outcast"@) by {
        assert("owner"@[0] != "admin"@[0] && "owner"@.len() != "member"@.len() && "owner"@.len() != "outcast"@.len());
    }
    assert("admin"@ != "member"@ && "admin"@ != "outcast"@) by {
        assert("admin"@.len() != "member"@.len() && "admin"@.len() != "outcast"@.len());
    }
    assert("member"@ != "outcast"@) by {
        assert("member"@.len() != "outcast"@.len());
    }
}

/// Each XEP-0045 role name gives its own role, and no other name gives any
/// of them: every other name is the absent role.
pub proof fn law_role_names(s: Seq<char>)
    ensures
        (role_of(s) == Role::Moderator) <==> s == "moderator"@,
        (role_of(s) == Role::Participant) <==> s == "participant"@,
        (role_of(s) == Role::Visitor) <==> s == "visitor"@,
        (role_of(s) == Role::NoRole) <==> !(s == "moderator"@ || s == "participant"@ || s == "visitor"@),
{
    reveal_strlit("moderator");
    reveal_strlit("participant");
    reveal_strlit("visitor");
    assert("moderator"@ != "participant"@ && "moderator"@ != "visitor"@ && "participant"@ != "visitor"@) by {
        assert("moderator"@.len() != "participant"@.len() && "moderator"@.len() != "visitor"@.len() && "participant"@.len()
            != "visitor"@.len());
    }
}

/// A presence whose only child is a MUC `<x>` holding one `<item>` gives the
/// occupant the role and affiliation that the item names, and its JID.
pub proof fn law_presence_item(x: ElementView, it: ElementView, r: Seq<char>, f: Seq<char>)
    requires
        x.name == "x"@,
        x.ns == NS_MUC_USER@,
        x.children == seq![it],
        it.name == "item"@,
        it.attr("role"@) == Some(r),
        it.attr("affiliation"@) == Some(f),
    ensures
        presence_info(seq![x]).role == role_of(r),
        presence_info(seq![x]).affiliation == affiliation_of(f),
        presence_info(seq![x]).jid == it.attr("jid"@),
{
    assert(seq![x].drop_last() =~= Seq::<ElementView>::empty());
    assert(x.children.drop_last() =~= Seq::<ElementView>::empty());
    let base = OccupantInfo { role: Role::NoRole, affiliation: Affiliation::NoAffiliation, jid: None };
    assert(presence_info(seq![x].drop_last()) == base);
    assert(seq![x].last() == x);
    assert(presence_info(seq![x]) == items_fold(base, x.children));
    assert(items_fold(base, x.children.drop_last()) == base);
    match it.attr("jid"@) {
        Some(j) => assert(items_fold(base, x.children).jid == Some(j)),
        None => assert(items_fold(base, x.children).jid == base.jid),
    }
}

} // verus!
