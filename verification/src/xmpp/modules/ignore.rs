//! Per-room lists of ignored users, stored as private PubSub items.
use vstd::prelude::*;
use crate::util::maps::{StrMap, StrSet};
use crate::util::order::{sorted_members, strictly_sorted, strings_view};
use crate::util::strs::{concat, str_eq};
use crate::util::xml::{Element, ElementView, elem};
use super::{NS_CLIENT, NS_PUBSUB};

verus! {

broadcast use crate::util::xml::group_xml;

pub const IGNORE_NODE_PREFIX: &'static str = "xmpp-start:ignore:";
pub const NS_IGNORED: &'static str = "xmpp-start:ignored";

/// The `<ignored>` payload listing `users` in order.
pub open spec fn ignored_elem(users: Seq<Seq<char>>) -> ElementView
    decreases users.len(),
{
    if users.len() == 0 {
        elem("ignored"@, NS_IGNORED@)
    } else {
        ignored_elem(users.drop_last()).with_child(elem("user"@, NS_IGNORED@).with_attr("jid"@, users.last()))
    }
}

/// The PubSub publish `<iq>` that stores `users` as the ignore list of `room`.
pub open spec fn publish_iq(room: Seq<char>, users: Seq<Seq<char>>) -> ElementView {
    let item = elem("item"@, NS_PUBSUB@).with_attr("id"@, "current"@).with_child(ignored_elem(users));
    let publish = elem("publish"@, NS_PUBSUB@).with_attr("node"@, IGNORE_NODE_PREFIX@ + room).with_child(item);
    elem("iq"@, NS_CLIENT@).with_attr("type"@, "set"@).with_child(elem("pubsub"@, NS_PUBSUB@).with_child(publish))
}

/// The `<ignored>` payload of a stored list: the element itself when it is
/// named `ignored`, else the one under `<pubsub><items><item>`.
pub open spec fn find_ignored(e: ElementView) -> Option<ElementView> {
    if e.name == "ignored"@ {
        Some(e)
    } else {
        match e.child("pubsub"@, NS_PUBSUB@) {
            None => None,
            Some(ps) => match ps.child("items"@, NS_PUBSUB@) {
                None => None,
                Some(items) => match items.child("item"@, NS_PUBSUB@) {
                    None => None,
                    Some(item) => item.child("ignored"@, NS_IGNORED@),
                },
            },
        }
    }
}

/// The `jid` of each `<user>` among `cs`.
pub open spec fn user_jids(cs: Seq<ElementView>) -> Set<Seq<char>>
    decreases cs.len(),
{
    if cs.len() == 0 {
        Set::empty()
    } else {
        let acc = user_jids(cs.drop_last());
        let c = cs.last();
        if c.name == "user"@ && c.attr("jid"@) is Some {
            acc.insert(c.attr("jid"@)->0)
        } else {
            acc
        }
    }
}

pub struct IgnoreManager {
    lists: StrMap<StrSet>,
}

impl IgnoreManager {
    /// The ignored users of each room that has a list.
    pub closed spec fn lists(&self) -> Map<Seq<char>, Set<Seq<char>>> {
        self.lists.view().map_values(|s: StrSet| s.view())
    }

    /// The ignored users of `room`.
    pub open spec fn ignored_in(&self, room: Seq<char>) -> Set<Seq<char>> {
        if self.lists().contains_key(room) {
            self.lists()[room]
        } else {
            Set::empty()
        }
    }

    pub fn new() -> (r: Self)
        ensures
            r.lists() == Map::<Seq<char>, Set<Seq<char>>>::empty(),
    {
        let r = IgnoreManager { lists: StrMap::new() };
        assert(r.lists() =~= Map::<Seq<char>, Set<Seq<char>>>::empty());
        r
    }

    /// Adds `user_jid` to the list of `room_jid`.
    pub fn add(&mut self, room_jid: &str, user_jid: &str)
        ensures
            final(self).lists() == old(self).lists().insert(room_jid@, old(self).ignored_in(room_jid@).insert(user_jid@)),
    {
        let ghost old_lists = self.lists.view();
        let mut set = match self.lists.remove(room_jid) {
            Some(s) => s,
            None => StrSet::new(),
        };
        set.insert(user_jid.to_owned());
        self.lists.insert(room_jid.to_owned(), set);
        assert(self.lists() =~= old(self).lists().insert(room_jid@, old(self).ignored_in(room_jid@).insert(user_jid@)));
    }

    /// Removes `user_jid` from the list of `room_jid`, when the room has one.
    pub fn remove(&mut self, room_jid: &str, user_jid: &str)
        ensures
            old(self).lists().contains_key(room_jid@) ==> final(self).lists() == old(self).lists().insert(
                room_jid@,
                old(self).lists()[room_jid@].remove(user_jid@),
            ),
            !old(self).lists().contains_key(room_jid@) ==> final(self).lists() == old(self).lists(),
    {
        let ghost old_lists = self.lists.view();
        match self.lists.remove(room_jid) {
            Some(mut set) => {
                set.remove(user_jid);
                self.lists.insert(room_jid.to_owned(), set);
                assert(self.lists() =~= old(self).lists().insert(room_jid@, old(self).lists()[room_jid@].remove(user_jid@)));
            },
            None => {
                assert(self.lists() =~= old(self).lists());
            },
        }
    }

    /// Whether `user_jid` is ignored in `room_jid`.
    pub fn is_ignored(&self, room_jid: &str, user_jid: &str) -> (b: bool)
        ensures
            b == self.ignored_in(room_jid@).contains(user_jid@),
    {
        match self.lists.get(room_jid) {
            Some(set) => set.contains(user_jid),
            None => false,
        }
    }

    /// The ignored users of `room_jid`, in increasing order.
    pub fn list(&self, room_jid: &str) -> (r: Vec<String>)
        ensures
            strictly_sorted(strings_view(r@)),
            strings_view(r@).to_set() == self.ignored_in(room_jid@),
    {
        match self.lists.get(room_jid) {
            Some(set) => sorted_members(set),
            None => {
                let v: Vec<String> = Vec::new();
                assert(strings_view(v@).to_set() =~= Set::<Seq<char>>::empty());
                v
            },
        }
    }

    /// The publish `<iq>` that stores the list of `room_jid`, its users in increasing order.
    pub fn build_publish_iq(&self, room_jid: &str) -> (r: Element)
        ensures
            exists|users: Seq<Seq<char>>| {
                &&& strictly_sorted(users)
                &&& users.to_set() == self.ignored_in(room_jid@)
                &&& r@ == publish_iq(room_jid@, users)
            },
    {
        let users = self.list(room_jid);
        let ghost uv = strings_view(users@);
        let mut ignored = Element::new("ignored", NS_IGNORED);
        let mut i: usize = 0;
        while i < users.len()
            invariant
                i <= users@.len(),
                uv == strings_view(users@),
                ignored@ == ignored_elem(uv.take(i as int)),
            decreases users.len() - i,
        {
            proof {
                assert(uv.take(i + 1).drop_last() =~= uv.take(i as int));
                assert(uv.take(i + 1).last() == users@[i as int]@);
            }
            ignored.push_child(Element::new("user", NS_IGNORED).with_attr("jid", users[i].as_str()));
            i += 1;
        }
        assert(uv.take(i as int) =~= uv);
        let node = concat(IGNORE_NODE_PREFIX, room_jid);
        let item = Element::new("item", NS_PUBSUB).with_attr("id", "current").with_child(ignored);
        let publish = Element::new("publish", NS_PUBSUB).with_attr("node", node.as_str()).with_child(item);
        let r = Element::new("iq", NS_CLIENT).with_attr("type", "set").with_child(Element::new("pubsub", NS_PUBSUB).with_child(publish));
        assert(r@ == publish_iq(room_jid@, uv));
        r
    }

    /// Restores the list of `room_jid` from a stored `<ignored>` payload (bare,
    /// or inside a PubSub items result); without one, nothing changes.
    pub fn parse_result(&mut self, room_jid: &str, el: &Element)
        ensures
            find_ignored(el@) is None ==> final(self).lists() == old(self).lists(),
            find_ignored(el@) matches Some(ig) ==> final(self).lists() == old(self).lists().insert(room_jid@, user_jids(ig.children)),
    {
        let ignored = match find_ignored_el(el) {
            Some(i) => i,
            None => return,
        };
        let cs = ignored.children();
        let ghost csv = ignored@.children;
        let mut set = StrSet::new();
        let mut i: usize = 0;
        while i < cs.len()
            invariant
                i <= cs@.len(),
                csv == ignored@.children,
                cs@.len() == csv.len(),
                forall|j: int| 0 <= j < cs@.len() ==> #[trigger] cs@[j]@ == csv[j],
                set.view() == user_jids(csv.take(i as int)),
            decreases cs@.len() - i,
        {
            let c = &cs[i];
            proof {
                assert(csv.take(i + 1).drop_last() =~= csv.take(i as int));
                assert(csv.take(i + 1).last() == c@);
            }
            if str_eq(c.name(), "user") {
                match c.attr("jid") {
                    Some(j) => set.insert(j.to_owned()),
                    None => {},
                }
            }
            i += 1;
        }
        assert(csv.take(cs@.len() as int) =~= csv);
        let ghost old_lists = self.lists.view();
        self.lists.insert(room_jid.to_owned(), set);
        assert(self.lists() =~= old(self).lists().insert(room_jid@, user_jids(csv)));
    }
}

/// The stored `<ignored>` payload in `el`.
fn find_ignored_el(el: &Element) -> (r: Option<&Element>)
    ensures
        r is None <==> find_ignored(el@) is None,
        r matches Some(x) ==> find_ignored(el@) == Some(x@),
{
    if str_eq(el.name(), "ignored") {
        return Some(el);
    }
    let pubsub = match el.get_child("pubsub", NS_PUBSUB) {
        Some(p) => p,
        None => return None,
    };
    let items = match pubsub.get_child("items", NS_PUBSUB) {
        Some(p) => p,
        None => return None,
    };
    let item = match items.get_child("item", NS_PUBSUB) {
        Some(p) => p,
        None => return None,
    };
    item.get_child("ignored", NS_IGNORED)
}

} // verus!
