//! Blocking command (XEP-0191): the set of blocked addresses, the stanzas that
//! change it, and the server's lists and pushes.
use vstd::prelude::*;
use crate::util::ext::{is_uuid_v4_text, new_uuid};
use crate::util::maps::StrSet;
use crate::util::order::{sorted_members, strictly_sorted, strings_view};
use crate::util::strs::str_eq;
use crate::util::xml::{Element, ElementView, elem};
use super::NS_CLIENT;

verus! {

broadcast use crate::util::xml::group_xml;

pub const NS_BLOCKING: &'static str = "urn:xmpp:blocking";

/// The characters of each address.
pub open spec fn jids_view(jids: Seq<&str>) -> Seq<Seq<char>> {
    Seq::new(jids.len(), |i: int| jids[i]@)
}

/// `<name>` with one `<item jid=..>` per address, in order.
pub open spec fn item_list(name: Seq<char>, jids: Seq<Seq<char>>) -> ElementView
    decreases jids.len(),
{
    if jids.len() == 0 {
        elem(name, NS_BLOCKING@)
    } else {
        item_list(name, jids.drop_last()).with_child(elem("item"@, NS_BLOCKING@).with_attr("jid"@, jids.last()))
    }
}

/// An `<iq>` of type `ty` and id `id` around `payload`.
pub open spec fn iq_with(ty: Seq<char>, id: Seq<char>, payload: ElementView) -> ElementView {
    elem("iq"@, NS_CLIENT@).with_attr("type"@, ty).with_attr("id"@, id).with_child(payload)
}

/// The `jid` of each `<item>` among `cs`.
pub open spec fn item_jids(cs: Seq<ElementView>) -> Set<Seq<char>>
    decreases cs.len(),
{
    if cs.len() == 0 {
        Set::empty()
    } else {
        let acc = item_jids(cs.drop_last());
        let c = cs.last();
        if c.name == "item"@ && c.attr("jid"@) is Some {
            acc.insert(c.attr("jid"@)->0)
        } else {
            acc
        }
    }
}

pub struct BlockingManager {
    blocked: StrSet,
}

impl BlockingManager {
    /// The blocked addresses.
    pub closed spec fn blocked(&self) -> Set<Seq<char>> {
        self.blocked.view()
    }

    pub fn new() -> (r: Self)
        ensures
            r.blocked() == Set::<Seq<char>>::empty(),
    {
        BlockingManager { blocked: StrSet::new() }
    }

    /// The request for the block list.
    pub fn build_fetch_iq(&self) -> (r: Element)
        ensures
            r@.attr("id"@) matches Some(id) && is_uuid_v4_text(id) && r@ == iq_with("get"@, id, elem("blocklist"@, NS_BLOCKING@)),
    {
        let id = new_uuid();
        let r = Element::new("iq", NS_CLIENT).with_attr("type", "get").with_attr("id", id.as_str()).with_child(
            Element::new("blocklist", NS_BLOCKING),
        );
        proof {
            reveal_strlit("type");
            reveal_strlit("id");
            assert("type"@.len() == 4);
        }
        assert(r@.attr("id"@) == Some(id@));
        r
    }

    /// The request that blocks `jids`.
    pub fn build_block_iq(&mut self, jids: &[&str]) -> (r: Element)
        ensures
            r@.attr("id"@) matches Some(id) && is_uuid_v4_text(id) && r@ == iq_with("set"@, id, item_list("block"@, jids_view(jids@))),
            final(self).blocked() == old(self).blocked(),
    {
        let payload = items_element("block", jids);
        let id = new_uuid();
        let r = Element::new("iq", NS_CLIENT).with_attr("type", "set").with_attr("id", id.as_str()).with_child(payload);
        proof {
            reveal_strlit("type");
            reveal_strlit("id");
            assert("type"@.len() == 4);
        }
        assert(r@.attr("id"@) == Some(id@));
        r
    }

    /// The request that unblocks `jids`.
    pub fn build_unblock_iq(&mut self, jids: &[&str]) -> (r: Element)
        ensures
            r@.attr("id"@) matches Some(id) && is_uuid_v4_text(id) && r@ == iq_with("set"@, id, item_list("unblock"@, jids_view(jids@))),
            final(self).blocked() == old(self).blocked(),
    {
        let payload = items_element("unblock", jids);
        let id = new_uuid();
        let r = Element::new("iq", NS_CLIENT).with_attr("type", "set").with_attr("id", id.as_str()).with_child(payload);
        proof {
            reveal_strlit("type");
            reveal_strlit("id");
            assert("type"@.len() == 4);
        }
        assert(r@.attr("id"@) == Some(id@));
        r
    }

    /// Takes the block list of a result: it replaces the set.
    pub fn on_blocklist_result(&mut self, el: &Element)
        ensures
            el@.attr("type"@) == Some("result"@) && el@.child("blocklist"@, NS_BLOCKING@) is Some ==> final(self).blocked()
                == item_jids(el@.child("blocklist"@, NS_BLOCKING@)->0.children),
            !(el@.attr("type"@) == Some("result"@) && el@.child("blocklist"@, NS_BLOCKING@) is Some) ==> final(self).blocked()
                == old(self).blocked(),
    {
        if !el.attr_is("type", "result") {
            return;
        }
        let list = match el.get_child("blocklist", NS_BLOCKING) {
            Some(l) => l,
            None => return,
        };
        self.blocked = collect_item_jids(list);
    }

    /// A block push: its items join the set.
    pub fn on_block_push(&mut self, el: &Element)
        ensures
            el@.attr("type"@) == Some("set"@) && el@.child("block"@, NS_BLOCKING@) is Some ==> final(self).blocked()
                == old(self).blocked().union(item_jids(el@.child("block"@, NS_BLOCKING@)->0.children)),
            !(el@.attr("type"@) == Some("set"@) && el@.child("block"@, NS_BLOCKING@) is Some) ==> final(self).blocked()
                == old(self).blocked(),
    {
        if !el.attr_is("type", "set") {
            return;
        }
        let block = match el.get_child("block", NS_BLOCKING) {
            Some(l) => l,
            None => return,
        };
        let added = collect_item_jids(block);
        added.facts();
        let mut i: usize = 0;
        let n = added.len();
        let ghost start = self.blocked();
        while i < n
            invariant
                i <= n,
                n == added.items().len(),
                self.blocked() == start.union(added.items().take(i as int).to_set()),
            decreases n - i,
        {
            let x = added.item_at(i).clone();
            self.blocked.insert(x);
            proof {
                assert(added.items().take(i + 1) =~= added.items().take(i as int).push(added.items()[i as int]));
                added.items().take(i as int).lemma_push_to_set_commute(added.items()[i as int]);
            }
            i += 1;
            assert(self.blocked() =~= start.union(added.items().take(i as int).to_set()));
        }
        assert(added.items().take(n as int) =~= added.items());
        assert(added.items().to_set() =~= added.view());
    }

    /// An unblock push: its items leave the set; with no items, every address does.
    pub fn on_unblock_push(&mut self, el: &Element)
        ensures
            el@.attr("type"@) == Some("set"@) && el@.child("unblock"@, NS_BLOCKING@) is Some ==> {
                let gone = item_jids(el@.child("unblock"@, NS_BLOCKING@)->0.children);
                &&& gone.is_empty() ==> final(self).blocked() == Set::<Seq<char>>::empty()
                &&& !gone.is_empty() ==> final(self).blocked() == old(self).blocked().difference(gone)
            },
            !(el@.attr("type"@) == Some("set"@) && el@.child("unblock"@, NS_BLOCKING@) is Some) ==> final(self).blocked()
                == old(self).blocked(),
    {
        if !el.attr_is("type", "set") {
            return;
        }
        let unblock = match el.get_child("unblock", NS_BLOCKING) {
            Some(l) => l,
            None => return,
        };
        let gone = collect_item_jids(unblock);
        gone.facts();
        if gone.is_empty() {
            self.blocked.clear();
            return;
        }
        let mut i: usize = 0;
        let n = gone.len();
        let ghost start = self.blocked();
        while i < n
            invariant
                i <= n,
                n == gone.items().len(),
                self.blocked() == start.difference(gone.items().take(i as int).to_set()),
            decreases n - i,
        {
            self.blocked.remove(gone.item_at(i).as_str());
            proof {
                assert(gone.items().take(i + 1) =~= gone.items().take(i as int).push(gone.items()[i as int]));
                gone.items().take(i as int).lemma_push_to_set_commute(gone.items()[i as int]);
            }
            i += 1;
            assert(self.blocked() =~= start.difference(gone.items().take(i as int).to_set()));
        }
        assert(gone.items().take(n as int) =~= gone.items());
        assert(gone.items().to_set() =~= gone.view());
    }

    /// Whether `jid` is blocked.
    pub fn is_blocked(&self, jid: &str) -> (b: bool)
        ensures
            b == self.blocked().contains(jid@),
    {
        self.blocked.contains(jid)
    }

    /// The blocked addresses in increasing order.
    pub fn blocked_list(&self) -> (r: Vec<String>)
        ensures
            strictly_sorted(strings_view(r@)),
            strings_view(r@).to_set() == self.blocked(),
    {
        sorted_members(&self.blocked)
    }
}

/// `<name>` listing `jids` as items.
fn items_element(name: &str, jids: &[&str]) -> (r: Element)
    ensures
        r@ == item_list(name@, jids_view(jids@)),
{
    let ghost jv = jids_view(jids@);
    let mut e = Element::new(name, NS_BLOCKING);
    let mut i: usize = 0;
    while i < jids.len()
        invariant
            i <= jids@.len(),
            jv == jids_view(jids@),
            e@ == item_list(name@, jv.take(i as int)),
        decreases jids.len() - i,
    {
        proof {
            assert(jv.take(i + 1).drop_last() =~= jv.take(i as int));
            assert(jv.take(i + 1).last() == jids@[i as int]@);
        }
        e.push_child(Element::new("item", NS_BLOCKING).with_attr("jid", jids[i]));
        i += 1;
    }
    assert(jv.take(i as int) =~= jv);
    e
}

/// The `jid` of each `<item>` child of `e`.
fn collect_item_jids(e: &Element) -> (r: StrSet)
    ensures
        r.view() == item_jids(e@.children),
{
    let cs = e.children();
    let ghost csv = e@.children;
    let mut set = StrSet::new();
    let mut i: usize = 0;
    while i < cs.len()
        invariant
            i <= cs@.len(),
            csv == e@.children,
            cs@.len() == csv.len(),
            forall|j: int| 0 <= j < cs@.len() ==> #[trigger] cs@[j]@ == csv[j],
            set.view() == item_jids(csv.take(i as int)),
        decreases cs@.len() - i,
    {
        let c = &cs[i];
        proof {
            assert(csv.take(i + 1).drop_last() =~= csv.take(i as int));
            assert(csv.take(i + 1).last() == c@);
        }
        if str_eq(c.name(), "item") {
            match c.attr("jid") {
                Some(j) => set.insert(j.to_owned()),
                None => {},
            }
        }
        i += 1;
    }
    assert(csv.take(cs@.len() as int) =~= csv);
    set
}

} // verus!
