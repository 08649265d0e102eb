//! The conversation list, kept in private PubSub storage (XEP-0223).
use vstd::prelude::*;
use crate::util::strs::str_eq;
use crate::util::xml::{Element, ElementView, elem};
use super::{NS_CLIENT, NS_PUBSUB};

verus! {

broadcast use crate::util::xml::group_xml;

pub const CONV_SYNC_NODE: &'static str = "xmpp-start:conversations";
pub const NS_CONVERSATIONS: &'static str = "xmpp-start:conversations";

/// A conversation of the stored list.
#[derive(Debug, Clone, PartialEq)]
pub struct SyncedConversation {
    pub jid: String,
    pub archived: bool,
}

pub struct SyncedConversationView {
    pub jid: Seq<char>,
    pub archived: bool,
}

impl View for SyncedConversation {
    type V = SyncedConversationView;

    open spec fn view(&self) -> SyncedConversationView {
        SyncedConversationView { jid: self.jid@, archived: self.archived }
    }
}

pub open spec fn convs_view(s: Seq<SyncedConversation>) -> Seq<SyncedConversationView> {
    Seq::new(s.len(), |i: int| s[i]@)
}

/// The `<conversation>` element of one entry.
pub open spec fn conversation_elem(c: SyncedConversationView) -> ElementView {
    elem("conversation"@, NS_CONVERSATIONS@).with_attr("jid"@, c.jid).with_attr(
        "archived"@,
        if c.archived { "true"@ } else { "false"@ },
    )
}

/// `<conversations>` listing the entries in order.
pub open spec fn conversations_elem(cs: Seq<SyncedConversationView>) -> ElementView
    decreases cs.len(),
{
    if cs.len() == 0 {
        elem("conversations"@, NS_CONVERSATIONS@)
    } else {
        conversations_elem(cs.drop_last()).with_child(conversation_elem(cs.last()))
    }
}

/// The publish `<iq>` storing the entries.
pub open spec fn publish_iq(cs: Seq<SyncedConversationView>) -> ElementView {
    let item = elem("item"@, NS_PUBSUB@).with_attr("id"@, "current"@).with_child(conversations_elem(cs));
    let publish = elem("publish"@, NS_PUBSUB@).with_attr("node"@, CONV_SYNC_NODE@).with_child(item);
    elem("iq"@, NS_CLIENT@).with_attr("type"@, "set"@).with_child(elem("pubsub"@, NS_PUBSUB@).with_child(publish))
}

/// The entry a `<conversation>` element describes.
pub open spec fn conversation_of(c: ElementView) -> SyncedConversationView {
    SyncedConversationView {
        jid: match c.attr("jid"@) {
            Some(j) => j,
            None => Seq::empty(),
        },
        archived: c.attr("archived"@) == Some("true"@) || c.attr("archived"@) == Some("1"@),
    }
}

/// The entries of the `<conversation>` elements among `cs`, in order.
pub open spec fn conversations_of(cs: Seq<ElementView>) -> Seq<SyncedConversationView>
    decreases cs.len(),
{
    if cs.len() == 0 {
        Seq::empty()
    } else if cs.last().name == "conversation"@ {
        conversations_of(cs.drop_last()).push(conversation_of(cs.last()))
    } else {
        conversations_of(cs.drop_last())
    }
}

/// The stored list in `el`: `el` itself when named `conversations`, else the
/// one under `<pubsub><items><item>`.
pub open spec fn find_conversations(el: ElementView) -> Option<ElementView> {
    if el.name == "conversations"@ {
        Some(el)
    } else {
        match el.child("pubsub"@, NS_PUBSUB@) {
            None => None,
            Some(ps) => match ps.child("items"@, NS_PUBSUB@) {
                None => None,
                Some(items) => match items.child("item"@, NS_PUBSUB@) {
                    None => None,
                    Some(item) => item.child("conversations"@, NS_CONVERSATIONS@),
                },
            },
        }
    }
}

/// Builds and reads the stored conversation list.
pub struct ConversationSyncManager;

impl ConversationSyncManager {
    pub fn new() -> (r: Self) {
        ConversationSyncManager
    }

    /// The publish request storing `conversations`.
    pub fn build_publish_iq(&self, conversations: &[SyncedConversation]) -> (r: Element)
        ensures
            r@ == publish_iq(convs_view(conversations@)),
    {
        let ghost cv = convs_view(conversations@);
        let mut list = Element::new("conversations", NS_CONVERSATIONS);
        let mut i: usize = 0;
        while i < conversations.len()
            invariant
                i <= conversations@.len(),
                cv == convs_view(conversations@),
                list@ == conversations_elem(cv.take(i as int)),
            decreases conversations.len() - i,
        {
            let c = &conversations[i];
            proof {
                assert(cv.take(i + 1).drop_last() =~= cv.take(i as int));
                assert(cv.take(i + 1).last() == c@);
            }
            list.push_child(
                Element::new("conversation", NS_CONVERSATIONS).with_attr("jid", c.jid.as_str()).with_attr(
                    "archived",
                    if c.archived { "true" } else { "false" },
                ),
            );
            i += 1;
        }
        assert(cv.take(i as int) =~= cv);
        let item = Element::new("item", NS_PUBSUB).with_attr("id", "current").with_child(list);
        let publish = Element::new("publish", NS_PUBSUB).with_attr("node", CONV_SYNC_NODE).with_child(item);
        Element::new("iq", NS_CLIENT).with_attr("type", "set").with_child(Element::new("pubsub", NS_PUBSUB).with_child(publish))
    }

    /// The request for the stored list.
    pub fn build_fetch_iq(&self) -> (r: Element)
        ensures
            r@ == elem("iq"@, NS_CLIENT@).with_attr("type"@, "get"@).with_child(
                elem("pubsub"@, NS_PUBSUB@).with_child(elem("items"@, NS_PUBSUB@).with_attr("node"@, CONV_SYNC_NODE@)),
            ),
    {
        let items = Element::new("items", NS_PUBSUB).with_attr("node", CONV_SYNC_NODE);
        Element::new("iq", NS_CLIENT).with_attr("type", "get").with_child(Element::new("pubsub", NS_PUBSUB).with_child(items))
    }

    /// The stored list in a bare `<conversations>` or an items result; empty without one.
    pub fn parse_result(&self, el: &Element) -> (r: Vec<SyncedConversation>)
        ensures
            convs_view(r@) == (match find_conversations(el@) {
                Some(c) => conversations_of(c.children),
                None => Seq::empty(),
            }),
    {
        let list = match find_conversations_el(el) {
            Some(l) => l,
            None => {
                let v: Vec<SyncedConversation> = Vec::new();
                assert(convs_view(v@) =~= Seq::<SyncedConversationView>::empty());
                return v;
            },
        };
        let cs = list.children();
        let ghost csv = list@.children;
        let mut out: Vec<SyncedConversation> = Vec::new();
        let mut i: usize = 0;
        assert(convs_view(out@) =~= Seq::<SyncedConversationView>::empty());
        while i < cs.len()
            invariant
                i <= cs@.len(),
                csv == list@.children,
                cs@.len() == csv.len(),
                forall|j: int| 0 <= j < cs@.len() ==> #[trigger] cs@[j]@ == csv[j],
                convs_view(out@) == conversations_of(csv.take(i as int)),
            decreases cs@.len() - i,
        {
            let c = &cs[i];
            proof {
                assert(csv.take(i + 1).drop_last() =~= csv.take(i as int));
                assert(csv.take(i + 1).last() == c@);
            }
            if str_eq(c.name(), "conversation") {
                let ghost before = out@;
                let conv = SyncedConversation {
                    jid: match c.attr("jid") {
                        Some(j) => j.to_owned(),
                        None => String::new(),
                    },
                    archived: c.attr_is("archived", "true") || c.attr_is("archived", "1"),
                };
                out.push(conv);
                assert(convs_view(out@) =~= convs_view(before).push(conv@));
            }
            i += 1;
        }
        assert(csv.take(cs@.len() as int) =~= csv);
        out
    }
}

fn find_conversations_el(el: &Element) -> (r: Option<&Element>)
    ensures
        r is None <==> find_conversations(el@) is None,
        r matches Some(x) ==> find_conversations(el@) == Some(x@),
{
    if str_eq(el.name(), "conversations") {
        return Some(el);
    }
    let pubsub = match el.get_child("pubsub", NS_PUBSUB) {
        Some(p) => p,
        None => return None,
    };
    let items = match pubsub.get_child("items", NS_PUBSUB) {
        Some(p) => p,
        None => return None,
    };
    let item = match items.get_child("item", NS_PUBSUB) {
        Some(p) => p,
        None => return None,
    };
    item.get_child("conversations", NS_CONVERSATIONS)
}

proof fn lemma_list_roundtrip(cs: Seq<SyncedConversationView>)
    ensures
        conversations_of(conversations_elem(cs).children) == cs,
        conversations_elem(cs).name == "conversations"@,
    decreases cs.len(),
{
    reveal_strlit("jid");
    reveal_strlit("archived");
    reveal_strlit("true");
    reveal_strlit("false");
    reveal_strlit("1");
    assert("jid"@.len() == 3);
    assert("archived"@.len() == 8);
    assert("true"@.len() == 4);
    assert("false"@.len() == 5);
    assert("1"@.len() == 1);
    if cs.len() > 0 {
        lemma_list_roundtrip(cs.drop_last());
        let ch = conversations_elem(cs).children;
        assert(ch.drop_last() =~= conversations_elem(cs.drop_last()).children);
        let last = cs.last();
        assert(conversation_of(conversation_elem(last)) == last);
        assert(cs.drop_last().push(last) =~= cs);
    } else {
        assert(conversations_elem(cs).children =~= Seq::<ElementView>::empty());
        assert(cs =~= Seq::<SyncedConversationView>::empty());
    }
}

/// Reading back the `<conversations>` payload of a publish request gives the
/// conversations that were published, in order, archived flags included.
pub proof fn law_publish_then_parse(cs: Seq<SyncedConversationView>)
    ensures
        find_conversations(conversations_elem(cs)) == Some(conversations_elem(cs)),
        conversations_of(conversations_elem(cs).children) == cs,
{
    lemma_list_roundtrip(cs);
}

} // verus!
