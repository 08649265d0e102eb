//! Service discovery (XEP-0030) and entity capabilities (XEP-0115): disco
//! requests and results, a cache of what each entity supports, and the
//! capabilities hash of our own features.
use vstd::prelude::*;
use vstd::utf8::encode_utf8;
use crate::util::codec::{base64_encode, base64_encoded, sha1, sha1_digest};
use crate::util::ext::{is_uuid_v4_text, new_uuid};
use crate::util::maps::StrMap;
use crate::util::order::{lemma_sorted_le_unique, sort_strings, sorted_le, strings_view};
use crate::util::strs::{concat, str_eq};
use crate::util::xml::{Element, ElementView, elem};
use super::NS_CLIENT;

verus! {

broadcast use crate::util::xml::group_xml;

pub const NS_CAPS: &'static str = "http://jabber.org/protocol/caps";
pub const NS_DISCO_INFO: &'static str = "http://jabber.org/protocol/disco#info";
pub const NS_DISCO_ITEMS: &'static str = "http://jabber.org/protocol/disco#items";

/// An identity of a disco#info answer.
#[derive(Debug, Clone, PartialEq)]
pub struct DiscoIdentity {
    pub category: String,
    pub kind: String,
    pub name: String,
}

/// A disco#info answer.
#[derive(Debug, Clone, PartialEq)]
pub struct DiscoInfo {
    pub identities: Vec<DiscoIdentity>,
    pub features: Vec<String>,
}

/// An item of a disco#items answer.
#[derive(Debug, Clone, PartialEq)]
pub struct DiscoItem {
    pub jid: String,
    pub name: Option<String>,
    pub node: Option<String>,
}

/// Our capabilities as announced in presence.
#[derive(Debug, Clone, PartialEq)]
pub struct Caps {
    pub node: String,
    pub ver: String,
    pub hash: String,
}

pub struct DiscoIdentityView {
    pub category: Seq<char>,
    pub kind: Seq<char>,
    pub name: Seq<char>,
}

pub struct DiscoInfoView {
    pub identities: Seq<DiscoIdentityView>,
    pub features: Seq<Seq<char>>,
}

pub struct DiscoItemView {
    pub jid: Seq<char>,
    pub name: Option<Seq<char>>,
    pub node: Option<Seq<char>>,
}

pub struct CapsView {
    pub node: Seq<char>,
    pub ver: Seq<char>,
    pub hash: Seq<char>,
}

pub open spec fn opt_string_view(o: Option<String>) -> Option<Seq<char>> {
    match o {
        Some(s) => Some(s@),
        None => None,
    }
}

impl View for DiscoIdentity {
    type V = DiscoIdentityView;

    open spec fn view(&self) -> DiscoIdentityView {
        DiscoIdentityView { category: self.category@, kind: self.kind@, name: self.name@ }
    }
}

impl View for DiscoInfo {
    type V = DiscoInfoView;

    open spec fn view(&self) -> DiscoInfoView {
        DiscoInfoView {
            identities: self.identities@.map_values(|i: DiscoIdentity| i@),
            features: strings_view(self.features@),
        }
    }
}

impl View for DiscoItem {
    type V = DiscoItemView;

    open spec fn view(&self) -> DiscoItemView {
        DiscoItemView { jid: self.jid@, name: opt_string_view(self.name), node: opt_string_view(self.node) }
    }
}

impl View for Caps {
    type V = CapsView;

    open spec fn view(&self) -> CapsView {
        CapsView { node: self.node@, ver: self.ver@, hash: self.hash@ }
    }
}

impl DiscoIdentity {
    pub fn copy(&self) -> (r: DiscoIdentity)
        ensures
            r@ == self@,
    {
        DiscoIdentity { category: self.category.clone(), kind: self.kind.clone(), name: self.name.clone() }
    }
}

impl DiscoInfo {
    pub fn copy(&self) -> (r: DiscoInfo)
        ensures
            r@ == self@,
    {
        let mut ids: Vec<DiscoIdentity> = Vec::new();
        let mut i: usize = 0;
        while i < self.identities.len()
            invariant
                i <= self.identities@.len(),
                ids@.len() == i,
                forall|k: int| 0 <= k < i ==> #[trigger] ids@[k]@ == self.identities@[k]@,
            decreases self.identities.len() - i,
        {
            ids.push(self.identities[i].copy());
            i += 1;
        }
        let mut fs: Vec<String> = Vec::new();
        let mut j: usize = 0;
        while j < self.features.len()
            invariant
                j <= self.features@.len(),
                fs@.len() == j,
                forall|k: int| 0 <= k < j ==> #[trigger] fs@[k]@ == self.features@[k]@,
            decreases self.features.len() - j,
        {
            fs.push(self.features[j].clone());
            j += 1;
        }
        let r = DiscoInfo { identities: ids, features: fs };
        assert(r@.identities =~= self@.identities);
        assert(r@.features =~= self@.features);
        r
    }
}

/// The value of an attribute, or the empty string.
pub open spec fn attr_or_empty(e: ElementView, k: Seq<char>) -> Seq<char> {
    match e.attr(k) {
        Some(v) => v,
        None => Seq::empty(),
    }
}

/// The identities and features listed by the children of a disco#info `<query>`.
pub open spec fn info_of(cs: Seq<ElementView>) -> DiscoInfoView
    decreases cs.len(),
{
    if cs.len() == 0 {
        DiscoInfoView { identities: Seq::empty(), features: Seq::empty() }
    } else {
        let acc = info_of(cs.drop_last());
        let c = cs.last();
        if c.name == "identity"@ {
            DiscoInfoView {
                identities: acc.identities.push(
                    DiscoIdentityView {
                        category: attr_or_empty(c, "category"@),
                        kind: attr_or_empty(c, "type"@),
                        name: attr_or_empty(c, "name"@),
                    },
                ),
                ..acc
            }
        } else if c.name == "feature"@ && c.attr("var"@) is Some {
            DiscoInfoView { features: acc.features.push(c.attr("var"@)->0), ..acc }
        } else {
            acc
        }
    }
}

/// The items listed by the children of a disco#items `<query>`.
pub open spec fn items_of(cs: Seq<ElementView>) -> Seq<DiscoItemView>
    decreases cs.len(),
{
    if cs.len() == 0 {
        Seq::empty()
    } else {
        let acc = items_of(cs.drop_last());
        let c = cs.last();
        if c.name == "item"@ {
            acc.push(DiscoItemView { jid: attr_or_empty(c, "jid"@), name: c.attr("name"@), node: c.attr("node"@) })
        } else {
            acc
        }
    }
}

/// The disco request of namespace `ns` to `to` under id `id`.
pub open spec fn disco_request(id: Seq<char>, to: Seq<char>, ns: Seq<char>) -> ElementView {
    elem("iq"@, NS_CLIENT@).with_attr("type"@, "get"@).with_attr("id"@, id).with_attr("to"@, to).with_child(elem("query"@, ns))
}

/// `category/type//name`, the form of an identity in the capabilities hash.
pub open spec fn identity_line(i: DiscoIdentityView) -> Seq<char> {
    i.category + "/"@ + i.kind + "//"@ + i.name
}

/// Each string followed by `<`.
pub open spec fn joined(s: Seq<Seq<char>>) -> Seq<char>
    decreases s.len(),
{
    if s.len() == 0 {
        Seq::empty()
    } else {
        joined(s.drop_last()) + s.last() + "<"@
    }
}

/// The capabilities hash of sorted identity lines and sorted features:
/// SHA-1 of their joined text, in base64.
pub open spec fn ver_of(ids_sorted: Seq<Seq<char>>, feats_sorted: Seq<Seq<char>>) -> Seq<char> {
    base64_encoded(sha1_digest(encode_utf8(joined(ids_sorted) + joined(feats_sorted))))
}

/// Whether `ver` is the capabilities hash of `identities` and `features`.
pub open spec fn is_ver_hash(identities: Seq<DiscoIdentityView>, features: Seq<Seq<char>>, ver: Seq<char>) -> bool {
    exists|a: Seq<Seq<char>>, b: Seq<Seq<char>>| {
        &&& sorted_le(a)
        &&& a.to_multiset() == identities.map_values(|i: DiscoIdentityView| identity_line(i)).to_multiset()
        &&& sorted_le(b)
        &&& b.to_multiset() == features.to_multiset()
        &&& ver == ver_of(a, b)
    }
}

pub open spec fn strs_view(s: Seq<&str>) -> Seq<Seq<char>> {
    Seq::new(s.len(), |i: int| s[i]@)
}

/// The capabilities hash (XEP-0115 §5) of `identities` and `features`.
pub fn compute_ver_hash(identities: &[DiscoIdentity], features: &[&str]) -> (r: String)
    ensures
        is_ver_hash(identities@.map_values(|i: DiscoIdentity| i@), strs_view(features@), r@),
        r@.len() == 28,
{
    let ghost idv = identities@.map_values(|i: DiscoIdentity| i@);
    let ghost lines = idv.map_values(|i: DiscoIdentityView| identity_line(i));
    let mut id_strs: Vec<String> = Vec::new();
    let mut i: usize = 0;
    while i < identities.len()
        invariant
            i <= identities@.len(),
            idv == identities@.map_values(|i: DiscoIdentity| i@),
            lines == idv.map_values(|i: DiscoIdentityView| identity_line(i)),
            id_strs@.len() == i,
            lines.len() == identities@.len(),
            forall|k: int| 0 <= k < i ==> #[trigger] id_strs@[k]@ == lines[k],
        decreases identities.len() - i,
    {
        let id = &identities[i];
        let a = concat(id.category.as_str(), "/");
        let b = concat(a.as_str(), id.kind.as_str());
        let c = concat(b.as_str(), "//");
        let d = concat(c.as_str(), id.name.as_str());
        assert(d@ == identity_line(idv[i as int]));
        id_strs.push(d);
        i += 1;
    }
    assert(strings_view(id_strs@) =~= lines);
    let ghost fv = strs_view(features@);
    let mut feat_strs: Vec<String> = Vec::new();
    let mut j: usize = 0;
    while j < features.len()
        invariant
            j <= features@.len(),
            fv == strs_view(features@),
            feat_strs@.len() == j,
            forall|k: int| 0 <= k < j ==> #[trigger] feat_strs@[k]@ == fv[k],
        decreases features.len() - j,
    {
        feat_strs.push(features[j].to_owned());
        j += 1;
    }
    assert(strings_view(feat_strs@) =~= fv);
    let ids_sorted = sort_strings(id_strs);
    let feats_sorted = sort_strings(feat_strs);
    let ghost a = strings_view(ids_sorted@);
    let ghost b = strings_view(feats_sorted@);
    let mut s = String::new();
    let mut k: usize = 0;
    while k < ids_sorted.len()
        invariant
            k <= ids_sorted@.len(),
            a == strings_view(ids_sorted@),
            s@ == joined(a.take(k as int)),
        decreases ids_sorted.len() - k,
    {
        proof {
            assert(a.take(k + 1).drop_last() =~= a.take(k as int));
            assert(a.take(k + 1).last() == ids_sorted@[k as int]@);
        }
        s.append(ids_sorted[k].as_str());
        s.append("<");
        k += 1;
    }
    assert(a.take(k as int) =~= a);
    let ghost sa = s@;
    let mut m: usize = 0;
    while m < feats_sorted.len()
        invariant
            m <= feats_sorted@.len(),
            b == strings_view(feats_sorted@),
            s@ == sa + joined(b.take(m as int)),
        decreases feats_sorted.len() - m,
    {
        proof {
            assert(b.take(m + 1).drop_last() =~= b.take(m as int));
            assert(b.take(m + 1).last() == feats_sorted@[m as int]@);
        }
        s.append(feats_sorted[m].as_str());
        s.append("<");
        m += 1;
        assert(s@ =~= sa + joined(b.take(m as int)));
    }
    assert(b.take(m as int) =~= b);
    let digest = sha1(s.as_str().as_bytes());
    let r = base64_encode(digest.as_slice());
    assert(r@ == ver_of(a, b));
    r
}

/// Mapping two sequences that hold the same items, each as often, gives
/// two sequences that do so too.
proof fn lemma_map_same_items<A, B>(s: Seq<A>, t: Seq<A>, f: spec_fn(A) -> B)
    requires
        s.to_multiset() == t.to_multiset(),
    ensures
        s.map_values(f).to_multiset() == t.map_values(f).to_multiset(),
    decreases s.len(),
{
    broadcast use vstd::seq_lib::group_to_multiset_ensures;
    broadcast use vstd::multiset::group_multiset_axioms;

    if s.len() == 0 {
        assert(t.len() == t.to_multiset().len());
        assert(s.len() == s.to_multiset().len());
        assert(s.map_values(f) =~= t.map_values(f));
    } else {
        let x = s.last();
        let s0 = s.drop_last();
        assert(s0.push(x) =~= s);
        assert(s.to_multiset().count(x) > 0);
        assert(t.contains(x));
        let i = choose|i: int| 0 <= i < t.len() && t[i] == x;
        let t0 = t.remove(i);
        assert(s0.to_multiset() =~= t0.to_multiset()) by {
            assert(t0.to_multiset() =~= t.to_multiset().remove(x));
            assert(s.to_multiset() =~= s0.to_multiset().insert(x));
        }
        lemma_map_same_items(s0, t0, f);
        assert(s.map_values(f) =~= s0.map_values(f).push(f(x)));
        assert(t.map_values(f).remove(i) =~= t0.map_values(f));
        assert(t.map_values(f)[i] == f(x));
        assert(t.map_values(f).to_multiset().remove(f(x)) =~= t0.map_values(f).to_multiset());
        assert(t.map_values(f).to_multiset().count(f(x)) > 0) by {
            assert(t.map_values(f).contains(f(x)));
        }
        assert(t.map_values(f).to_multiset() =~= t0.map_values(f).to_multiset().insert(f(x)));
    }
}

/// The capabilities hash does not depend on the order in which the
/// identities and the features are given: two lists that hold the same
/// identities, and two that hold the same features, give the same hash.
pub proof fn law_caps_hash_order_free(
    ids1: Seq<DiscoIdentityView>,
    ids2: Seq<DiscoIdentityView>,
    feats1: Seq<Seq<char>>,
    feats2: Seq<Seq<char>>,
    ver1: Seq<char>,
    ver2: Seq<char>,
)
    requires
        ids1.to_multiset() == ids2.to_multiset(),
        feats1.to_multiset() == feats2.to_multiset(),
        is_ver_hash(ids1, feats1, ver1),
        is_ver_hash(ids2, feats2, ver2),
    ensures
        ver1 == ver2,
{
    let line = |i: DiscoIdentityView| identity_line(i);
    lemma_map_same_items(ids1, ids2, line);
    let (a1, b1) = choose|a: Seq<Seq<char>>, b: Seq<Seq<char>>| {
        &&& sorted_le(a)
        &&& a.to_multiset() == ids1.map_values(line).to_multiset()
        &&& sorted_le(b)
        &&& b.to_multiset() == feats1.to_multiset()
        &&& ver1 == ver_of(a, b)
    };
    let (a2, b2) = choose|a: Seq<Seq<char>>, b: Seq<Seq<char>>| {
        &&& sorted_le(a)
        &&& a.to_multiset() == ids2.map_values(line).to_multiset()
        &&& sorted_le(b)
        &&& b.to_multiset() == feats2.to_multiset()
        &&& ver2 == ver_of(a, b)
    };
    lemma_sorted_le_unique(a1, a2);
    lemma_sorted_le_unique(b1, b2);
}

pub struct DiscoManager {
    cache: StrMap<DiscoInfo>,
    pending_info: StrMap<String>,
    pending_items: StrMap<String>,
    own_caps: Caps,
}

impl DiscoManager {
    /// The disco#info answer cached for each entity.
    pub closed spec fn cache(&self) -> Map<Seq<char>, DiscoInfoView> {
        self.cache.view().map_values(|i: DiscoInfo| i@)
    }

    /// The entity asked by each unanswered disco#info request.
    pub closed spec fn pending_info(&self) -> Map<Seq<char>, Seq<char>> {
        self.pending_info.view().map_values(|j: String| j@)
    }

    /// The entity asked by each unanswered disco#items request.
    pub closed spec fn pending_items(&self) -> Map<Seq<char>, Seq<char>> {
        self.pending_items.view().map_values(|j: String| j@)
    }

    /// Our own capabilities.
    pub closed spec fn own_caps(&self) -> CapsView {
        self.own_caps@
    }

    /// A manager announcing `node`, with the capabilities hash of `identities` and `features`.
    pub fn new(node: &str, identities: &[DiscoIdentity], features: &[&str]) -> (r: Self)
        ensures
            r.own_caps().node == node@,
            r.own_caps().hash == "sha-1"@,
            is_ver_hash(identities@.map_values(|i: DiscoIdentity| i@), strs_view(features@), r.own_caps().ver),
            r.own_caps().ver.len() == 28,
            r.cache() == Map::<Seq<char>, DiscoInfoView>::empty(),
            r.pending_info() == Map::<Seq<char>, Seq<char>>::empty(),
            r.pending_items() == Map::<Seq<char>, Seq<char>>::empty(),
    {
        let ver = compute_ver_hash(identities, features);
        let r = DiscoManager {
            cache: StrMap::new(),
            pending_info: StrMap::new(),
            pending_items: StrMap::new(),
            own_caps: Caps { node: node.to_owned(), ver, hash: "sha-1".to_owned() },
        };
        assert(r.cache() =~= Map::<Seq<char>, DiscoInfoView>::empty());
        assert(r.pending_info() =~= Map::<Seq<char>, Seq<char>>::empty());
        assert(r.pending_items() =~= Map::<Seq<char>, Seq<char>>::empty());
        r
    }

    /// Our own capabilities.
    pub fn caps(&self) -> (r: &Caps)
        ensures
            r@ == self.own_caps(),
    {
        &self.own_caps
    }

    /// A disco#info request to `to_jid` under a fresh id, recorded as pending.
    pub fn build_info_request(&mut self, to_jid: &str) -> (r: (String, Element))
        ensures
            is_uuid_v4_text(r.0@),
            r.1@ == disco_request(r.0@, to_jid@, NS_DISCO_INFO@),
            final(self).pending_info() == old(self).pending_info().insert(r.0@, to_jid@),
            final(self).pending_items() == old(self).pending_items(),
            final(self).cache() == old(self).cache(),
            final(self).own_caps() == old(self).own_caps(),
    {
        let id = new_uuid();
        let iq = Element::new("iq", NS_CLIENT).with_attr("type", "get").with_attr("id", id.as_str()).with_attr(
            "to",
            to_jid,
        ).with_child(Element::new("query", NS_DISCO_INFO));
        self.pending_info.insert(id.clone(), to_jid.to_owned());
        assert(self.pending_info() =~= old(self).pending_info().insert(id@, to_jid@));
        (id, iq)
    }

    /// A disco#items request to `to_jid` under a fresh id, recorded as pending.
    pub fn build_items_request(&mut self, to_jid: &str) -> (r: (String, Element))
        ensures
            is_uuid_v4_text(r.0@),
            r.1@ == disco_request(r.0@, to_jid@, NS_DISCO_ITEMS@),
            final(self).pending_items() == old(self).pending_items().insert(r.0@, to_jid@),
            final(self).pending_info() == old(self).pending_info(),
            final(self).cache() == old(self).cache(),
            final(self).own_caps() == old(self).own_caps(),
    {
        let id = new_uuid();
        let iq = Element::new("iq", NS_CLIENT).with_attr("type", "get").with_attr("id", id.as_str()).with_attr(
            "to",
            to_jid,
        ).with_child(Element::new("query", NS_DISCO_ITEMS));
        self.pending_items.insert(id.clone(), to_jid.to_owned());
        assert(self.pending_items() =~= old(self).pending_items().insert(id@, to_jid@));
        (id, iq)
    }

    /// Reads a disco#info result. An answered request stops being pending;
    /// when the result has its `<query>`, the answer is cached and returned
    /// with the entity it is about.
    pub fn on_info_result(&mut self, el: &Element) -> (r: Option<(String, DiscoInfo)>)
        ensures
            final(self).pending_items() == old(self).pending_items(),
            final(self).own_caps() == old(self).own_caps(),
            (el@.attr("type"@) == Some("result"@) && el@.attr("id"@) is Some) ==> final(self).pending_info()
                == old(self).pending_info().remove(el@.attr("id"@)->0),
            !(el@.attr("type"@) == Some("result"@) && el@.attr("id"@) is Some) ==> final(self).pending_info()
                == old(self).pending_info(),
            r is Some <==> ({
                &&& el@.attr("type"@) == Some("result"@)
                &&& el@.attr("id"@) matches Some(id)
                &&& old(self).pending_info().contains_key(id)
                &&& el@.child("query"@, NS_DISCO_INFO@) is Some
            }),
            r is None ==> final(self).cache() == old(self).cache(),
            r matches Some(p) ==> {
                &&& p.0@ == old(self).pending_info()[el@.attr("id"@)->0]
                &&& p.1@ == info_of(el@.child("query"@, NS_DISCO_INFO@)->0.children)
                &&& final(self).cache() == old(self).cache().insert(p.0@, p.1@)
            },
    {
        if !el.attr_is("type", "result") {
            return None;
        }
        let iq_id = match el.attr("id") {
            Some(i) => i,
            None => return None,
        };
        let jid = match self.pending_info.remove(iq_id) {
            Some(j) => j,
            None => {
                assert(old(self).pending_info().remove(iq_id@) =~= old(self).pending_info());
                return None;
            },
        };
        assert(self.pending_info() =~= old(self).pending_info().remove(iq_id@));
        let query = match el.get_child("query", NS_DISCO_INFO) {
            Some(q) => q,
            None => return None,
        };
        let info = parse_info(query);
        self.cache.insert(jid.clone(), info.copy());
        assert(self.cache() =~= old(self).cache().insert(jid@, info@));
        Some((jid, info))
    }

    /// Reads a disco#items result. An answered request stops being pending;
    /// when the result has its `<query>`, its items are returned with the
    /// entity they are about.
    pub fn on_items_result(&mut self, el: &Element) -> (r: Option<(String, Vec<DiscoItem>)>)
        ensures
            final(self).pending_info() == old(self).pending_info(),
            final(self).cache() == old(self).cache(),
            final(self).own_caps() == old(self).own_caps(),
            (el@.attr("type"@) == Some("result"@) && el@.attr("id"@) is Some) ==> final(self).pending_items()
                == old(self).pending_items().remove(el@.attr("id"@)->0),
            !(el@.attr("type"@) == Some("result"@) && el@.attr("id"@) is Some) ==> final(self).pending_items()
                == old(self).pending_items(),
            r is Some <==> ({
                &&& el@.attr("type"@) == Some("result"@)
                &&& el@.attr("id"@) matches Some(id)
                &&& old(self).pending_items().contains_key(id)
                &&& el@.child("query"@, NS_DISCO_ITEMS@) is Some
            }),
            r matches Some(p) ==> {
                &&& p.0@ == old(self).pending_items()[el@.attr("id"@)->0]
                &&& p.1@.map_values(|i: DiscoItem| i@) == items_of(el@.child("query"@, NS_DISCO_ITEMS@)->0.children)
            },
    {
        if !el.attr_is("type", "result") {
            return None;
        }
        let iq_id = match el.attr("id") {
            Some(i) => i,
            None => return None,
        };
        let jid = match self.pending_items.remove(iq_id) {
            Some(j) => j,
            None => {
                assert(old(self).pending_items().remove(iq_id@) =~= old(self).pending_items());
                return None;
            },
        };
        assert(self.pending_items() =~= old(self).pending_items().remove(iq_id@));
        let query = match el.get_child("query", NS_DISCO_ITEMS) {
            Some(q) => q,
            None => return None,
        };
        let cs = query.children();
        let ghost csv = query@.children;
        let mut items: Vec<DiscoItem> = Vec::new();
        let mut i: usize = 0;
        while i < cs.len()
            invariant
                i <= cs@.len(),
                csv == query@.children,
                cs@.len() == csv.len(),
                forall|j: int| 0 <= j < cs@.len() ==> #[trigger] cs@[j]@ == csv[j],
                items@.map_values(|i: DiscoItem| i@) == items_of(csv.take(i as int)),
            decreases cs@.len() - i,
        {
            let c = &cs[i];
            proof {
                assert(csv.take(i + 1).drop_last() =~= csv.take(i as int));
                assert(csv.take(i + 1).last() == c@);
            }
            if str_eq(c.name(), "item") {
                let ghost before = items@;
                let item = DiscoItem {
                    jid: attr_or_empty_exec(c, "jid"),
                    name: match c.attr("name") {
                        Some(n) => Some(n.to_owned()),
                        None => None,
                    },
                    node: match c.attr("node") {
                        Some(n) => Some(n.to_owned()),
                        None => None,
                    },
                };
                items.push(item);
                assert(items@.map_values(|i: DiscoItem| i@) =~= before.map_values(|i: DiscoItem| i@).push(item@));
            }
            i += 1;
        }
        assert(csv.take(cs@.len() as int) =~= csv);
        Some((jid, items))
    }

    /// The `<c>` element announcing our capabilities.
    pub fn build_caps_element(&self) -> (r: Element)
        ensures
            r@ == elem("c"@, NS_CAPS@).with_attr("hash"@, self.own_caps().hash).with_attr("node"@, self.own_caps().node).with_attr(
                "ver"@,
                self.own_caps().ver,
            ),
    {
        Element::new("c", NS_CAPS).with_attr("hash", self.own_caps.hash.as_str()).with_attr(
            "node",
            self.own_caps.node.as_str(),
        ).with_attr("ver", self.own_caps.ver.as_str())
    }

    /// Whether the cached answer of `jid` lists `feature`.
    pub fn supports(&self, jid: &str, feature: &str) -> (b: bool)
        ensures
            b == (self.cache().contains_key(jid@) && self.cache()[jid@].features.contains(feature@)),
    {
        match self.cache.get(jid) {
            None => false,
            Some(info) => {
                assert(self.cache()[jid@] == info@);
                let ghost fv = info@.features;
                let mut i: usize = 0;
                while i < info.features.len()
                    invariant
                        i <= info.features@.len(),
                        fv == info@.features,
                        self.cache().contains_key(jid@),
                        self.cache()[jid@] == info@,
                        forall|k: int| 0 <= k < i ==> fv[k] != feature@,
                    decreases info.features.len() - i,
                {
                    if str_eq(info.features[i].as_str(), feature) {
                        assert(fv.len() == info.features@.len());
                        assert(fv[i as int] == feature@);
                        assert(fv.contains(feature@));
                        return true;
                    }
                    i += 1;
                }
                false
            },
        }
    }

    /// The cached answer of `jid`.
    pub fn get_cached(&self, jid: &str) -> (r: Option<&DiscoInfo>)
        ensures
            r is None <==> !self.cache().contains_key(jid@),
            r matches Some(i) ==> self.cache()[jid@] == i@,
    {
        self.cache.get(jid)
    }
}

fn attr_or_empty_exec(e: &Element, k: &str) -> (r: String)
    ensures
        r@ == attr_or_empty(e@, k@),
{
    match e.attr(k) {
        Some(v) => v.to_owned(),
        None => String::new(),
    }
}

/// The identities and features of a disco#info `<query>`.
fn parse_info(query: &Element) -> (r: DiscoInfo)
    ensures
        r@ == info_of(query@.children),
{
    let cs = query.children();
    let ghost csv = query@.children;
    let mut info = DiscoInfo { identities: Vec::new(), features: Vec::new() };
    assert(info@.identities =~= Seq::<DiscoIdentityView>::empty());
    assert(info@.features =~= Seq::<Seq<char>>::empty());
    let mut i: usize = 0;
    while i < cs.len()
        invariant
            i <= cs@.len(),
            csv == query@.children,
            cs@.len() == csv.len(),
            forall|j: int| 0 <= j < cs@.len() ==> #[trigger] cs@[j]@ == csv[j],
            info@ == info_of(csv.take(i as int)),
        decreases cs@.len() - i,
    {
        let c = &cs[i];
        proof {
            assert(csv.take(i + 1).drop_last() =~= csv.take(i as int));
            assert(csv.take(i + 1).last() == c@);
        }
        let ghost before = info@;
        if str_eq(c.name(), "identity") {
            let id = DiscoIdentity {
                category: attr_or_empty_exec(c, "category"),
                kind: attr_or_empty_exec(c, "type"),
                name: attr_or_empty_exec(c, "name"),
            };
            info.identities.push(id);
            assert(info@.identities =~= before.identities.push(id@));
            assert(info@.features =~= before.features);
        } else if str_eq(c.name(), "feature") {
            match c.attr("var") {
                Some(v) => {
                    info.features.push(v.to_owned());
                    assert(info@.features =~= before.features.push(v@));
                    assert(info@.identities =~= before.identities);
                },
                None => {},
            }
        }
        i += 1;
    }
    assert(csv.take(cs@.len() as int) =~= csv);
    info
}

} // verus!
