//! Room bookmarks (XEP-0048) kept in private XML storage.
use vstd::prelude::*;
use crate::util::strs::str_eq;
use crate::util::xml::{Element, ElementView, elem};
use super::NS_CLIENT;

verus! {

broadcast use crate::util::xml::group_xml;

pub const NS_BOOKMARKS: &'static str = "storage:bookmarks";
pub const NS_PRIVATE: &'static str = "jabber:iq:private";

/// A bookmarked room.
#[derive(Debug, Clone, PartialEq)]
pub struct Bookmark {
    pub jid: String,
    pub name: Option<String>,
    pub autojoin: bool,
    pub nick: Option<String>,
    pub password: Option<String>,
}

#[verifier::ext_equal]
pub struct BookmarkView {
    pub jid: Seq<char>,
    pub name: Option<Seq<char>>,
    pub autojoin: bool,
    pub nick: Option<Seq<char>>,
    pub password: Option<Seq<char>>,
}

pub open spec fn opt_view(o: Option<String>) -> Option<Seq<char>> {
    match o {
        Some(s) => Some(s@),
        None => None,
    }
}

impl View for Bookmark {
    type V = BookmarkView;

    open spec fn view(&self) -> BookmarkView {
        BookmarkView {
            jid: self.jid@,
            name: opt_view(self.name),
            autojoin: self.autojoin,
            nick: opt_view(self.nick),
            password: opt_view(self.password),
        }
    }
}

impl Bookmark {
    pub fn copy(&self) -> (r: Bookmark)
        ensures
            r@ == self@,
    {
        Bookmark {
            jid: self.jid.clone(),
            name: copy_opt(&self.name),
            autojoin: self.autojoin,
            nick: copy_opt(&self.nick),
            password: copy_opt(&self.password),
        }
    }
}

fn copy_opt(o: &Option<String>) -> (r: Option<String>)
    ensures
        opt_view(r) == opt_view(*o),
{
    match o {
        Some(s) => Some(s.clone()),
        None => None,
    }
}

pub open spec fn bookmarks_view(s: Seq<Bookmark>) -> Seq<BookmarkView> {
    Seq::new(s.len(), |i: int| s[i]@)
}

/// `e` with an optional child `<name>` holding `text`.
pub open spec fn with_opt_text_child(e: ElementView, name: Seq<char>, text: Option<Seq<char>>) -> ElementView {
    match text {
        Some(t) => e.with_child(elem(name, NS_BOOKMARKS@).with_text(t)),
        None => e,
    }
}

/// The `<conference>` element of a bookmark.
pub open spec fn conference_elem(b: BookmarkView) -> ElementView {
    let c0 = elem("conference"@, NS_BOOKMARKS@).with_attr("jid"@, b.jid).with_attr(
        "autojoin"@,
        if b.autojoin { "true"@ } else { "false"@ },
    );
    let c1 = match b.name {
        Some(n) => c0.with_attr("name"@, n),
        None => c0,
    };
    with_opt_text_child(with_opt_text_child(c1, "nick"@, b.nick), "password"@, b.password)
}

/// `<storage>` with one `<conference>` per bookmark, in order.
pub open spec fn storage_elem(bms: Seq<BookmarkView>) -> ElementView
    decreases bms.len(),
{
    if bms.len() == 0 {
        elem("storage"@, NS_BOOKMARKS@)
    } else {
        storage_elem(bms.drop_last()).with_child(conference_elem(bms.last()))
    }
}

/// An `<iq>` of type `ty` and id `id` with the private-storage query around `storage`.
pub open spec fn private_iq(ty: Seq<char>, id: Seq<char>, storage: ElementView) -> ElementView {
    elem("iq"@, NS_CLIENT@).with_attr("type"@, ty).with_attr("id"@, id).with_child(elem("query"@, NS_PRIVATE@).with_child(storage))
}

/// The bookmark that a `<conference>` element describes.
pub open spec fn conference_of(c: ElementView) -> BookmarkView {
    BookmarkView {
        jid: match c.attr("jid"@) {
            Some(j) => j,
            None => Seq::empty(),
        },
        name: c.attr("name"@),
        autojoin: c.attr("autojoin"@) == Some("true"@) || c.attr("autojoin"@) == Some("1"@),
        nick: match c.child("nick"@, NS_BOOKMARKS@) {
            Some(n) => Some(n.text),
            None => None,
        },
        password: match c.child("password"@, NS_BOOKMARKS@) {
            Some(p) => Some(p.text),
            None => None,
        },
    }
}

/// The bookmarks of the `<conference>` elements among `cs`, in order.
pub open spec fn conferences_of(cs: Seq<ElementView>) -> Seq<BookmarkView>
    decreases cs.len(),
{
    if cs.len() == 0 {
        Seq::empty()
    } else if cs.last().name == "conference"@ {
        conferences_of(cs.drop_last()).push(conference_of(cs.last()))
    } else {
        conferences_of(cs.drop_last())
    }
}

/// The `<storage>` of `el`: `el` itself, or the one inside its private-storage query.
pub open spec fn storage_of(el: ElementView) -> Option<ElementView> {
    if el.name == "storage"@ && el.ns == NS_BOOKMARKS@ {
        Some(el)
    } else {
        match el.child("query"@, NS_PRIVATE@) {
            Some(q) => q.child("storage"@, NS_BOOKMARKS@),
            None => None,
        }
    }
}

/// The bookmarks stored in `el`; none when it holds no storage.
pub open spec fn parsed_bookmarks(el: ElementView) -> Seq<BookmarkView> {
    match storage_of(el) {
        Some(s) => conferences_of(s.children),
        None => Seq::empty(),
    }
}

pub struct BookmarkManager {
    bookmarks: Vec<Bookmark>,
}

impl BookmarkManager {
    /// The bookmarks, in order.
    pub closed spec fn bookmarks(&self) -> Seq<BookmarkView> {
        bookmarks_view(self.bookmarks@)
    }

    pub fn new() -> (r: Self)
        ensures
            r.bookmarks() == Seq::<BookmarkView>::empty(),
    {
        let r = BookmarkManager { bookmarks: Vec::new() };
        assert(r.bookmarks() =~= Seq::<BookmarkView>::empty());
        r
    }

    /// Replaces the bookmarks.
    pub fn set_bookmarks(&mut self, bookmarks: Vec<Bookmark>)
        ensures
            final(self).bookmarks() == bookmarks_view(bookmarks@),
    {
        self.bookmarks = bookmarks;
    }

    /// The request for the stored bookmarks, under id `id`.
    pub fn build_fetch_iq(&self, id: &str) -> (r: Element)
        ensures
            r@ == private_iq("get"@, id@, elem("storage"@, NS_BOOKMARKS@)),
    {
        let query = Element::new("query", NS_PRIVATE).with_child(Element::new("storage", NS_BOOKMARKS));
        Element::new("iq", NS_CLIENT).with_attr("type", "get").with_attr("id", id).with_child(query)
    }

    /// The request storing the bookmarks, under id `id`.
    pub fn build_save_iq(&self, id: &str) -> (r: Element)
        ensures
            r@ == private_iq("set"@, id@, storage_elem(self.bookmarks())),
    {
        let ghost bv = self.bookmarks();
        let mut storage = Element::new("storage", NS_BOOKMARKS);
        let mut i: usize = 0;
        while i < self.bookmarks.len()
            invariant
                i <= self.bookmarks@.len(),
                bv == self.bookmarks(),
                storage@ == storage_elem(bv.take(i as int)),
            decreases self.bookmarks.len() - i,
        {
            let bm = &self.bookmarks[i];
            proof {
                assert(bv.take(i + 1).drop_last() =~= bv.take(i as int));
                assert(bv.take(i + 1).last() == bm@);
            }
            storage.push_child(build_conference(bm));
            i += 1;
        }
        assert(bv.take(i as int) =~= bv);
        let query = Element::new("query", NS_PRIVATE).with_child(storage);
        Element::new("iq", NS_CLIENT).with_attr("type", "set").with_attr("id", id).with_child(query)
    }

    /// The bookmarks stored in a bare `<storage>` or in a private-storage result.
    pub fn parse_bookmarks_from_iq(el: &Element) -> (r: Vec<Bookmark>)
        ensures
            bookmarks_view(r@) == parsed_bookmarks(el@),
    {
        let storage = if str_eq(el.name(), "storage") && str_eq(el.ns(), NS_BOOKMARKS) {
            el
        } else {
            match el.get_child("query", NS_PRIVATE) {
                Some(q) => match q.get_child("storage", NS_BOOKMARKS) {
                    Some(s) => s,
                    None => {
                        let v: Vec<Bookmark> = Vec::new();
                        assert(bookmarks_view(v@) =~= Seq::<BookmarkView>::empty());
                        return v;
                    },
                },
                None => {
                    let v: Vec<Bookmark> = Vec::new();
                    assert(bookmarks_view(v@) =~= Seq::<BookmarkView>::empty());
                    return v;
                },
            }
        };
        let cs = storage.children();
        let ghost csv = storage@.children;
        let mut out: Vec<Bookmark> = Vec::new();
        let mut i: usize = 0;
        assert(bookmarks_view(out@) =~= Seq::<BookmarkView>::empty());
        while i < cs.len()
            invariant
                i <= cs@.len(),
                csv == storage@.children,
                cs@.len() == csv.len(),
                forall|j: int| 0 <= j < cs@.len() ==> #[trigger] cs@[j]@ == csv[j],
                bookmarks_view(out@) == conferences_of(csv.take(i as int)),
            decreases cs@.len() - i,
        {
            let c = &cs[i];
            proof {
                assert(csv.take(i + 1).drop_last() =~= csv.take(i as int));
                assert(csv.take(i + 1).last() == c@);
            }
            if str_eq(c.name(), "conference") {
                let ghost before = out@;
                let b = read_conference(c);
                out.push(b);
                assert(bookmarks_view(out@) =~= bookmarks_view(before).push(b@));
            }
            i += 1;
        }
        assert(csv.take(cs@.len() as int) =~= csv);
        out
    }
}

fn build_conference(bm: &Bookmark) -> (r: Element)
    ensures
        r@ == conference_elem(bm@),
{
    let mut conf = Element::new("conference", NS_BOOKMARKS).with_attr("jid", bm.jid.as_str()).with_attr(
        "autojoin",
        if bm.autojoin { "true" } else { "false" },
    );
    match &bm.name {
        Some(n) => conf = conf.with_attr("name", n.as_str()),
        None => {},
    }
    match &bm.nick {
        Some(n) => conf.push_child(Element::new("nick", NS_BOOKMARKS).with_text(n.as_str())),
        None => {},
    }
    match &bm.password {
        Some(p) => conf.push_child(Element::new("password", NS_BOOKMARKS).with_text(p.as_str())),
        None => {},
    }
    conf
}

fn read_conference(c: &Element) -> (r: Bookmark)
    ensures
        r@ == conference_of(c@),
{
    Bookmark {
        jid: match c.attr("jid") {
            Some(j) => j.to_owned(),
            None => String::new(),
        },
        name: match c.attr("name") {
            Some(n) => Some(n.to_owned()),
            None => None,
        },
        autojoin: c.attr_is("autojoin", "true") || c.attr_is("autojoin", "1"),
        nick: match c.get_child("nick", NS_BOOKMARKS) {
            Some(n) => Some(n.text()),
            None => None,
        },
        password: match c.get_child("password", NS_BOOKMARKS) {
            Some(p) => Some(p.text()),
            None => None,
        },
    }
}

/// Reading back a stored conference gives the bookmark it was made from.
proof fn lemma_conference_roundtrip(b: BookmarkView)
    ensures
        conference_of(conference_elem(b)) == b,
{
    reveal_strlit("jid");
    reveal_strlit("autojoin");
    reveal_strlit("name");
    reveal_strlit("nick");
    reveal_strlit("password");
    reveal_strlit("true");
    reveal_strlit("false");
    reveal_strlit("1");
    assert("jid"@.len() == 3);
    assert("autojoin"@.len() == 8);
    assert("name"@.len() == 4);
    assert("jid"@ != "autojoin"@);
    assert("jid"@ != "name"@);
    assert("autojoin"@ != "name"@);
    assert("nick"@.len() == 4);
    assert("password"@.len() == 8);
    assert("true"@.len() == 4);
    assert("false"@.len() == 5);
    assert("1"@.len() == 1);
    assert("nick"@ != "password"@);
    assert("false"@ != "true"@);
    assert("false"@ != "1"@);
    assert("true"@ != "1"@);
    let c = conference_elem(b);
    assert(conference_of(c) =~= b);
}

/// The conferences of a storage element are exactly the bookmarks it was made from.
proof fn lemma_storage_roundtrip(bms: Seq<BookmarkView>)
    ensures
        conferences_of(storage_elem(bms).children) == bms,
        storage_elem(bms).name == "storage"@,
        storage_elem(bms).ns == NS_BOOKMARKS@,
    decreases bms.len(),
{
    if bms.len() > 0 {
        lemma_storage_roundtrip(bms.drop_last());
        let cs = storage_elem(bms).children;
        assert(cs.drop_last() =~= storage_elem(bms.drop_last()).children);
        assert(cs.last() == conference_elem(bms.last()));
        lemma_conference_roundtrip(bms.last());
        reveal_strlit("conference");
        assert(bms.drop_last().push(bms.last()) =~= bms);
    } else {
        assert(storage_elem(bms).children =~= Seq::<ElementView>::empty());
        assert(bms =~= Seq::<BookmarkView>::empty());
    }
}

/// Saving bookmarks and reading the saved stanza back gives the same
/// bookmarks, in the same order, whatever the request id.
pub proof fn law_save_then_parse(id: Seq<char>, bms: Seq<BookmarkView>)
    ensures
        parsed_bookmarks(private_iq("set"@, id, storage_elem(bms))) == bms,
{
    lemma_storage_roundtrip(bms);
    reveal_strlit("iq");
    reveal_strlit("storage");
    assert("iq"@.len() == 2);
    assert("storage"@.len() == 7);
    assert("iq"@ != "storage"@);
}

} // verus!
