//! An XML element tree: what the protocol code reads and writes of a stanza.
use vstd::prelude::*;
use crate::util::strs::str_eq;

verus! {

/// An XML element: its name, namespace, attributes, child elements and
/// the concatenation of its text nodes.
#[derive(Debug)]
pub struct Element {
    pub name: String,
    pub ns: String,
    pub attrs: Vec<(String, String)>,
    pub children: Vec<Element>,
    pub text: String,
}

/// The mathematical value of an [`Element`].
#[verifier::ext_equal]
pub struct ElementView {
    pub name: Seq<char>,
    pub ns: Seq<char>,
    pub attrs: Seq<(Seq<char>, Seq<char>)>,
    pub children: Seq<ElementView>,
    pub text: Seq<char>,
}

pub open spec fn attrs_view(a: Seq<(String, String)>) -> Seq<(Seq<char>, Seq<char>)> {
    Seq::new(a.len(), |i: int| (a[i].0@, a[i].1@))
}

/// The value of an element tree.
pub open spec fn element_view(e: Element) -> ElementView
    decreases e,
{
    ElementView {
        name: e.name@,
        ns: e.ns@,
        attrs: attrs_view(e.attrs@),
        children: Seq::new(
            e.children@.len(),
            |i: int|
                {
                    if 0 <= i < e.children@.len() {
                        proof {
                            assert(decreases_to!(e => e.children));
                            assert(decreases_to!(e.children => e.children@));
                            assert(decreases_to!(e.children@ => e.children@[i]));
                        }
                        element_view(e.children@[i])
                    } else {
                        arbitrary()
                    }
                },
        ),
        text: e.text@,
    }
}

impl Clone for Element {
    fn clone(&self) -> (r: Element)
        ensures
            r@ == self@,
    {
        self.duplicate()
    }
}

impl View for Element {
    type V = ElementView;

    open spec fn view(&self) -> ElementView {
        element_view(*self)
    }
}

/// An element with no attributes, children or text.
pub open spec fn elem(name: Seq<char>, ns: Seq<char>) -> ElementView {
    ElementView { name, ns, attrs: Seq::empty(), children: Seq::empty(), text: Seq::empty() }
}

/// Index of the first attribute named `k`.
pub open spec fn attr_index(attrs: Seq<(Seq<char>, Seq<char>)>, k: Seq<char>) -> Option<int>
    decreases attrs.len(),
{
    if attrs.len() == 0 {
        None
    } else if attrs[0].0 == k {
        Some(0)
    } else {
        match attr_index(attrs.drop_first(), k) {
            Some(j) => Some(j + 1),
            None => None,
        }
    }
}

pub proof fn lemma_attr_index(attrs: Seq<(Seq<char>, Seq<char>)>, k: Seq<char>, i: int)
    requires
        0 <= i <= attrs.len(),
        forall|j: int| 0 <= j < i ==> attrs[j].0 != k,
    ensures
        i < attrs.len() && attrs[i].0 == k ==> attr_index(attrs, k) == Some(i),
        i == attrs.len() ==> attr_index(attrs, k) is None,
    decreases i,
{
    if i > 0 {
        lemma_attr_index(attrs.drop_first(), k, i - 1);
    }
}

/// The value of attribute `k`.
pub open spec fn attr_of(e: ElementView, k: Seq<char>) -> Option<Seq<char>> {
    match attr_index(e.attrs, k) {
        Some(i) => Some(e.attrs[i].1),
        None => None,
    }
}

/// Attribute `k` set to `v`, in place if it is there already.
pub open spec fn attrs_set(attrs: Seq<(Seq<char>, Seq<char>)>, k: Seq<char>, v: Seq<char>) -> Seq<(Seq<char>, Seq<char>)> {
    match attr_index(attrs, k) {
        Some(i) => attrs.update(i, (k, v)),
        None => attrs.push((k, v)),
    }
}

impl ElementView {
    pub open spec fn with_attr(self, k: Seq<char>, v: Seq<char>) -> ElementView {
        ElementView { attrs: attrs_set(self.attrs, k, v), ..self }
    }

    pub open spec fn with_child(self, c: ElementView) -> ElementView {
        ElementView { children: self.children.push(c), ..self }
    }

    pub open spec fn with_text(self, t: Seq<char>) -> ElementView {
        ElementView { text: self.text + t, ..self }
    }

    pub open spec fn attr(self, k: Seq<char>) -> Option<Seq<char>> {
        attr_of(self, k)
    }

    /// The first child named `n` in namespace `ns` (`Element::get_child`).
    pub open spec fn child(self, n: Seq<char>, ns: Seq<char>) -> Option<ElementView> {
        first_child(self.children, n, Some(ns))
    }

    /// The first child named `n`, in any namespace.
    pub open spec fn child_named(self, n: Seq<char>) -> Option<ElementView> {
        first_child(self.children, n, None)
    }
}

/// The characters of an optional string.
pub open spec fn opt_view(o: Option<&str>) -> Option<Seq<char>> {
    match o {
        Some(x) => Some(x@),
        None => None,
    }
}

pub open spec fn child_matches(c: ElementView, n: Seq<char>, ns: Option<Seq<char>>) -> bool {
    c.name == n && (ns matches Some(x) ==> c.ns == x)
}

/// The first element of `cs` named `n` (and in namespace `ns` when given).
pub open spec fn first_child(cs: Seq<ElementView>, n: Seq<char>, ns: Option<Seq<char>>) -> Option<ElementView>
    decreases cs.len(),
{
    if cs.len() == 0 {
        None
    } else if child_matches(cs[0], n, ns) {
        Some(cs[0])
    } else {
        first_child(cs.drop_first(), n, ns)
    }
}

/// The elements of `cs` named `n`, in order.
pub open spec fn children_named(cs: Seq<ElementView>, n: Seq<char>) -> Seq<ElementView> {
    cs.filter(|c: ElementView| c.name == n)
}

pub proof fn lemma_first_child_skip(cs: Seq<ElementView>, n: Seq<char>, ns: Option<Seq<char>>, i: int)
    requires
        0 <= i <= cs.len(),
        forall|j: int| 0 <= j < i ==> !child_matches(cs[j], n, ns),
    ensures
        first_child(cs, n, ns) == first_child(cs.skip(i), n, ns),
    decreases i,
{
    if i > 0 {
        lemma_first_child_skip(cs.drop_first(), n, ns, i - 1);
        assert(cs.drop_first().skip(i - 1) =~= cs.skip(i));
    } else {
        assert(cs.skip(0) =~= cs);
    }
}

pub proof fn lemma_attrs_set_cons(attrs: Seq<(Seq<char>, Seq<char>)>, k: Seq<char>, v: Seq<char>)
    requires
        attrs.len() > 0,
        attrs[0].0 != k,
    ensures
        attrs_set(attrs, k, v) == seq![attrs[0]] + attrs_set(attrs.drop_first(), k, v),
{
    let df = attrs.drop_first();
    match attr_index(df, k) {
        Some(j) => {
            assert(attr_index(attrs, k) == Some(j + 1));
            lemma_attr_index_bounds(df, k);
            assert(attrs.update(j + 1, (k, v)) =~= seq![attrs[0]] + df.update(j, (k, v)));
        },
        None => {
            assert(attr_index(attrs, k) is None);
            assert(attrs.push((k, v)) =~= seq![attrs[0]] + df.push((k, v)));
        },
    }
}

pub proof fn lemma_attr_index_set(attrs: Seq<(Seq<char>, Seq<char>)>, k: Seq<char>, v: Seq<char>, k2: Seq<char>)
    ensures
        k2 == k ==> attr_index(attrs_set(attrs, k, v), k2) == Some(match attr_index(attrs, k) { Some(i) => i, None => attrs.len() as int }),
        k2 != k ==> attr_index(attrs_set(attrs, k, v), k2) == attr_index(attrs, k2),
        attrs_set(attrs, k, v)[match attr_index(attrs, k) { Some(i) => i, None => attrs.len() as int }] == (k, v),
    decreases attrs.len(),
{
    let ns = attrs_set(attrs, k, v);
    if attrs.len() > 0 {
        if attrs[0].0 == k {
            assert(attr_index(attrs, k) == Some(0int));
            assert(ns =~= attrs.update(0, (k, v)));
            assert(ns.drop_first() =~= attrs.drop_first());
            assert(ns[0] == (k, v));
            if k2 != k {
                assert(attr_index(ns, k2) == (match attr_index(ns.drop_first(), k2) { Some(j) => Some(j + 1), None => None }));
                assert(attr_index(attrs, k2) == (match attr_index(attrs.drop_first(), k2) { Some(j) => Some(j + 1), None => None }));
            }
        } else {
            lemma_attr_index_set(attrs.drop_first(), k, v, k2);
            lemma_attrs_set_cons(attrs, k, v);
            let tail = attrs_set(attrs.drop_first(), k, v);
            assert(ns.drop_first() =~= tail);
            assert(ns[0] == attrs[0]);
            let jj = match attr_index(attrs.drop_first(), k) { Some(i) => i, None => attrs.drop_first().len() as int };
            assert(attr_index(attrs, k) == (match attr_index(attrs.drop_first(), k) { Some(j) => Some(j + 1), None => None }));
            lemma_attr_index_bounds(attrs.drop_first(), k);
            assert(jj < tail.len());
            assert(ns[jj + 1] == tail[jj]);
            if k2 == k {
                assert(attr_index(ns, k2) == (match attr_index(ns.drop_first(), k2) { Some(j) => Some(j + 1), None => None }));
            } else if ns[0].0 == k2 {
                assert(attr_index(ns, k2) == Some(0int));
                assert(attr_index(attrs, k2) == Some(0int));
            } else {
                assert(attr_index(ns, k2) == (match attr_index(ns.drop_first(), k2) { Some(j) => Some(j + 1), None => None }));
                assert(attr_index(attrs, k2) == (match attr_index(attrs.drop_first(), k2) { Some(j) => Some(j + 1), None => None }));
            }
        }
    } else {
        assert(ns =~= seq![(k, v)]);
        assert(ns.drop_first() =~= Seq::<(Seq<char>, Seq<char>)>::empty());
        assert(attr_index(ns.drop_first(), k2) is None);
    }
}

/// Setting attribute `k` makes it read back as `v`.
pub broadcast proof fn lemma_with_attr_same(e: ElementView, k: Seq<char>, v: Seq<char>)
    ensures
        #[trigger] e.with_attr(k, v).attr(k) == Some(v),
{
    lemma_attr_index_set(e.attrs, k, v, k);
}

/// Setting attribute `k` leaves every other attribute as it was.
pub broadcast proof fn lemma_with_attr_other(e: ElementView, k: Seq<char>, v: Seq<char>, k2: Seq<char>)
    requires
        k != k2,
    ensures
        #[trigger] e.with_attr(k, v).attr(k2) == e.attr(k2),
{
    lemma_attr_index_set(e.attrs, k, v, k2);
    match attr_index(e.attrs, k2) {
        Some(i) => {
            let j = match attr_index(e.attrs, k) { Some(x) => x, None => e.attrs.len() as int };
            if i != j {
                match attr_index(e.attrs, k) {
                    Some(x) => {},
                    None => {},
                }
            }
            lemma_attr_index_bounds(e.attrs, k2);
            lemma_attr_index_bounds(e.attrs, k);
        },
        None => {},
    }
}

pub proof fn lemma_attr_index_bounds(attrs: Seq<(Seq<char>, Seq<char>)>, k: Seq<char>)
    ensures
        attr_index(attrs, k) matches Some(i) ==> 0 <= i < attrs.len() && attrs[i].0 == k,
    decreases attrs.len(),
{
    if attrs.len() > 0 {
        lemma_attr_index_bounds(attrs.drop_first(), k);
    }
}

/// Children and text do not change attributes.
pub broadcast proof fn lemma_attr_of_child(e: ElementView, c: ElementView, k: Seq<char>)
    ensures
        #[trigger] e.with_child(c).attr(k) == e.attr(k),
{
}

pub broadcast proof fn lemma_attr_of_text(e: ElementView, t: Seq<char>, k: Seq<char>)
    ensures
        #[trigger] e.with_text(t).attr(k) == e.attr(k),
{
}

pub proof fn lemma_first_child_push(cs: Seq<ElementView>, c: ElementView, n: Seq<char>, ns: Option<Seq<char>>)
    ensures
        first_child(cs.push(c), n, ns) == (match first_child(cs, n, ns) {
            Some(x) => Some(x),
            None => if child_matches(c, n, ns) { Some(c) } else { None },
        }),
    decreases cs.len(),
{
    let p = cs.push(c);
    if cs.len() > 0 {
        assert(p.drop_first() =~= cs.drop_first().push(c));
        assert(p[0] == cs[0]);
        lemma_first_child_push(cs.drop_first(), c, n, ns);
        if child_matches(cs[0], n, ns) {
            assert(first_child(p, n, ns) == Some(cs[0]));
            assert(first_child(cs, n, ns) == Some(cs[0]));
        } else {
            assert(first_child(p, n, ns) == first_child(p.drop_first(), n, ns));
            assert(first_child(cs, n, ns) == first_child(cs.drop_first(), n, ns));
        }
    } else {
        assert(p.drop_first() =~= Seq::<ElementView>::empty());
        assert(p[0] == c);
        assert(first_child(p.drop_first(), n, ns) is None);
        assert(first_child(cs, n, ns) is None);
    }
}

/// Looking up a child after appending one.
pub broadcast proof fn lemma_child_of_with_child(e: ElementView, c: ElementView, n: Seq<char>, ns: Seq<char>)
    ensures
        #[trigger] e.with_child(c).child(n, ns) == (match e.child(n, ns) {
            Some(x) => Some(x),
            None => if c.name == n && c.ns == ns { Some(c) } else { None },
        }),
{
    lemma_first_child_push(e.children, c, n, Some(ns));
}

pub broadcast proof fn lemma_child_named_of_with_child(e: ElementView, c: ElementView, n: Seq<char>)
    ensures
        #[trigger] e.with_child(c).child_named(n) == (match e.child_named(n) {
            Some(x) => Some(x),
            None => if c.name == n { Some(c) } else { None },
        }),
{
    lemma_first_child_push(e.children, c, n, None);
}

pub broadcast proof fn lemma_elem_no_child(n: Seq<char>, ns: Seq<char>, n2: Seq<char>, ns2: Seq<char>)
    ensures
        #[trigger] elem(n, ns).child(n2, ns2) is None,
        elem(n, ns).child_named(n2) is None,
        elem(n, ns).attr(n2) is None,
{
}

pub broadcast group group_xml {
    lemma_with_attr_same,
    lemma_with_attr_other,
    lemma_attr_of_child,
    lemma_attr_of_text,
    lemma_child_of_with_child,
    lemma_child_named_of_with_child,
    lemma_elem_no_child,
}

pub proof fn lemma_children_view(e: Element)
    ensures
        e@.children.len() == e.children@.len(),
        forall|i: int| 0 <= i < e.children@.len() ==> #[trigger] e@.children[i] == e.children@[i]@,
{
}

impl Element {
    /// A new element with no attributes, children or text.
    pub fn new(name: &str, ns: &str) -> (e: Element)
        ensures
            e@ == elem(name@, ns@),
    {
        let e = Element { name: name.to_owned(), ns: ns.to_owned(), attrs: Vec::new(), children: Vec::new(), text: String::new() };
        assert(e@.attrs =~= Seq::<(Seq<char>, Seq<char>)>::empty());
        assert(e@.children =~= Seq::<ElementView>::empty());
        assert(e@ =~= elem(name@, ns@));
        e
    }

    /// Position of attribute `k`.
    fn attr_pos(&self, k: &str) -> (r: Option<usize>)
        ensures
            r matches Some(i) ==> i < self.attrs@.len() && attr_index(attrs_view(self.attrs@), k@) == Some(i as int),
            r is None ==> attr_index(attrs_view(self.attrs@), k@) is None,
    {
        let mut i: usize = 0;
        while i < self.attrs.len()
            invariant
                i <= self.attrs.len(),
                forall|j: int| 0 <= j < i ==> self.attrs@[j].0@ != k@,
            decreases self.attrs.len() - i,
        {
            if str_eq(self.attrs[i].0.as_str(), k) {
                proof {
                    lemma_attr_index(attrs_view(self.attrs@), k@, i as int);
                }
                return Some(i);
            }
            i += 1;
        }
        proof {
            lemma_attr_index(attrs_view(self.attrs@), k@, i as int);
        }
        None
    }

    /// Sets attribute `k` to `v` (`ElementBuilder::attr`).
    pub fn attr_set(&mut self, k: &str, v: &str)
        ensures
            final(self)@ == old(self)@.with_attr(k@, v@),
    {
        let ghost before = self@;
        proof {
            lemma_children_view(*self);
        }
        match self.attr_pos(k) {
            Some(idx) => {
                self.attrs.set(idx, (k.to_owned(), v.to_owned()));
            },
            None => {
                self.attrs.push((k.to_owned(), v.to_owned()));
            },
        }
        proof {
            lemma_children_view(*self);
        }
        assert(self@.attrs =~= before.with_attr(k@, v@).attrs);
        assert(self@.children =~= before.children);
        assert(self@ =~= before.with_attr(k@, v@));
    }

    /// The element with attribute `k` set to `v`.
    pub fn with_attr(self, k: &str, v: &str) -> (e: Element)
        ensures
            e@ == self@.with_attr(k@, v@),
    {
        let mut e = self;
        e.attr_set(k, v);
        e
    }

    /// Appends a child element (`Element::append_child`).
    pub fn push_child(&mut self, c: Element)
        ensures
            final(self)@ == old(self)@.with_child(c@),
    {
        let ghost before = self@;
        proof {
            lemma_children_view(*self);
        }
        self.children.push(c);
        proof {
            lemma_children_view(*self);
        }
        assert(self@.children =~= before.children.push(c@));
        assert(self@ =~= before.with_child(c@));
    }

    /// The element with `c` appended as its last child.
    pub fn with_child(self, c: Element) -> (e: Element)
        ensures
            e@ == self@.with_child(c@),
    {
        let mut e = self;
        e.push_child(c);
        e
    }

    /// Appends text (`Element::append_text_node`).
    pub fn push_text(&mut self, t: &str)
        ensures
            final(self)@ == old(self)@.with_text(t@),
    {
        let ghost before = self@;
        proof {
            lemma_children_view(*self);
        }
        self.text.append(t);
        proof {
            lemma_children_view(*self);
        }
        assert(self@.children =~= before.children);
        assert(self@ =~= before.with_text(t@));
    }

    /// The element with `t` appended to its text.
    pub fn with_text(self, t: &str) -> (e: Element)
        ensures
            e@ == self@.with_text(t@),
    {
        let mut e = self;
        e.push_text(t);
        e
    }

    /// A copy of the whole element tree.
    pub fn duplicate(&self) -> (r: Element)
        ensures
            r@ == self@,
        decreases self,
    {
        proof {
            lemma_children_view(*self);
        }
        let mut kids: Vec<Element> = Vec::new();
        let mut i: usize = 0;
        while i < self.children.len()
            invariant
                i <= self.children.len(),
                kids@.len() == i,
                forall|j: int| 0 <= j < i ==> #[trigger] kids@[j]@ == self.children@[j]@,
            decreases self.children.len() - i,
        {
            proof {
                assert(decreases_to!(self => self.children));
                assert(decreases_to!(self.children => self.children@));
                assert(decreases_to!(self.children@ => self.children@[i as int]));
            }
            let c = self.children[i].duplicate();
            kids.push(c);
            i += 1;
        }
        let mut attrs: Vec<(String, String)> = Vec::new();
        let mut k: usize = 0;
        while k < self.attrs.len()
            invariant
                k <= self.attrs.len(),
                attrs@.len() == k,
                attrs_view(attrs@) =~= attrs_view(self.attrs@).take(k as int),
            decreases self.attrs.len() - k,
        {
            attrs.push((self.attrs[k].0.clone(), self.attrs[k].1.clone()));
            k += 1;
            assert(attrs_view(attrs@) =~= attrs_view(self.attrs@).take(k as int));
        }
        assert(attrs_view(self.attrs@).take(k as int) =~= attrs_view(self.attrs@));
        let r = Element { name: self.name.clone(), ns: self.ns.clone(), attrs, children: kids, text: self.text.clone() };
        proof {
            lemma_children_view(r);
        }
        assert(r@.attrs =~= self@.attrs);
        assert(r@.children =~= self@.children);
        assert(r@ =~= self@);
        r
    }

    pub fn name(&self) -> (r: &str)
        ensures
            r@ == self@.name,
    {
        self.name.as_str()
    }

    pub fn ns(&self) -> (r: &str)
        ensures
            r@ == self@.ns,
    {
        self.ns.as_str()
    }

    /// The text of the element.
    pub fn text(&self) -> (r: String)
        ensures
            r@ == self@.text,
    {
        self.text.clone()
    }

    /// The child elements, in order.
    pub fn children(&self) -> (r: &Vec<Element>)
        ensures
            r@.len() == self@.children.len(),
            forall|i: int| 0 <= i < r@.len() ==> #[trigger] r@[i]@ == self@.children[i],
    {
        proof {
            lemma_children_view(*self);
        }
        &self.children
    }

    /// The value of attribute `k` (`Element::attr`).
    pub fn attr(&self, k: &str) -> (r: Option<&str>)
        ensures
            r matches Some(x) ==> self@.attr(k@) == Some(x@),
            r is None ==> self@.attr(k@) is None,
    {
        match self.attr_pos(k) {
            Some(i) => Some(self.attrs[i].1.as_str()),
            None => None,
        }
    }

    /// Whether attribute `k` is present and equal to `v`.
    pub fn attr_is(&self, k: &str, v: &str) -> (r: bool)
        ensures
            r == (self@.attr(k@) == Some(v@)),
    {
        match self.attr(k) {
            Some(x) => str_eq(x, v),
            None => false,
        }
    }

    /// Whether the element has name `n` (and namespace `ns` when given).
    pub fn is(&self, n: &str, ns: Option<&str>) -> (r: bool)
        ensures
            r == child_matches(self@, n@, opt_view(ns)),
    {
        if !str_eq(self.name.as_str(), n) {
            return false;
        }
        match ns {
            Some(x) => str_eq(self.ns.as_str(), x),
            None => true,
        }
    }

    /// The first child named `n` (in namespace `ns` when given).
    pub fn find_child(&self, n: &str, ns: Option<&str>) -> (r: Option<&Element>)
        ensures
            r matches Some(c) ==> first_child(self@.children, n@, opt_view(ns)) == Some(c@),
            r is None ==> first_child(self@.children, n@, opt_view(ns)) is None,
    {
        let ghost gns: Option<Seq<char>> = opt_view(ns);
        let ghost cs = self@.children;
        proof {
            lemma_children_view(*self);
        }
        let mut i: usize = 0;
        while i < self.children.len()
            invariant
                i <= self.children.len(),
                cs == self@.children,
                gns == opt_view(ns),
                cs.len() == self.children@.len(),
                forall|j: int| 0 <= j < self.children@.len() ==> #[trigger] cs[j] == self.children@[j]@,
                forall|j: int| 0 <= j < i ==> !child_matches(cs[j], n@, gns),
            decreases self.children.len() - i,
        {
            let b = self.children[i].is(n, ns);
            assert(self.children@[i as int]@ == cs[i as int]);
            assert(b == child_matches(cs[i as int], n@, gns));
            if b {
                proof {
                    lemma_first_child_skip(cs, n@, gns, i as int);
                    assert(cs.skip(i as int)[0] == cs[i as int]);
                }
                return Some(&self.children[i]);
            }
            i += 1;
        }
        proof {
            lemma_first_child_skip(cs, n@, gns, i as int);
            assert(cs.skip(i as int).len() == 0);
        }
        None
    }

    /// `Element::get_child`: the first child named `n` in namespace `ns`.
    pub fn get_child(&self, n: &str, ns: &str) -> (r: Option<&Element>)
        ensures
            r matches Some(c) ==> self@.child(n@, ns@) == Some(c@),
            r is None ==> self@.child(n@, ns@) is None,
    {
        self.find_child(n, Some(ns))
    }

    /// The first child named `n`, in any namespace.
    pub fn get_child_named(&self, n: &str) -> (r: Option<&Element>)
        ensures
            r matches Some(c) ==> self@.child_named(n@) == Some(c@),
            r is None ==> self@.child_named(n@) is None,
    {
        self.find_child(n, None)
    }
}

/// The first element of `cs` that satisfies `p`.
pub open spec fn first_such(cs: Seq<ElementView>, p: spec_fn(ElementView) -> bool) -> Option<ElementView>
    decreases cs.len(),
{
    if cs.len() == 0 {
        None
    } else if p(cs[0]) {
        Some(cs[0])
    } else {
        first_such(cs.drop_first(), p)
    }
}

pub proof fn lemma_first_such_skip(cs: Seq<ElementView>, p: spec_fn(ElementView) -> bool, i: int)
    requires
        0 <= i <= cs.len(),
        forall|j: int| 0 <= j < i ==> !p(#[trigger] cs[j]),
    ensures
        first_such(cs, p) == first_such(cs.skip(i), p),
    decreases i,
{
    if i > 0 {
        assert(!p(cs[0]));
        lemma_first_such_skip(cs.drop_first(), p, i - 1);
        assert(cs.drop_first().skip(i - 1) =~= cs.skip(i));
    } else {
        assert(cs.skip(0) =~= cs);
    }
}

/// Named `n`, in namespace `a` or `b`.
pub open spec fn ns_either(n: Seq<char>, a: Seq<char>, b: Seq<char>) -> spec_fn(ElementView) -> bool {
    |c: ElementView| c.name == n && (c.ns == a || c.ns == b)
}

/// Named `n`, with attribute `k` equal to `a` or `b`.
pub open spec fn attr_either(n: Seq<char>, k: Seq<char>, a: Seq<char>, b: Seq<char>) -> spec_fn(ElementView) -> bool {
    |c: ElementView| c.name == n && (c.attr(k) == Some(a) || c.attr(k) == Some(b))
}

impl Element {
    /// The first child named `n` in namespace `a` or `b`.
    pub fn find_child_ns_either(&self, n: &str, a: &str, b: &str) -> (r: Option<&Element>)
        ensures
            r matches Some(c) ==> first_such(self@.children, ns_either(n@, a@, b@)) == Some(c@),
            r is None ==> first_such(self@.children, ns_either(n@, a@, b@)) is None,
    {
        let ghost p = ns_either(n@, a@, b@);
        let ghost cs = self@.children;
        proof {
            lemma_children_view(*self);
        }
        let mut i: usize = 0;
        while i < self.children.len()
            invariant
                i <= self.children.len(),
                cs == self@.children,
                p == ns_either(n@, a@, b@),
                cs.len() == self.children@.len(),
                forall|j: int| 0 <= j < self.children@.len() ==> #[trigger] cs[j] == self.children@[j]@,
                forall|j: int| 0 <= j < i ==> !p(#[trigger] cs[j]),
            decreases self.children.len() - i,
        {
            let c = &self.children[i];
            let b2 = str_eq(c.name(), n) && (str_eq(c.ns(), a) || str_eq(c.ns(), b));
            assert(c@ == cs[i as int]);
            assert(b2 == p(cs[i as int]));
            if b2 {
                proof {
                    lemma_first_such_skip(cs, p, i as int);
                    assert(cs.skip(i as int)[0] == cs[i as int]);
                }
                return Some(c);
            }
            i += 1;
        }
        proof {
            lemma_first_such_skip(cs, p, i as int);
            assert(cs.skip(i as int).len() == 0);
        }
        None
    }

    /// The first child named `n` whose attribute `k` is `a` or `b`.
    pub fn find_child_attr_either(&self, n: &str, k: &str, a: &str, b: &str) -> (r: Option<&Element>)
        ensures
            r matches Some(c) ==> first_such(self@.children, attr_either(n@, k@, a@, b@)) == Some(c@),
            r is None ==> first_such(self@.children, attr_either(n@, k@, a@, b@)) is None,
    {
        let ghost p = attr_either(n@, k@, a@, b@);
        let ghost cs = self@.children;
        proof {
            lemma_children_view(*self);
        }
        let mut i: usize = 0;
        while i < self.children.len()
            invariant
                i <= self.children.len(),
                cs == self@.children,
                p == attr_either(n@, k@, a@, b@),
                cs.len() == self.children@.len(),
                forall|j: int| 0 <= j < self.children@.len() ==> #[trigger] cs[j] == self.children@[j]@,
                forall|j: int| 0 <= j < i ==> !p(#[trigger] cs[j]),
            decreases self.children.len() - i,
        {
            let c = &self.children[i];
            let b2 = str_eq(c.name(), n) && (c.attr_is(k, a) || c.attr_is(k, b));
            assert(c@ == cs[i as int]);
            assert(b2 == p(cs[i as int]));
            if b2 {
                proof {
                    lemma_first_such_skip(cs, p, i as int);
                    assert(cs.skip(i as int)[0] == cs[i as int]);
                }
                return Some(c);
            }
            i += 1;
        }
        proof {
            lemma_first_such_skip(cs, p, i as int);
            assert(cs.skip(i as int).len() == 0);
        }
        None
    }
}

/// The first element named `n` in namespace `ns` in a depth-first walk of
/// `e` that starts with `e` itself.
pub open spec fn find_desc(e: ElementView, n: Seq<char>, ns: Seq<char>) -> Option<ElementView>
    decreases e,
{
    if e.name == n && e.ns == ns {
        Some(e)
    } else {
        find_desc_in(e.children, n, ns)
    }
}

/// The first match of [`find_desc`] among the trees `cs`, in order.
pub open spec fn find_desc_in(cs: Seq<ElementView>, n: Seq<char>, ns: Seq<char>) -> Option<ElementView>
    decreases cs,
{
    if cs.len() == 0 {
        None
    } else {
        match find_desc(cs[0], n, ns) {
            Some(x) => Some(x),
            None => find_desc_in(cs.subrange(1, cs.len() as int), n, ns),
        }
    }
}

impl Element {
    /// The first element named `n` in namespace `ns` in a depth-first walk
    /// starting with this element.
    pub fn find_descendant(&self, n: &str, ns: &str) -> (r: Option<&Element>)
        ensures
            r matches Some(x) ==> find_desc(self@, n@, ns@) == Some(x@),
            r is None ==> find_desc(self@, n@, ns@) is None,
        decreases self,
    {
        if str_eq(self.name.as_str(), n) && str_eq(self.ns.as_str(), ns) {
            return Some(self);
        }
        proof {
            lemma_children_view(*self);
        }
        let ghost cs = self@.children;
        assert(cs.skip(0) =~= cs);
        let mut i: usize = 0;
        while i < self.children.len()
            invariant
                i <= self.children.len(),
                cs == self@.children,
                cs.len() == self.children@.len(),
                forall|j: int| 0 <= j < self.children@.len() ==> #[trigger] cs[j] == self.children@[j]@,
                find_desc(self@, n@, ns@) == find_desc_in(cs.skip(i as int), n@, ns@),
            decreases self.children.len() - i,
        {
            proof {
                assert(decreases_to!(self => self.children));
                assert(decreases_to!(self.children => self.children@));
                assert(decreases_to!(self.children@ => self.children@[i as int]));
                assert(cs.skip(i as int)[0] == cs[i as int]);
                assert(cs.skip(i as int).subrange(1, cs.skip(i as int).len() as int) =~= cs.skip(i + 1));
            }
            match self.children[i].find_descendant(n, ns) {
                Some(x) => {
                    return Some(x);
                },
                None => {},
            }
            i += 1;
        }
        None
    }
}

} // verus!
