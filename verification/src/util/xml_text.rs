//! The XML text of an element tree, as the debug console shows it.
use vstd::prelude::*;
use crate::util::strs::{chars_of, push_char};
use crate::util::xml::{Element, ElementView, lemma_children_view};

verus! {

/// A character as it stands in XML text or in a quoted attribute value.
pub open spec fn escape_char(c: char) -> Seq<char> {
    if c == '&' {
        "&amp;"@
    } else if c == '<' {
        "&lt;"@
    } else if c == '>' {
        "&gt;"@
    } else if c == '\'' {
        "&apos;"@
    } else if c == '"' {
        "&quot;"@
    } else {
        seq![c]
    }
}

/// `s` with each character escaped.
pub open spec fn escaped(s: Seq<char>) -> Seq<char>
    decreases s.len(),
{
    if s.len() == 0 {
        Seq::empty()
    } else {
        escaped(s.drop_last()) + escape_char(s.last())
    }
}

/// ` key='value'` for each attribute, in order.
pub open spec fn attrs_text(a: Seq<(Seq<char>, Seq<char>)>) -> Seq<char>
    decreases a.len(),
{
    if a.len() == 0 {
        Seq::empty()
    } else {
        attrs_text(a.drop_last()) + " "@ + a.last().0 + "='"@ + escaped(a.last().1) + "'"@
    }
}

/// The texts, one after the other.
pub open spec fn concat_all(ss: Seq<Seq<char>>) -> Seq<char>
    decreases ss.len(),
{
    if ss.len() == 0 {
        Seq::empty()
    } else {
        concat_all(ss.drop_last()) + ss.last()
    }
}

/// The start tag of `e` without its closing `>`: the name, the namespace
/// where it differs from that of the parent, and the attributes.
pub open spec fn open_tag(e: ElementView, parent_ns: Seq<char>) -> Seq<char> {
    "<"@ + e.name + (if e.ns == parent_ns {
        Seq::<char>::empty()
    } else {
        " xmlns='"@ + escaped(e.ns) + "'"@
    }) + attrs_text(e.attrs)
}

/// The XML text of each child of `e`, in order.
pub open spec fn child_texts(e: ElementView) -> Seq<Seq<char>>
    decreases e, 0int,
{
    Seq::new(
        e.children.len(),
        |i: int|
            {
                if 0 <= i < e.children.len() {
                    proof {
                        assert(decreases_to!(e => e.children));
                        assert(decreases_to!(e.children => e.children[i]));
                    }
                    xml_text(e.children[i], e.ns)
                } else {
                    Seq::<char>::empty()
                }
            },
    )
}

/// The XML text of `e` under a parent in namespace `parent_ns`: an empty
/// element closes its start tag; otherwise its escaped text, then its
/// children in order, then the end tag.
pub open spec fn xml_text(e: ElementView, parent_ns: Seq<char>) -> Seq<char>
    decreases e, 1int,
{
    if e.children.len() == 0 && e.text.len() == 0 {
        open_tag(e, parent_ns) + "/>"@
    } else {
        open_tag(e, parent_ns) + ">"@ + escaped(e.text) + concat_all(child_texts(e)) + "</"@ + e.name + ">"@
    }
}

/// The XML text of a stanza on its own.
pub open spec fn stanza_text(e: ElementView) -> Seq<char> {
    xml_text(e, Seq::empty())
}

fn push_escaped(out: &mut String, s: &str)
    ensures
        final(out)@ == old(out)@ + escaped(s@),
{
    let v = chars_of(s);
    let ghost o0 = out@;
    let mut i: usize = 0;
    while i < v.len()
        invariant
            i <= v@.len(),
            v@ == s@,
            out@ == o0 + escaped(v@.take(i as int)),
        decreases v@.len() - i,
    {
        let c = v[i];
        let ghost before = out@;
        if c == '&' {
            out.append("&amp;");
        } else if c == '<' {
            out.append("&lt;");
        } else if c == '>' {
            out.append("&gt;");
        } else if c == '\'' {
            out.append("&apos;");
        } else if c == '"' {
            out.append("&quot;");
        } else {
            push_char(out, c);
            assert(out@ =~= before + seq![c]);
        }
        proof {
            assert(v@.take(i + 1).drop_last() =~= v@.take(i as int));
            assert(out@ =~= o0 + escaped(v@.take(i + 1)));
        }
        i += 1;
    }
    assert(v@.take(v@.len() as int) =~= v@);
}

fn push_attrs(out: &mut String, attrs: &Vec<(String, String)>)
    ensures
        final(out)@ == old(out)@ + attrs_text(crate::util::xml::attrs_view(attrs@)),
{
    let ghost o0 = out@;
    let ghost av = crate::util::xml::attrs_view(attrs@);
    let mut i: usize = 0;
    while i < attrs.len()
        invariant
            i <= attrs@.len(),
            av == crate::util::xml::attrs_view(attrs@),
            out@ == o0 + attrs_text(av.take(i as int)),
        decreases attrs@.len() - i,
    {
        let ghost before = out@;
        out.append(" ");
        out.append(attrs[i].0.as_str());
        out.append("='");
        push_escaped(out, attrs[i].1.as_str());
        out.append("'");
        proof {
            assert(av.take(i + 1).drop_last() =~= av.take(i as int));
            assert(av.take(i + 1).last() == av[i as int]);
            assert(out@ =~= o0 + attrs_text(av.take(i + 1)));
        }
        i += 1;
    }
    assert(av.take(attrs@.len() as int) =~= av);
}

/// Appends the XML text of `e`, under a parent in namespace `parent_ns`.
#[verifier::spinoff_prover]
#[verifier::rlimit(40)]
pub fn write_xml(e: &Element, parent_ns: &str, out: &mut String)
    ensures
        final(out)@ == old(out)@ + xml_text(e@, parent_ns@),
    decreases e,
{
    proof {
        lemma_children_view(*e);
    }
    let ghost o0 = out@;
    out.append("<");
    out.append(e.name.as_str());
    if !crate::util::strs::str_eq(e.ns.as_str(), parent_ns) {
        out.append(" xmlns='");
        push_escaped(out, e.ns.as_str());
        out.append("'");
    }
    push_attrs(out, &e.attrs);
    assert(out@ =~= o0 + open_tag(e@, parent_ns@));
    let ghost o1 = out@;
    if e.children.len() == 0 && e.text.as_str().is_empty() {
        out.append("/>");
        return;
    }
    out.append(">");
    push_escaped(out, e.text.as_str());
    let ghost kids = child_texts(e@);
    let ghost ev = e@;
    let ghost o2 = out@;
    let mut i: usize = 0;
    while i < e.children.len()
        invariant
            i <= e.children@.len(),
            e.children@.len() == e@.children.len(),
            forall|k: int| 0 <= k < e.children@.len() ==> #[trigger] e@.children[k] == e.children@[k]@,
            ev == e@,
            kids == child_texts(ev),
            kids.len() == ev.children.len(),
            out@ == o2 + concat_all(kids.take(i as int)),
        decreases e.children@.len() - i,
    {
        proof {
            assert(decreases_to!(*e => e.children));
            assert(decreases_to!(e.children => e.children@));
            assert(decreases_to!(e.children@ => e.children@[i as int]));
        }
        write_xml(&e.children[i], e.ns.as_str(), out);
        proof {
            assert(kids.take(i + 1).drop_last() =~= kids.take(i as int));
            assert(kids[i as int] == xml_text(ev.children[i as int], ev.ns));
            assert(out@ =~= o2 + concat_all(kids.take(i + 1)));
        }
        i += 1;
    }
    assert(kids.take(e.children@.len() as int) =~= kids);
    out.append("</");
    out.append(e.name.as_str());
    out.append(">");
}

/// The XML text of a stanza.
pub fn stanza_xml(e: &Element) -> (r: String)
    ensures
        r@ == stanza_text(e@),
{
    let mut out = String::new();
    proof {
        reveal_strlit("");
        assert(""@ =~= Seq::<char>::empty());
    }
    let ghost o0 = out@;
    write_xml(e, "", &mut out);
    assert(o0 =~= Seq::<char>::empty());
    assert(out@ =~= stanza_text(e@));
    out
}

} // verus!
