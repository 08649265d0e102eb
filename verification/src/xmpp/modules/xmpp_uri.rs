//! `xmpp:` URIs (XEP-0147): `xmpp:JID[?ACTION[;KEY=VALUE]*]`.
use vstd::prelude::*;
use crate::util::maps::StrMap;
use crate::util::strs::{
    chars_of, find_char_from, first_index, push_char, seq_starts_with, str_eq, string_of_range,
    vec_starts_with,
};

verus! {

#[derive(Debug, Clone, PartialEq)]
pub enum XmppUriAction {
    Message,
    Join,
    Subscribe,
    Remove,
    Unknown(String),
}

/// The value of an action: the text that names it.
pub open spec fn action_text(a: XmppUriAction) -> Seq<char> {
    match a {
        XmppUriAction::Message => "message"@,
        XmppUriAction::Join => "join"@,
        XmppUriAction::Subscribe => "subscribe"@,
        XmppUriAction::Remove => "remove"@,
        XmppUriAction::Unknown(s) => s@,
    }
}

/// The action a query segment names.
pub open spec fn action_is(a: XmppUriAction, t: Seq<char>) -> bool {
    if t == "message"@ {
        a is Message
    } else if t == "join"@ {
        a is Join
    } else if t == "subscribe"@ {
        a is Subscribe
    } else if t == "remove"@ {
        a is Remove
    } else {
        a matches XmppUriAction::Unknown(s) && s@ == t
    }
}

#[derive(Debug, PartialEq)]
pub struct XmppUri {
    pub jid: String,
    pub action: XmppUriAction,
    pub params: StrMap<String>,
}

/// The end of the segment of `s` that starts at 0: the first `;`, or the end.
pub open spec fn seg_end(s: Seq<char>) -> int {
    match first_index(s, ';') {
        Some(i) => i,
        None => s.len() as int,
    }
}

/// `m` with the parameter `seg` (`KEY=VALUE`, split at the first `=`) added;
/// a segment without `=` adds nothing.
pub open spec fn add_param(m: Map<Seq<char>, Seq<char>>, seg: Seq<char>) -> Map<Seq<char>, Seq<char>> {
    match first_index(seg, '=') {
        Some(i) => m.insert(seg.take(i), seg.skip(i + 1)),
        None => m,
    }
}

/// The parameters of the `;`-separated segments of `s`, added to `m` in order.
#[verifier::opaque]
pub open spec fn params_from(s: Seq<char>, m: Map<Seq<char>, Seq<char>>) -> Map<Seq<char>, Seq<char>>
    decreases s.len(),
{
    let e = seg_end(s);
    let m2 = add_param(m, s.take(e));
    if e >= s.len() || e < 0 {
        m2
    } else {
        params_from(s.skip(e + 1), m2)
    }
}

/// The parts after `xmpp:`: the JID, the action text (`None` without `?`)
/// and the parameters.
pub open spec fn rest_parts(rest: Seq<char>) -> (Seq<char>, Option<Seq<char>>, Map<Seq<char>, Seq<char>>) {
    match first_index(rest, '?') {
        None => (rest, None, Map::empty()),
        Some(q) => {
            let query = rest.skip(q + 1);
            let e = seg_end(query);
            let params = if e < query.len() { params_from(query.skip(e + 1), Map::empty()) } else { Map::empty() };
            (rest.take(q), Some(query.take(e)), params)
        },
    }
}

/// The parts of a parsed URI; `None` unless it starts with `xmpp:`.
pub open spec fn uri_parts(uri: Seq<char>) -> Option<(Seq<char>, Option<Seq<char>>, Map<Seq<char>, Seq<char>>)> {
    if !seq_starts_with(uri, "xmpp:"@) {
        None
    } else {
        Some(rest_parts(uri.skip(5)))
    }
}

/// The parameters of a parsed URI as a map of strings.
pub open spec fn params_view(m: StrMap<String>) -> Map<Seq<char>, Seq<char>> {
    m.view().map_values(|s: String| s@)
}

/// Whether `u` is what `p` describes.
pub open spec fn uri_is(u: XmppUri, p: (Seq<char>, Option<Seq<char>>, Map<Seq<char>, Seq<char>>)) -> bool {
    &&& u.jid@ == p.0
    &&& (p.1 matches Some(t) ==> action_is(u.action, t))
    &&& (p.1 is None ==> (u.action matches XmppUriAction::Unknown(s) && s@.len() == 0))
    &&& params_view(u.params) == p.2
}

fn seg_bound(v: &Vec<char>, from: usize) -> (r: usize)
    requires
        from <= v.len(),
    ensures
        from <= r <= v.len(),
        r - from == seg_end(v@.skip(from as int)),
        r < v.len() ==> v@[r as int] == ';',
{
    match find_char_from(v, ';', from) {
        Some(i) => i,
        None => {
            v.len()
        },
    }
}

fn add_param_exec(m: &mut StrMap<String>, v: &Vec<char>, from: usize, to: usize)
    requires
        from <= to <= v.len(),
    ensures
        final(m).view().map_values(|s: String| s@) == add_param(old(m).view().map_values(|s: String| s@), v@.subrange(from as int, to as int)),
{
    let seg = string_range_vec(v, from, to);
    assert(seg@ =~= v@.subrange(from as int, to as int));
    let ghost before = m.view();
    match find_char_from(&seg, '=', 0) {
        Some(i) => {
            assert(seg@.skip(0) =~= seg@);
            let k = string_of_range(&seg, 0, i);
            let val = string_of_range(&seg, i + 1, seg.len());
            assert(seg@.subrange(0, i as int) =~= seg@.take(i as int));
            assert(seg@.subrange(i + 1, seg@.len() as int) =~= seg@.skip(i + 1));
            m.insert(k, val);
            proof {
                assert(m.view().map_values(|s: String| s@) =~= before.map_values(|s: String| s@).insert(seg@.take(i as int), seg@.skip(i + 1)));
            }
        },
        None => {
            assert(seg@.skip(0) =~= seg@);
        },
    }
}

fn string_range_vec(v: &Vec<char>, from: usize, to: usize) -> (r: Vec<char>)
    requires
        from <= to <= v.len(),
    ensures
        r@ == v@.subrange(from as int, to as int),
{
    let mut r: Vec<char> = Vec::new();
    let mut i = from;
    while i < to
        invariant
            from <= i <= to <= v.len(),
            r@ == v@.subrange(from as int, i as int),
        decreases to - i,
    {
        r.push(v[i]);
        assert(v@.subrange(from as int, i + 1) =~= v@.subrange(from as int, i as int).push(v@[i as int]));
        i += 1;
    }
    r
}

fn action_of(v: &Vec<char>, from: usize, to: usize) -> (a: XmppUriAction)
    requires
        from <= to <= v.len(),
    ensures
        action_is(a, v@.subrange(from as int, to as int)),
{
    let t = string_of_range(v, from, to);
    if str_eq(t.as_str(), "message") {
        XmppUriAction::Message
    } else if str_eq(t.as_str(), "join") {
        XmppUriAction::Join
    } else if str_eq(t.as_str(), "subscribe") {
        XmppUriAction::Subscribe
    } else if str_eq(t.as_str(), "remove") {
        XmppUriAction::Remove
    } else {
        XmppUriAction::Unknown(t)
    }
}

/// The parameters in the segments of `v[pos..]`.
fn parse_params(v: &Vec<char>, start: usize) -> (m: StrMap<String>)
    requires
        start <= v.len(),
    ensures
        params_view(m) == params_from(v@.skip(start as int), Map::empty()),
{
    let mut params: StrMap<String> = StrMap::new();
    assert(params.view().map_values(|s: String| s@) =~= Map::<Seq<char>, Seq<char>>::empty());
    let mut pos = start;
    let ghost target = params_from(v@.skip(pos as int), Map::empty());
    loop
        invariant
            pos <= v.len(),
            target == params_from(v@.skip(pos as int), params.view().map_values(|s: String| s@)),
        ensures
            target == params.view().map_values(|s: String| s@),
        decreases v.len() - pos,
    {
        let end = seg_bound(v, pos);
        let ghost s = v@.skip(pos as int);
        proof {
            reveal(params_from);
        }
        let ghost m0 = params.view().map_values(|s: String| s@);
        assert(v@.subrange(pos as int, end as int) =~= s.take(end - pos));
        add_param_exec(&mut params, v, pos, end);
        if end >= v.len() {
            break;
        }
        assert(s.skip(end - pos + 1) =~= v@.skip(end + 1));
        pos = end + 1;
    }
    params
}

fn parse_query(v: &Vec<char>, qi: usize) -> (u: XmppUri)
    requires
        5 <= qi < v.len(),
    ensures
        u.jid@ == v@.subrange(5, qi as int),
        ({
            let query = v@.skip(qi + 1);
            let e = seg_end(query);
            &&& action_is(u.action, query.take(e))
            &&& params_view(u.params) == (if e < query.len() { params_from(query.skip(e + 1), Map::empty()) } else { Map::empty() })
        }),
{
    let jid = string_of_range(v, 5, qi);
    let ghost query = v@.skip(qi + 1);
    let e = seg_bound(v, qi + 1);
    let action = action_of(v, qi + 1, e);
    assert(v@.subrange(qi + 1, e as int) =~= query.take(e - qi - 1));
    if e < v.len() {
        let params = parse_params(v, e + 1);
        assert(query.skip(e - qi - 1 + 1) =~= v@.skip(e + 1));
        XmppUri { jid, action, params }
    } else {
        let params: StrMap<String> = StrMap::new();
        assert(params_view(params) =~= Map::<Seq<char>, Seq<char>>::empty());
        XmppUri { jid, action, params }
    }
}

fn parse_rest(v: &Vec<char>) -> (u: XmppUri)
    requires
        5 <= v.len(),
    ensures
        uri_is(u, rest_parts(v@.skip(5))),
{
    let ghost rest = v@.skip(5);
    let q = find_char_from(v, '?', 5);
    match q {
        None => {
            let params: StrMap<String> = StrMap::new();
            assert(params_view(params) =~= Map::<Seq<char>, Seq<char>>::empty());
            let jid = string_of_range(v, 5, v.len());
            assert(v@.subrange(5, v@.len() as int) =~= rest);
            XmppUri { jid, action: XmppUriAction::Unknown(String::new()), params }
        },
        Some(qi) => {
            let u = parse_query(v, qi);
            assert(v@.subrange(5, qi as int) =~= rest.take(qi - 5));
            assert(rest.skip(qi - 5 + 1) =~= v@.skip(qi + 1));
            u
        },
    }
}

/// Parses an `xmpp:` URI; anything that does not start with `xmpp:` gives `None`.
pub fn parse(uri: &str) -> (r: Option<XmppUri>)
    ensures
        r is None <==> uri_parts(uri@) is None,
        r matches Some(u) ==> uri_is(u, uri_parts(uri@)->0),
{
    let v = chars_of(uri);
    let prefix = chars_of("xmpp:");
    proof {
        reveal_strlit("xmpp:");
    }
    if !vec_starts_with(&v, &prefix) {
        return None;
    }
    Some(parse_rest(&v))
}

/// The text of a built URI: `xmpp:JID?ACTION` then `;KEY=VALUE` for each pair.
pub open spec fn uri_text(jid: Seq<char>, action: Seq<char>, params: Seq<(Seq<char>, Seq<char>)>) -> Seq<char>
    decreases params.len(),
{
    if params.len() == 0 {
        "xmpp:"@ + jid + "?"@ + action
    } else {
        uri_text(jid, action, params.drop_last()) + ";"@ + params.last().0 + "="@ + params.last().1
    }
}

pub open spec fn pairs_view(params: Seq<(&str, &str)>) -> Seq<(Seq<char>, Seq<char>)> {
    Seq::new(params.len(), |i: int| (params[i].0@, params[i].1@))
}

/// Builds an `xmpp:` URI with an action and parameters, in the order given.
pub fn build(jid: &str, action: &XmppUriAction, params: &[(&str, &str)]) -> (r: String)
    ensures
        r@ == uri_text(jid@, action_text(*action), pairs_view(params@)),
{
    let action_str: &str = match action {
        XmppUriAction::Message => "message",
        XmppUriAction::Join => "join",
        XmppUriAction::Subscribe => "subscribe",
        XmppUriAction::Remove => "remove",
        XmppUriAction::Unknown(s) => s.as_str(),
    };
    let mut uri = "xmpp:".to_owned();
    uri.append(jid);
    uri.append("?");
    uri.append(action_str);
    let mut i: usize = 0;
    while i < params.len()
        invariant
            i <= params@.len(),
            uri@ == uri_text(jid@, action_text(*action), pairs_view(params@).take(i as int)),
        decreases params@.len() - i,
    {
        let (k, v) = params[i];
        uri.append(";");
        uri.append(k);
        uri.append("=");
        uri.append(v);
        proof {
            assert(pairs_view(params@).take(i + 1).drop_last() =~= pairs_view(params@).take(i as int));
        }
        i += 1;
    }
    assert(pairs_view(params@).take(params@.len() as int) =~= pairs_view(params@));
    uri
}

/// Whether `s` holds no `c`.
pub open spec fn free_of(s: Seq<char>, c: char) -> bool {
    forall|j: int| 0 <= j < s.len() ==> s[j] != c
}

/// One `;KEY=VALUE` segment.
pub open spec fn param_seg(p: (Seq<char>, Seq<char>)) -> Seq<char> {
    ";"@ + p.0 + "="@ + p.1
}

/// The `;KEY=VALUE` segments of `params`, in order.
pub open spec fn param_tail(params: Seq<(Seq<char>, Seq<char>)>) -> Seq<char>
    decreases params.len(),
{
    if params.len() == 0 {
        Seq::empty()
    } else {
        param_seg(params[0]) + param_tail(params.skip(1))
    }
}

/// `m` with each pair of `params` inserted in order, a later key replacing
/// an earlier one.
pub open spec fn insert_pairs(m: Map<Seq<char>, Seq<char>>, params: Seq<(Seq<char>, Seq<char>)>) -> Map<Seq<char>, Seq<char>>
    decreases params.len(),
{
    if params.len() == 0 {
        m
    } else {
        insert_pairs(m.insert(params[0].0, params[0].1), params.skip(1))
    }
}

proof fn lemma_first_index_at(s: Seq<char>, c: char, k: int)
    requires
        0 <= k < s.len(),
        s[k] == c,
        forall|j: int| 0 <= j < k ==> s[j] != c,
    ensures
        first_index(s, c) == Some(k),
{
    assert(0 <= k < s.len() && s[k] == c && forall|j: int| 0 <= j < k ==> s[j] != c);
    let i = choose|i: int| 0 <= i < s.len() && s[i] == c && forall|j: int| 0 <= j < i ==> s[j] != c;
    if i < k {
        assert(s[i] != c);
    } else if i > k {
        assert(s[k] != c);
    }
}

proof fn lemma_first_index_none(s: Seq<char>, c: char)
    requires
        free_of(s, c),
    ensures
        first_index(s, c) is None,
{
}

proof fn lemma_param_tail_last(params: Seq<(Seq<char>, Seq<char>)>)
    requires
        params.len() > 0,
    ensures
        param_tail(params) == param_tail(params.drop_last()) + param_seg(params.last()),
    decreases params.len(),
{
    if params.len() == 1 {
        assert(params.drop_last() =~= Seq::<(Seq<char>, Seq<char>)>::empty());
        assert(params.skip(1) =~= Seq::<(Seq<char>, Seq<char>)>::empty());
        assert(param_tail(params.skip(1)) =~= Seq::<char>::empty());
        assert(param_tail(params) =~= param_seg(params[0]));
    } else {
        let rest = params.skip(1);
        lemma_param_tail_last(rest);
        assert(params.drop_last().skip(1) =~= rest.drop_last());
        assert(rest.last() == params.last());
        assert(params.drop_last()[0] == params[0]);
        assert(param_tail(params) =~= param_tail(params.drop_last()) + param_seg(params.last()));
    }
}

proof fn lemma_uri_text(jid: Seq<char>, action: Seq<char>, params: Seq<(Seq<char>, Seq<char>)>)
    ensures
        uri_text(jid, action, params) == "xmpp:"@ + jid + "?"@ + action + param_tail(params),
    decreases params.len(),
{
    if params.len() == 0 {
        assert(uri_text(jid, action, params) =~= "xmpp:"@ + jid + "?"@ + action + param_tail(params));
    } else {
        lemma_uri_text(jid, action, params.drop_last());
        lemma_param_tail_last(params);
        assert(uri_text(jid, action, params) =~= "xmpp:"@ + jid + "?"@ + action + param_tail(params));
    }
}

proof fn lemma_params_from_tail(params: Seq<(Seq<char>, Seq<char>)>, m: Map<Seq<char>, Seq<char>>)
    requires
        params.len() > 0,
        forall|i: int|
            0 <= i < params.len() ==> free_of(#[trigger] params[i].0, ';') && free_of(params[i].0, '=') && free_of(params[i].1, ';'),
    ensures
        params_from(param_tail(params).skip(1), m) == insert_pairs(m, params),
    decreases params.len(),
{
    reveal(params_from);
    reveal_strlit(";");
    reveal_strlit("=");
    let k = params[0].0;
    let v = params[0].1;
    let rest = params.skip(1);
    let t = param_tail(rest);
    let s = param_tail(params).skip(1);
    let seg = k + "="@ + v;
    assert(s =~= seg + t);
    let n = seg.len() as int;
    assert(free_of(k, ';') && free_of(k, '=') && free_of(v, ';'));
    assert forall|j: int| 0 <= j < n implies s[j] != ';' by {
        if j < k.len() {
            assert(s[j] == k[j]);
        } else if j > k.len() {
            assert(s[j] == v[j - k.len() - 1]);
        }
    }
    if rest.len() == 0 {
        assert(t =~= Seq::<char>::empty());
        assert(s =~= seg);
        lemma_first_index_none(s, ';');
    } else {
        assert(t[0] == ';');
        assert(s[n] == ';');
        lemma_first_index_at(s, ';', n);
    }
    assert(seg_end(s) == n);
    assert(s.take(n) =~= seg);
    assert(seg[k.len() as int] == '=');
    assert forall|j: int| 0 <= j < k.len() implies seg[j] != '=' by {
        assert(seg[j] == k[j]);
    }
    lemma_first_index_at(seg, '=', k.len() as int);
    assert(seg.take(k.len() as int) =~= k);
    assert(seg.skip(k.len() as int + 1) =~= v);
    assert(add_param(m, s.take(n)) == m.insert(k, v));
    if rest.len() == 0 {
        assert(insert_pairs(m.insert(k, v), rest) == m.insert(k, v));
    } else {
        assert(s.skip(n + 1) =~= t.skip(1));
        assert forall|i: int|
            0 <= i < rest.len() implies free_of(#[trigger] rest[i].0, ';') && free_of(rest[i].0, '=') && free_of(rest[i].1, ';') by {
            assert(rest[i] == params[i + 1]);
        }
        lemma_params_from_tail(rest, m.insert(k, v));
    }
}

/// A URI built from an address without `?`, an action without `;`, and
/// parameters whose keys hold neither `;` nor `=` and whose values hold no
/// `;`, parses back to that address, that action's text and those
/// parameters, a later key replacing an earlier one.
pub proof fn law_build_then_parse(jid: Seq<char>, action: Seq<char>, params: Seq<(Seq<char>, Seq<char>)>)
    requires
        free_of(jid, '?'),
        free_of(action, ';'),
        forall|i: int|
            0 <= i < params.len() ==> free_of(#[trigger] params[i].0, ';') && free_of(params[i].0, '=') && free_of(params[i].1, ';'),
    ensures
        uri_parts(uri_text(jid, action, params)) == Some((jid, Some(action), insert_pairs(Map::empty(), params))),
{
    reveal_strlit("xmpp:");
    reveal_strlit("?");
    lemma_uri_text(jid, action, params);
    let u = uri_text(jid, action, params);
    let t = param_tail(params);
    assert(u.subrange(0, 5) =~= "xmpp:"@);
    let rest = u.skip(5);
    assert(rest =~= jid + "?"@ + action + t);
    assert forall|j: int| 0 <= j < jid.len() implies rest[j] != '?' by {
        assert(rest[j] == jid[j]);
    }
    lemma_first_index_at(rest, '?', jid.len() as int);
    assert(rest.take(jid.len() as int) =~= jid);
    let query = rest.skip(jid.len() as int + 1);
    assert(query =~= action + t);
    assert forall|j: int| 0 <= j < action.len() implies query[j] != ';' by {
        assert(query[j] == action[j]);
    }
    if params.len() == 0 {
        assert(t =~= Seq::<char>::empty());
        assert(query =~= action);
        lemma_first_index_none(query, ';');
        assert(query.take(query.len() as int) =~= action);
    } else {
        reveal_strlit(";");
        assert(t[0] == ';');
        assert(query[action.len() as int] == ';');
        lemma_first_index_at(query, ';', action.len() as int);
        assert(query.take(action.len() as int) =~= action);
        assert(query.skip(action.len() as int + 1) =~= t.skip(1));
        lemma_params_from_tail(params, Map::empty());
    }
}

} // verus!
