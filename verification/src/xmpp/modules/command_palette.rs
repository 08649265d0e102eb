//! Fuzzy search over the commands of the command palette.
//!
//! Scores, case-insensitive: 100 when the label equals the query, 80 when it
//! starts with it, 60 when it contains it, 40 when a keyword starts with it,
//! 20 when a keyword contains it; commands scoring 0 are left out. An empty
//! query returns every command with score 0. Results are ordered by score,
//! highest first, then by label; commands that tie keep their input order.
use vstd::prelude::*;
use crate::util::ext::{lowercase, to_lowercase};
use crate::util::order::{lemma_lt_irrefl, lemma_lt_trans, seq_lt, str_lt};
use crate::util::strs::{chars_of, seq_contains, seq_starts_with, vec_contains, vec_starts_with};

verus! {

/// A command offered in the palette.
#[derive(Debug, Clone, PartialEq)]
pub struct Command {
    pub id: String,
    pub label: String,
    pub description: String,
    pub keywords: Vec<String>,
}

/// A command and how well it matched the query.
#[derive(Debug, Clone)]
pub struct CommandMatch {
    pub command: Command,
    /// 0 to 100, higher is better.
    pub score: u32,
}

pub struct CommandView {
    pub id: Seq<char>,
    pub label: Seq<char>,
    pub description: Seq<char>,
    pub keywords: Seq<Seq<char>>,
}

pub struct MatchView {
    pub command: CommandView,
    pub score: u32,
}

impl View for Command {
    type V = CommandView;

    open spec fn view(&self) -> CommandView {
        CommandView {
            id: self.id@,
            label: self.label@,
            description: self.description@,
            keywords: Seq::new(self.keywords@.len(), |i: int| self.keywords@[i]@),
        }
    }
}

impl View for CommandMatch {
    type V = MatchView;

    open spec fn view(&self) -> MatchView {
        MatchView { command: self.command@, score: self.score }
    }
}

/// Score of one keyword against the lower-cased query `q`.
pub open spec fn keyword_score(k: Seq<char>, q: Seq<char>) -> u32 {
    let lk = lowercase(k);
    if seq_starts_with(lk, q) {
        40
    } else if seq_contains(lk, q) {
        20
    } else {
        0
    }
}

/// Best keyword score.
pub open spec fn keywords_score(ks: Seq<Seq<char>>, q: Seq<char>) -> u32
    decreases ks.len(),
{
    if ks.len() == 0 {
        0
    } else {
        let a = keywords_score(ks.drop_last(), q);
        let b = keyword_score(ks.last(), q);
        if a >= b { a } else { b }
    }
}

/// Score of a command against the lower-cased query `q`.
pub open spec fn score_of(c: CommandView, q: Seq<char>) -> u32 {
    let l = lowercase(c.label);
    if l == q {
        100
    } else if seq_starts_with(l, q) {
        80
    } else if seq_contains(l, q) {
        60
    } else {
        keywords_score(c.keywords, q)
    }
}

/// `a` goes before `b`: higher score, or equal score and smaller label.
pub open spec fn match_lt(a: MatchView, b: MatchView) -> bool {
    a.score > b.score || (a.score == b.score && seq_lt(a.command.label, b.command.label))
}

/// `x` inserted into `s` before the first element that it goes before.
pub open spec fn ins(s: Seq<MatchView>, x: MatchView) -> Seq<MatchView>
    decreases s.len(),
{
    if s.len() == 0 {
        seq![x]
    } else if match_lt(x, s[0]) {
        seq![x] + s
    } else {
        seq![s[0]] + ins(s.drop_first(), x)
    }
}

/// Stable insertion sort of `s` by [`match_lt`].
pub open spec fn sort_matches(s: Seq<MatchView>) -> Seq<MatchView>
    decreases s.len(),
{
    if s.len() == 0 {
        Seq::empty()
    } else {
        ins(sort_matches(s.drop_last()), s.last())
    }
}

/// The commands with a positive score against the lower-cased query `q`, in input order.
pub open spec fn scored(cmds: Seq<CommandView>, q: Seq<char>) -> Seq<MatchView> {
    cmds.map_values(|c: CommandView| MatchView { command: c, score: score_of(c, q) }).filter(|m: MatchView| m.score > 0)
}

/// The matches that `search` orders: every command with score 0 for an
/// empty query, else the commands with a positive score.
pub open spec fn search_input(cmds: Seq<CommandView>, query: Seq<char>) -> Seq<MatchView> {
    if query.len() == 0 {
        cmds.map_values(|c: CommandView| MatchView { command: c, score: 0 })
    } else {
        scored(cmds, lowercase(query))
    }
}

/// What `search` returns: its input matches, stably sorted.
pub open spec fn search_spec(cmds: Seq<CommandView>, query: Seq<char>) -> Seq<MatchView> {
    sort_matches(search_input(cmds, query))
}

/// No match of `s` goes before one that precedes it.
pub open spec fn matches_sorted(s: Seq<MatchView>) -> bool {
    forall|i: int, j: int| 0 <= i < j < s.len() ==> !match_lt(#[trigger] s[j], #[trigger] s[i])
}

proof fn lemma_match_lt_trans(a: MatchView, b: MatchView, c: MatchView)
    requires
        match_lt(a, b),
        match_lt(b, c),
    ensures
        match_lt(a, c),
{
    if a.score == b.score && b.score == c.score {
        lemma_lt_trans(a.command.label, b.command.label, c.command.label);
    }
}

proof fn lemma_match_lt_irrefl(a: MatchView)
    ensures
        !match_lt(a, a),
{
    lemma_lt_irrefl(a.command.label);
}

/// Inserting into sorted matches keeps them sorted and adds the one match.
proof fn lemma_ins_sorted(s: Seq<MatchView>, x: MatchView)
    requires
        matches_sorted(s),
    ensures
        matches_sorted(ins(s, x)),
        ins(s, x).to_multiset() == s.to_multiset().insert(x),
    decreases s.len(),
{
    broadcast use vstd::seq_lib::group_to_multiset_ensures;
    broadcast use vstd::multiset::group_multiset_axioms;

    if s.len() == 0 {
        assert(seq![x] =~= Seq::<MatchView>::empty().push(x));
    } else if match_lt(x, s[0]) {
        let r = seq![x] + s;
        assert forall|i: int, j: int| 0 <= i < j < r.len() implies !match_lt(#[trigger] r[j], #[trigger] r[i]) by {
            if i == 0 {
                if match_lt(r[j], x) {
                    lemma_match_lt_trans(r[j], x, s[0]);
                    if j == 1 {
                        lemma_match_lt_irrefl(s[0]);
                    } else {
                        assert(!match_lt(s[j - 1], s[0]));
                    }
                }
            } else {
                assert(r[i] == s[i - 1] && r[j] == s[j - 1]);
            }
        }
        vstd::seq_lib::lemma_multiset_commutative(seq![x], s);
        assert(seq![x] =~= Seq::<MatchView>::empty().push(x));
        assert(r.to_multiset() =~= s.to_multiset().insert(x));
    } else {
        let rest = s.drop_first();
        assert(matches_sorted(rest)) by {
            assert forall|i: int, j: int| 0 <= i < j < rest.len() implies !match_lt(#[trigger] rest[j], #[trigger] rest[i]) by {
                assert(rest[i] == s[i + 1] && rest[j] == s[j + 1]);
            }
        }
        lemma_ins_sorted(rest, x);
        let t = ins(rest, x);
        let r = seq![s[0]] + t;
        assert forall|i: int, j: int| 0 <= i < j < r.len() implies !match_lt(#[trigger] r[j], #[trigger] r[i]) by {
            if i == 0 {
                let e = t[j - 1];
                assert(t.to_multiset().count(e) > 0) by {
                    assert(t.contains(e));
                }
                if e != x {
                    assert(rest.to_multiset().count(e) > 0);
                    assert(rest.contains(e));
                    let k = choose|k: int| 0 <= k < rest.len() && rest[k] == e;
                    assert(s[k + 1] == e);
                    assert(!match_lt(s[k + 1], s[0]));
                }
            } else {
                assert(r[i] == t[i - 1] && r[j] == t[j - 1]);
            }
        }
        vstd::seq_lib::lemma_multiset_commutative(seq![s[0]], t);
        vstd::seq_lib::lemma_multiset_commutative(seq![s[0]], rest);
        assert(seq![s[0]] + rest =~= s);
        assert(r.to_multiset() =~= s.to_multiset().insert(x));
    }
}

/// The sort orders its matches and keeps each of them, each as often.
pub proof fn lemma_sort_matches(s: Seq<MatchView>)
    ensures
        matches_sorted(sort_matches(s)),
        sort_matches(s).to_multiset() == s.to_multiset(),
    decreases s.len(),
{
    broadcast use vstd::seq_lib::group_to_multiset_ensures;

    if s.len() == 0 {
        assert(s.to_multiset() =~= Seq::<MatchView>::empty().to_multiset());
    } else {
        lemma_sort_matches(s.drop_last());
        lemma_ins_sorted(sort_matches(s.drop_last()), s.last());
        assert(s.drop_last().push(s.last()) =~= s);
    }
}

proof fn lemma_ins_at(s: Seq<MatchView>, x: MatchView, p: int)
    requires
        0 <= p <= s.len(),
        forall|j: int| 0 <= j < p ==> !match_lt(x, #[trigger] s[j]),
        p < s.len() ==> match_lt(x, s[p]),
    ensures
        ins(s, x) == s.take(p) + seq![x] + s.skip(p),
    decreases p,
{
    if p == 0 {
        if s.len() == 0 {
            assert(s.take(0) + seq![x] + s.skip(0) =~= seq![x]);
        } else {
            assert(s.take(0) + seq![x] + s.skip(0) =~= seq![x] + s);
        }
    } else {
        assert(!match_lt(x, s[0]));
        lemma_ins_at(s.drop_first(), x, p - 1);
        assert(seq![s[0]] + (s.drop_first().take(p - 1) + seq![x] + s.drop_first().skip(p - 1)) =~= s.take(p) + seq![x] + s.skip(p));
    }
}

fn copy_keywords(ks: &Vec<String>) -> (r: Vec<String>)
    ensures
        r@.len() == ks@.len(),
        forall|i: int| 0 <= i < ks@.len() ==> #[trigger] r@[i]@ == ks@[i]@,
{
    let mut r: Vec<String> = Vec::new();
    let mut i: usize = 0;
    while i < ks.len()
        invariant
            i <= ks@.len(),
            r@.len() == i,
            forall|j: int| 0 <= j < i ==> #[trigger] r@[j]@ == ks@[j]@,
        decreases ks@.len() - i,
    {
        r.push(ks[i].clone());
        i += 1;
    }
    r
}

fn copy_command(c: &Command) -> (r: Command)
    ensures
        r@ == c@,
{
    let r = Command { id: c.id.clone(), label: c.label.clone(), description: c.description.clone(), keywords: copy_keywords(&c.keywords) };
    assert(r@.keywords =~= c@.keywords);
    r
}

fn match_lt_exec(a: &CommandMatch, b: &CommandMatch) -> (r: bool)
    ensures
        r == match_lt(a@, b@),
{
    a.score > b.score || (a.score == b.score && str_lt(a.command.label.as_str(), b.command.label.as_str()))
}

/// Inserts `x` where [`ins`] puts it.
fn insert_match(r: &mut Vec<CommandMatch>, x: CommandMatch)
    ensures
        final(r)@.map_values(|m: CommandMatch| m@) == ins(old(r)@.map_values(|m: CommandMatch| m@), x@),
{
    let ghost s = r@.map_values(|m: CommandMatch| m@);
    let mut p: usize = 0;
    while p < r.len() && !match_lt_exec(&x, &r[p])
        invariant
            p <= r@.len(),
            s == r@.map_values(|m: CommandMatch| m@),
            forall|j: int| 0 <= j < p ==> !match_lt(x@, #[trigger] s[j]),
        decreases r@.len() - p,
    {
        p += 1;
    }
    proof {
        lemma_ins_at(s, x@, p as int);
    }
    let ghost xv = x@;
    r.insert(p, x);
    assert(r@.map_values(|m: CommandMatch| m@) =~= s.take(p as int) + seq![xv] + s.skip(p as int));
}

fn keyword_score_exec(k: &String, q: &Vec<char>) -> (r: u32)
    ensures
        r == keyword_score(k@, q@),
{
    let lk = chars_of(to_lowercase(k.as_str()).as_str());
    if vec_starts_with(&lk, q) {
        40
    } else if vec_contains(&lk, q) {
        20
    } else {
        0
    }
}

fn score_exec(c: &Command, q: &Vec<char>) -> (r: u32)
    ensures
        r == score_of(c@, q@),
{
    let l = chars_of(to_lowercase(c.label.as_str()).as_str());
    let eq = l.len() == q.len() && vec_starts_with(&l, q);
    proof {
        if l@.len() == q@.len() {
            assert(l@ =~= l@.subrange(0, q@.len() as int));
        }
    }
    assert(eq == (l@ == q@));
    if eq {
        return 100;
    }
    if vec_starts_with(&l, q) {
        return 80;
    }
    if vec_contains(&l, q) {
        return 60;
    }
    let ghost ks = c@.keywords;
    let mut best: u32 = 0;
    let mut i: usize = 0;
    while i < c.keywords.len()
        invariant
            i <= c.keywords@.len(),
            ks == c@.keywords,
            ks.len() == c.keywords@.len(),
            best == keywords_score(ks.take(i as int), q@),
        decreases c.keywords@.len() - i,
    {
        let s = keyword_score_exec(&c.keywords[i], q);
        proof {
            assert(ks.take(i + 1).drop_last() =~= ks.take(i as int));
            assert(ks.take(i + 1).last() == c.keywords@[i as int]@);
        }
        if s > best {
            best = s;
        }
        i += 1;
    }
    assert(ks.take(c.keywords@.len() as int) =~= ks);
    best
}

/// Searches `commands` for `query`; see the module documentation for the scores and order.
pub fn search(commands: &[Command], query: &str) -> (r: Vec<CommandMatch>)
    ensures
        r@.map_values(|m: CommandMatch| m@) == search_spec(commands@.map_values(|c: Command| c@), query@),
        matches_sorted(r@.map_values(|m: CommandMatch| m@)),
        r@.map_values(|m: CommandMatch| m@).to_multiset() == search_input(commands@.map_values(|c: Command| c@), query@).to_multiset(),
{
    let ghost cv = commands@.map_values(|c: Command| c@);
    proof {
        lemma_sort_matches(search_input(cv, query@));
    }
    let empty = query.is_empty();
    let mut r: Vec<CommandMatch> = Vec::new();
    let mut i: usize = 0;
    if empty {
        let ghost src = cv.map_values(|c: CommandView| MatchView { command: c, score: 0 });
        while i < commands.len()
            invariant
                i <= commands@.len(),
                cv == commands@.map_values(|c: Command| c@),
                src == cv.map_values(|c: CommandView| MatchView { command: c, score: 0 }),
                r@.map_values(|m: CommandMatch| m@) == sort_matches(src.take(i as int)),
            decreases commands@.len() - i,
        {
            let m = CommandMatch { command: copy_command(&commands[i]), score: 0 };
            proof {
                assert(src.take(i + 1).drop_last() =~= src.take(i as int));
                assert(src.take(i + 1).last() == m@);
            }
            insert_match(&mut r, m);
            i += 1;
        }
        assert(src.take(commands@.len() as int) =~= src);
        return r;
    }
    let q = chars_of(to_lowercase(query).as_str());
    let ghost all = cv.map_values(|c: CommandView| MatchView { command: c, score: score_of(c, q@) });
    let ghost pos = |m: MatchView| m.score > 0;
    while i < commands.len()
        invariant
            i <= commands@.len(),
            cv == commands@.map_values(|c: Command| c@),
            all == cv.map_values(|c: CommandView| MatchView { command: c, score: score_of(c, q@) }),
            pos == (|m: MatchView| m.score > 0),
            r@.map_values(|m: CommandMatch| m@) == sort_matches(all.take(i as int).filter(pos)),
        decreases commands@.len() - i,
    {
        let s = score_exec(&commands[i], &q);
        proof {
            reveal(Seq::filter);
            assert(all.take(i + 1).drop_last() =~= all.take(i as int));
            assert(all.take(i + 1).last() == MatchView { command: commands@[i as int]@, score: s });
        }
        if s > 0 {
            let m = CommandMatch { command: copy_command(&commands[i]), score: s };
            proof {
                assert(all.take(i + 1).filter(pos) == all.take(i as int).filter(pos).push(m@));
                assert(all.take(i as int).filter(pos).push(m@).drop_last() =~= all.take(i as int).filter(pos));
            }
            insert_match(&mut r, m);
        }
        i += 1;
    }
    assert(all.take(commands@.len() as int) =~= all);
    r
}

/// The keyword score is the best over all keywords, whatever their order:
/// no keyword scores more, and unless it is 0 some keyword scores exactly it.
pub proof fn law_keywords_best(ks: Seq<Seq<char>>, q: Seq<char>)
    ensures
        forall|i: int| 0 <= i < ks.len() ==> keywords_score(ks, q) >= #[trigger] keyword_score(ks[i], q),
        keywords_score(ks, q) == 0 || exists|i: int| 0 <= i < ks.len() && keywords_score(ks, q) == #[trigger] keyword_score(ks[i], q),
    decreases ks.len(),
{
    if ks.len() > 0 {
        let init = ks.drop_last();
        law_keywords_best(init, q);
        assert forall|i: int| 0 <= i < ks.len() implies keywords_score(ks, q) >= #[trigger] keyword_score(ks[i], q) by {
            if i < init.len() {
                assert(ks[i] == init[i]);
            }
        }
        if keywords_score(ks, q) != 0 {
            if keywords_score(ks, q) == keyword_score(ks.last(), q) {
                assert(keyword_score(ks[ks.len() - 1], q) == keywords_score(ks, q));
            } else {
                let i = choose|i: int| 0 <= i < init.len() && keywords_score(init, q) == #[trigger] keyword_score(init[i], q);
                assert(ks[i] == init[i]);
            }
        }
    }
}

/// A label that starts with a text also contains it.
proof fn lemma_prefix_contained(l: Seq<char>, q: Seq<char>)
    requires
        seq_starts_with(l, q),
    ensures
        seq_contains(l, q),
{
    assert(l.subrange(0int, 0int + q.len()) == q);
}

/// When the label (lower-cased) does not contain the lower-cased query
/// `q`, a command whose keyword, lower-cased, starts with `q` scores 40,
/// and one none of whose keywords contains `q` scores 0 and is left out.
pub proof fn law_keyword_match_scores(c: CommandView, q: Seq<char>)
    requires
        !seq_contains(lowercase(c.label), q),
    ensures
        (exists|i: int| 0 <= i < c.keywords.len() && seq_starts_with(#[trigger] lowercase(c.keywords[i]), q)) ==> score_of(c, q) == 40,
        (forall|i: int| 0 <= i < c.keywords.len() ==> !seq_contains(#[trigger] lowercase(c.keywords[i]), q)) ==> score_of(c, q) == 0,
{
    let l = lowercase(c.label);
    if l == q {
        assert(l.subrange(0int, 0int + q.len()) =~= q);
    }
    if seq_starts_with(l, q) {
        lemma_prefix_contained(l, q);
    }
    law_keywords_best(c.keywords, q);
    lemma_keywords_at_most_40(c.keywords, q);
    if exists|i: int| 0 <= i < c.keywords.len() && seq_starts_with(#[trigger] lowercase(c.keywords[i]), q) {
        let i = choose|i: int| 0 <= i < c.keywords.len() && seq_starts_with(#[trigger] lowercase(c.keywords[i]), q);
        assert(keyword_score(c.keywords[i], q) == 40);
    }
    if forall|i: int| 0 <= i < c.keywords.len() ==> !seq_contains(#[trigger] lowercase(c.keywords[i]), q) {
        if keywords_score(c.keywords, q) != 0 {
            let i = choose|i: int| 0 <= i < c.keywords.len() && keywords_score(c.keywords, q) == #[trigger] keyword_score(c.keywords[i], q);
            assert(!seq_contains(lowercase(c.keywords[i]), q));
            if seq_starts_with(lowercase(c.keywords[i]), q) {
                lemma_prefix_contained(lowercase(c.keywords[i]), q);
            }
        }
    }
}

proof fn lemma_keywords_at_most_40(ks: Seq<Seq<char>>, q: Seq<char>)
    ensures
        keywords_score(ks, q) <= 40,
    decreases ks.len(),
{
    if ks.len() > 0 {
        lemma_keywords_at_most_40(ks.drop_last(), q);
    }
}

/// Against the lower-cased query `q`, a command whose lower-cased label is
/// `q` scores 100, one whose label starts with `q` (and is longer) 80, one
/// whose label contains `q` elsewhere 60; a label without `q` leaves the
/// score to the keywords: 40 when one starts with `q`, 20 when one contains
/// it and none starts with it.
pub proof fn law_label_scores(c: CommandView, q: Seq<char>)
    ensures
        lowercase(c.label) == q ==> score_of(c, q) == 100,
        lowercase(c.label) != q && seq_starts_with(lowercase(c.label), q) ==> score_of(c, q) == 80,
        !seq_starts_with(lowercase(c.label), q) && seq_contains(lowercase(c.label), q) ==> score_of(c, q) == 60,
        !seq_contains(lowercase(c.label), q) && (exists|i: int| 0 <= i < c.keywords.len() && seq_contains(
            #[trigger] lowercase(c.keywords[i]),
            q,
        )) && (forall|i: int| 0 <= i < c.keywords.len() ==> !seq_starts_with(#[trigger] lowercase(c.keywords[i]), q))
            ==> score_of(c, q) == 20,
{
    let l = lowercase(c.label);
    if l == q {
        assert(l.subrange(0int, 0int + q.len()) =~= q);
    }
    if seq_starts_with(l, q) {
        lemma_prefix_contained(l, q);
    }
    if !seq_contains(l, q) {
        law_keywords_best(c.keywords, q);
        lemma_keywords_at_most_40(c.keywords, q);
        if exists|i: int| 0 <= i < c.keywords.len() && seq_contains(#[trigger] lowercase(c.keywords[i]), q) {
            if forall|i: int| 0 <= i < c.keywords.len() ==> !seq_starts_with(#[trigger] lowercase(c.keywords[i]), q) {
                let i = choose|i: int| 0 <= i < c.keywords.len() && seq_contains(#[trigger] lowercase(c.keywords[i]), q);
                assert(keyword_score(c.keywords[i], q) == 20);
                if keywords_score(c.keywords, q) != 20 {
                    let j = choose|j: int| 0 <= j < c.keywords.len() && keywords_score(c.keywords, q) == #[trigger] keyword_score(c.keywords[j], q);
                    assert(!seq_starts_with(lowercase(c.keywords[j]), q));
                }
            }
        }
    }
}

/// For a non-empty query, the matches are exactly the commands scoring
/// above 0, with their scores; for an empty one, every command with score 0.
pub proof fn law_search_members(cmds: Seq<CommandView>, query: Seq<char>, m: MatchView)
    ensures
        query.len() > 0 ==> (search_input(cmds, query).contains(m) <==> (cmds.contains(m.command) && m.score == score_of(
            m.command,
            lowercase(query),
        ) && m.score > 0)),
        query.len() == 0 ==> (search_input(cmds, query).contains(m) <==> (cmds.contains(m.command) && m.score == 0)),
{
    let q = lowercase(query);
    let f = |c: CommandView| MatchView { command: c, score: score_of(c, q) };
    let z = |c: CommandView| MatchView { command: c, score: 0 };
    let all = cmds.map_values(f);
    let pos = |x: MatchView| x.score > 0;
    if query.len() > 0 {
        all.filter_lemma(pos);
        if search_input(cmds, query).contains(m) {
            let k = choose|k: int| 0 <= k < all.filter(pos).len() && all.filter(pos)[k] == m;
            assert(pos(all.filter(pos)[k]));
            all.lemma_filter_contains_rev(pos, m);
            let j = choose|j: int| 0 <= j < all.len() && all[j] == m;
            assert(cmds[j] == m.command);
        }
        if cmds.contains(m.command) && m.score == score_of(m.command, q) && m.score > 0 {
            let j = choose|j: int| 0 <= j < cmds.len() && cmds[j] == m.command;
            assert(all[j] == m);
        }
    } else {
        if search_input(cmds, query).contains(m) {
            let j = choose|j: int| 0 <= j < cmds.map_values(z).len() && cmds.map_values(z)[j] == m;
            assert(cmds[j] == m.command);
        }
        if cmds.contains(m.command) && m.score == 0 {
            let j = choose|j: int| 0 <= j < cmds.len() && cmds[j] == m.command;
            assert(cmds.map_values(z)[j] == m);
        }
    }
}

} // verus!
