//! Character-level string helpers with contracts over `Seq<char>`.
use vstd::prelude::*;

verus! {

/// The Unicode `White_Space` property, which `char::is_whitespace` tests.
pub open spec fn is_ws(c: char) -> bool {
    let u = c as u32;
    ||| 0x09 <= u <= 0x0d
    ||| u == 0x20
    ||| u == 0x85
    ||| u == 0xa0
    ||| u == 0x1680
    ||| 0x2000 <= u <= 0x200a
    ||| u == 0x2028
    ||| u == 0x2029
    ||| u == 0x202f
    ||| u == 0x205f
    ||| u == 0x3000
}

/// Whether `c` is Unicode white space.
pub fn char_is_ws(c: char) -> (r: bool)
    ensures
        r == is_ws(c),
{
    let u = c as u32;
    (0x09 <= u && u <= 0x0d) || u == 0x20 || u == 0x85 || u == 0xa0 || u == 0x1680 || (0x2000
        <= u && u <= 0x200a) || u == 0x2028 || u == 0x2029 || u == 0x202f || u == 0x205f || u
        == 0x3000
}

/// `true` when `p` is a prefix of `s`.
pub open spec fn seq_starts_with(s: Seq<char>, p: Seq<char>) -> bool {
    p.len() <= s.len() && s.subrange(0, p.len() as int) == p
}

/// `true` when `p` occurs in `s` as a contiguous block.
pub open spec fn seq_contains(s: Seq<char>, p: Seq<char>) -> bool {
    exists|i: int| 0 <= i && i + p.len() <= s.len() && #[trigger] s.subrange(i, i + p.len()) == p
}

/// Index of the first occurrence of `c` in `s`, if any.
pub open spec fn first_index(s: Seq<char>, c: char) -> Option<int> {
    if exists|i: int| 0 <= i < s.len() && s[i] == c {
        Some(choose|i: int| 0 <= i < s.len() && s[i] == c && forall|j: int| 0 <= j < i ==> s[j] != c)
    } else {
        None
    }
}

/// Index of the last occurrence of `c` in `s`, if any.
pub open spec fn last_index(s: Seq<char>, c: char) -> Option<int> {
    if exists|i: int| 0 <= i < s.len() && s[i] == c {
        Some(choose|i: int| 0 <= i < s.len() && s[i] == c && forall|j: int| i < j < s.len() ==> s[j] != c)
    } else {
        None
    }
}

/// Number of white-space characters at the start of `s`.
pub open spec fn lead_ws(s: Seq<char>) -> nat
    decreases s.len(),
{
    if s.len() > 0 && is_ws(s[0]) {
        1 + lead_ws(s.drop_first())
    } else {
        0
    }
}

/// Number of white-space characters at the end of `s`.
pub open spec fn trail_ws(s: Seq<char>) -> nat
    decreases s.len(),
{
    if s.len() > 0 && is_ws(s.last()) {
        1 + trail_ws(s.drop_last())
    } else {
        0
    }
}

/// `s` with leading and trailing white space removed (`str::trim`).
pub open spec fn trim(s: Seq<char>) -> Seq<char> {
    if lead_ws(s) == s.len() {
        Seq::empty()
    } else {
        s.subrange(lead_ws(s) as int, s.len() - trail_ws(s))
    }
}

pub open spec fn is_digit(c: char) -> bool {
    '0' <= c <= '9'
}

pub open spec fn digit_val(c: char) -> nat {
    ((c as u32) - ('0' as u32)) as nat
}

pub open spec fn all_digits(s: Seq<char>) -> bool {
    forall|i: int| 0 <= i < s.len() ==> is_digit(#[trigger] s[i])
}

/// Decimal value of a string of digits.
pub open spec fn dec_val(s: Seq<char>) -> nat
    decreases s.len(),
{
    if s.len() == 0 {
        0
    } else {
        dec_val(s.drop_last()) * 10 + digit_val(s.last())
    }
}

/// Characters of a non-negative number written in decimal, with no leading zeros.
pub open spec fn dec_str(n: nat) -> Seq<char>
    decreases n,
{
    if n < 10 {
        seq![digit_char(n)]
    } else {
        dec_str(n / 10).push(digit_char(n % 10))
    }
}

pub open spec fn digit_char(d: nat) -> char {
    if d == 0 { '0' }
    else if d == 1 { '1' }
    else if d == 2 { '2' }
    else if d == 3 { '3' }
    else if d == 4 { '4' }
    else if d == 5 { '5' }
    else if d == 6 { '6' }
    else if d == 7 { '7' }
    else if d == 8 { '8' }
    else { '9' }
}

/// `str::parse::<u16>`: an optional `+`, then one or more decimal digits whose value fits.
pub open spec fn parse_unsigned(s: Seq<char>, max: nat) -> Option<nat> {
    let t = if s.len() > 0 && s[0] == '+' { s.drop_first() } else { s };
    if t.len() == 0 || !all_digits(t) || dec_val(t) > max {
        None
    } else {
        Some(dec_val(t))
    }
}

/// `str::parse::<i32>`: an optional `+` or `-`, then one or more decimal digits whose value fits.
pub open spec fn parse_i32_spec(s: Seq<char>) -> Option<int> {
    let neg = s.len() > 0 && s[0] == '-';
    let t = if s.len() > 0 && (s[0] == '+' || s[0] == '-') { s.drop_first() } else { s };
    if t.len() == 0 || !all_digits(t) {
        None
    } else if neg {
        if dec_val(t) > 0x8000_0000 { None } else { Some(-(dec_val(t) as int)) }
    } else {
        if dec_val(t) > 0x7fff_ffff { None } else { Some(dec_val(t) as int) }
    }
}

pub proof fn lemma_dec_val_take(s: Seq<char>, i: int)
    requires
        0 <= i < s.len(),
    ensures
        dec_val(s.take(i + 1)) == dec_val(s.take(i)) * 10 + digit_val(s[i]),
{
    assert(s.take(i + 1).drop_last() =~= s.take(i));
}

pub proof fn lemma_dec_val_mono(s: Seq<char>, i: int)
    requires
        0 <= i <= s.len(),
    ensures
        dec_val(s.take(i)) <= dec_val(s),
    decreases s.len() - i,
{
    if i < s.len() {
        lemma_dec_val_take(s, i);
        lemma_dec_val_mono(s, i + 1);
    } else {
        assert(s.take(i) =~= s);
    }
}

/// The characters of `s`, in order.
pub fn chars_of(s: &str) -> (v: Vec<char>)
    ensures
        v@ == s@,
{
    let mut v: Vec<char> = Vec::new();
    for c in it: s.chars()
        invariant
            v@ == it.seq().take(it.index() as int),
            it.seq() == s@,
    {
        v.push(c);
    }
    v
}

/// Appends one character (`String::push`).
#[verifier::external_body]
pub(crate) fn push_char(s: &mut String, c: char)
    ensures
        final(s)@ == old(s)@.push(c),
{
    s.push(c);
}

/// The string made of `v[from..to]`.
pub fn string_of_range(v: &Vec<char>, from: usize, to: usize) -> (r: String)
    requires
        from <= to <= v.len(),
    ensures
        r@ == v@.subrange(from as int, to as int),
{
    let mut r = String::new();
    let mut i = from;
    while i < to
        invariant
            from <= i <= to <= v.len(),
            r@ == v@.subrange(from as int, i as int),
        decreases to - i,
    {
        push_char(&mut r, v[i]);
        assert(v@.subrange(from as int, i + 1) =~= v@.subrange(from as int, i as int).push(v@[i as int]));
        i += 1;
    }
    r
}

/// The string made of all of `v`.
pub fn string_of(v: &Vec<char>) -> (r: String)
    ensures
        r@ == v@,
{
    let r = string_of_range(v, 0, v.len());
    assert(v@.subrange(0, v@.len() as int) =~= v@);
    r
}

/// An owned copy of `s`.
pub fn owned(s: &str) -> (r: String)
    ensures
        r@ == s@,
{
    s.to_owned()
}

/// Whether two strings hold the same characters.
pub fn str_eq(a: &str, b: &str) -> (r: bool)
    ensures
        r == (a@ == b@),
{
    let x = a.to_owned();
    let y = b.to_owned();
    x == y
}

/// Whether the option holds exactly the string `b`.
pub fn opt_str_eq(a: Option<&str>, b: &str) -> (r: bool)
    ensures
        r == (a is Some && a->0@ == b@),
{
    match a {
        Some(x) => str_eq(x, b),
        None => false,
    }
}

/// `s` followed by `t`.
pub fn concat(s: &str, t: &str) -> (r: String)
    ensures
        r@ == s@ + t@,
{
    let mut r = s.to_owned();
    r.append(t);
    r
}

/// Whether `p` is a prefix of `s`.
pub fn vec_starts_with(s: &Vec<char>, p: &Vec<char>) -> (r: bool)
    ensures
        r == seq_starts_with(s@, p@),
{
    if p.len() > s.len() {
        return false;
    }
    let mut i: usize = 0;
    while i < p.len()
        invariant
            p.len() <= s.len(),
            i <= p.len(),
            forall|j: int| 0 <= j < i ==> s@[j] == p@[j],
        decreases p.len() - i,
    {
        if s[i] != p[i] {
            assert(s@.subrange(0, p@.len() as int)[i as int] != p@[i as int]);
            return false;
        }
        i += 1;
    }
    assert(s@.subrange(0, p@.len() as int) =~= p@);
    true
}

/// Whether `p` occurs in `s`.
pub fn vec_contains(s: &Vec<char>, p: &Vec<char>) -> (r: bool)
    ensures
        r == seq_contains(s@, p@),
{
    if p.len() > s.len() {
        return false;
    }
    let last = s.len() - p.len();
    let mut i: usize = 0;
    loop
        invariant
            p.len() <= s.len(),
            last == s.len() - p.len(),
            i <= last,
            forall|k: int| 0 <= k < i ==> #[trigger] s@.subrange(k, k + p.len()) != p@,
        decreases last - i,
    {
        let mut j: usize = 0;
        let mut ok = true;
        while j < p.len()
            invariant
                p.len() <= s.len(),
                i <= last,
                last == s.len() - p.len(),
                j <= p.len(),
                ok ==> forall|m: int| 0 <= m < j ==> s@[i + m] == p@[m],
                !ok ==> s@.subrange(i as int, i + p.len()) != p@,
            decreases p.len() - j,
        {
            if s[i + j] != p[j] {
                assert(s@.subrange(i as int, i + p.len())[j as int] != p@[j as int]);
                ok = false;
            }
            j += 1;
        }
        if ok {
            assert(s@.subrange(i as int, i + p.len()) =~= p@);
            return true;
        }
        if i == last {
            return false;
        }
        i += 1;
    }
}

/// Index of the first `c` in `v`.
pub fn find_char(v: &Vec<char>, c: char) -> (r: Option<usize>)
    ensures
        r is Some <==> first_index(v@, c) is Some,
        r is Some ==> r->0 as int == first_index(v@, c)->0,
        r is Some ==> r->0 < v.len() && v@[r->0 as int] == c,
        r is Some ==> forall|j: int| 0 <= j < r->0 ==> v@[j] != c,
{
    let mut i: usize = 0;
    while i < v.len()
        invariant
            i <= v.len(),
            forall|j: int| 0 <= j < i ==> v@[j] != c,
        decreases v.len() - i,
    {
        if v[i] == c {
            proof {
                let k = choose|k: int| 0 <= k < v@.len() && v@[k] == c && forall|j: int| 0 <= j < k ==> v@[j] != c;
                assert(0 <= i < v@.len() && v@[i as int] == c);
                if k < i {
                } else if k > i {
                    assert(v@[i as int] != c);
                }
            }
            return Some(i);
        }
        i += 1;
    }
    None
}

/// Index of the first `c` in `v` at or after `from`.
pub fn find_char_from(v: &Vec<char>, c: char, from: usize) -> (r: Option<usize>)
    requires
        from <= v.len(),
    ensures
        r is Some <==> first_index(v@.skip(from as int), c) is Some,
        r is Some ==> from <= r->0 < v.len() && r->0 - from == first_index(v@.skip(from as int), c)->0,
        r is Some ==> v@[r->0 as int] == c && forall|j: int| from <= j < r->0 ==> v@[j] != c,
        r is None ==> forall|j: int| from <= j < v.len() ==> v@[j] != c,
{
    let ghost s = v@.skip(from as int);
    let mut i: usize = from;
    while i < v.len()
        invariant
            from <= i <= v.len(),
            s == v@.skip(from as int),
            forall|j: int| from <= j < i ==> v@[j] != c,
        decreases v.len() - i,
    {
        if v[i] == c {
            proof {
                assert(s[i - from] == c);
                let k = choose|k: int| 0 <= k < s.len() && s[k] == c && forall|j: int| 0 <= j < k ==> s[j] != c;
                if k < i - from {
                    assert(s[k] == v@[from + k]);
                } else if k > i - from {
                    assert(s[i - from] != c);
                }
            }
            return Some(i);
        }
        i += 1;
    }
    proof {
        if exists|k: int| 0 <= k < s.len() && s[k] == c {
            let k = choose|k: int| 0 <= k < s.len() && s[k] == c;
            assert(v@[from + k] == c);
        }
    }
    None
}

/// Index of the last `c` in `v`.
pub fn rfind_char(v: &Vec<char>, c: char) -> (r: Option<usize>)
    ensures
        r is Some <==> last_index(v@, c) is Some,
        r is Some ==> r->0 as int == last_index(v@, c)->0,
        r is Some ==> r->0 < v.len() && v@[r->0 as int] == c,
        r is Some ==> forall|j: int| r->0 < j < v.len() ==> v@[j] != c,
{
    let mut i: usize = v.len();
    while i > 0
        invariant
            i <= v.len(),
            forall|j: int| i <= j < v.len() ==> v@[j] != c,
        decreases i,
    {
        if v[i - 1] == c {
            proof {
                let k = choose|k: int| 0 <= k < v@.len() && v@[k] == c && forall|j: int| k < j < v@.len() ==> v@[j] != c;
                assert(0 <= i - 1 < v@.len() && v@[i - 1] == c);
                if k < i - 1 {
                    assert(v@[i - 1] != c);
                } else if k > i - 1 {
                }
            }
            return Some(i - 1);
        }
        i -= 1;
    }
    None
}

pub proof fn lemma_lead_ws_skip(s: Seq<char>, i: int)
    requires
        0 <= i <= s.len(),
        forall|j: int| 0 <= j < i ==> is_ws(s[j]),
    ensures
        lead_ws(s) == i + lead_ws(s.skip(i)),
    decreases i,
{
    if i > 0 {
        lemma_lead_ws_skip(s.drop_first(), i - 1);
        assert(s.drop_first().skip(i - 1) =~= s.skip(i));
    } else {
        assert(s.skip(0) =~= s);
    }
}

pub proof fn lemma_trail_ws_take(s: Seq<char>, i: int)
    requires
        0 <= i <= s.len(),
        forall|j: int| i <= j < s.len() ==> is_ws(s[j]),
    ensures
        trail_ws(s) == (s.len() - i) + trail_ws(s.take(i)),
    decreases s.len() - i,
{
    if i < s.len() {
        lemma_trail_ws_take(s.drop_last(), i);
        assert(s.drop_last().take(i) =~= s.take(i));
    } else {
        assert(s.take(i) =~= s);
    }
}

pub proof fn lemma_lead_ws_bound(s: Seq<char>)
    ensures
        lead_ws(s) <= s.len(),
    decreases s.len(),
{
    if s.len() > 0 && is_ws(s[0]) {
        lemma_lead_ws_bound(s.drop_first());
    }
}

/// Bounds `lo..hi` of `v` with surrounding white space removed.
pub fn trim_bounds(v: &Vec<char>) -> (r: (usize, usize))
    ensures
        r.0 <= r.1 <= v.len(),
        v@.subrange(r.0 as int, r.1 as int) == trim(v@),
{
    let mut lo: usize = 0;
    while lo < v.len() && char_is_ws(v[lo])
        invariant
            lo <= v.len(),
            forall|j: int| 0 <= j < lo ==> is_ws(v@[j]),
        decreases v.len() - lo,
    {
        lo += 1;
    }
    proof {
        lemma_lead_ws_skip(v@, lo as int);
        if lo < v.len() {
            assert(v@.skip(lo as int)[0] == v@[lo as int]);
        }
        assert(lead_ws(v@) == lo);
    }
    if lo == v.len() {
        assert(v@.subrange(lo as int, lo as int) =~= Seq::<char>::empty());
        return (lo, lo);
    }
    let mut hi: usize = v.len();
    while hi > lo && char_is_ws(v[hi - 1])
        invariant
            lo < v.len(),
            !is_ws(v@[lo as int]),
            lo <= hi <= v.len(),
            forall|j: int| hi <= j < v.len() ==> is_ws(v@[j]),
        decreases hi,
    {
        hi -= 1;
    }
    proof {
        lemma_trail_ws_take(v@, hi as int);
        if hi > 0 {
            assert(v@.take(hi as int).last() == v@[hi - 1]);
        }
        assert(trail_ws(v@) == v.len() - hi);
    }
    (lo, hi)
}

/// Value of one or more decimal digits, when it is at most `max`.
pub open spec fn parse_digits(t: Seq<char>, max: nat) -> Option<nat> {
    if t.len() == 0 || !all_digits(t) || dec_val(t) > max {
        None
    } else {
        Some(dec_val(t))
    }
}

/// Parses `v[from..]` as digits only, with no sign.
pub fn parse_digits_chars(v: &Vec<char>, from: usize, max: u64) -> (r: Option<u64>)
    requires
        from <= v.len(),
        max < 0x1_0000_0000,
    ensures
        r matches Some(x) ==> parse_digits(v@.skip(from as int), max as nat) == Some(x as nat),
        r is None ==> parse_digits(v@.skip(from as int), max as nat) is None,
{
    let ghost t = v@.skip(from as int);
    if from == v.len() {
        return None;
    }
    let mut acc: u64 = 0;
    let mut i = from;
    while i < v.len()
        invariant
            from <= i <= v.len(),
            t == v@.skip(from as int),
            acc as nat == dec_val(t.take(i - from)),
            acc <= max,
            max < 0x1_0000_0000,
            all_digits(t.take(i - from)),
        decreases v.len() - i,
    {
        let c = v[i];
        assert(t[i - from] == c);
        if !('0' <= c && c <= '9') {
            assert(!is_digit(t[i - from]));
            assert(!all_digits(t));
            return None;
        }
        proof {
            lemma_dec_val_take(t, i - from);
            assert(t.take(i - from + 1) =~= t.take(i - from).push(c));
            assert(all_digits(t.take(i - from + 1)));
        }
        let d = (c as u32 - '0' as u32) as u64;
        assert(d as nat == digit_val(c));
        acc = acc * 10 + d;
        assert(acc as nat == dec_val(t.take(i - from + 1)));
        if acc > max {
            proof {
                if all_digits(t) {
                    lemma_dec_val_mono(t, i - from + 1);
                }
            }
            return None;
        }
        i += 1;
    }
    assert(t.take(i - from) =~= t);
    Some(acc)
}

/// `str::parse` for an unsigned integer type whose largest value is `max`.
pub fn parse_unsigned_chars(v: &Vec<char>, from: usize, max: u64) -> (r: Option<u64>)
    requires
        from <= v.len(),
        max < 0x1_0000_0000,
    ensures
        r matches Some(x) ==> parse_unsigned(v@.skip(from as int), max as nat) == Some(x as nat),
        r is None ==> parse_unsigned(v@.skip(from as int), max as nat) is None,
{
    let ghost s = v@.skip(from as int);
    let mut start = from;
    if start < v.len() && v[start] == '+' {
        start += 1;
    }
    assert(v@.skip(start as int) =~= (if s.len() > 0 && s[0] == '+' { s.drop_first() } else { s }));
    parse_digits_chars(v, start, max)
}

/// `str::parse::<i32>`.
pub fn parse_i32_chars(v: &Vec<char>, from: usize) -> (r: Option<i32>)
    requires
        from <= v.len(),
    ensures
        r matches Some(x) ==> parse_i32_spec(v@.skip(from as int)) == Some(x as int),
        r is None ==> parse_i32_spec(v@.skip(from as int)) is None,
{
    let ghost s = v@.skip(from as int);
    let mut start = from;
    let mut neg = false;
    if start < v.len() && (v[start] == '+' || v[start] == '-') {
        neg = v[start] == '-';
        start += 1;
    }
    assert(v@.skip(start as int) =~= (if s.len() > 0 && (s[0] == '+' || s[0] == '-') { s.drop_first() } else { s }));
    let limit: u64 = if neg { 0x8000_0000 } else { 0x7fff_ffff };
    match parse_digits_chars(v, start, limit) {
        None => None,
        Some(x) => {
            if neg {
                if x == 0x8000_0000 {
                    Some(-2147483647i32 - 1)
                } else {
                    Some(-(x as i32))
                }
            } else {
                Some(x as i32)
            }
        },
    }
}

/// Decimal digits of `n` (`u64::to_string`).
pub fn u64_to_string(n: u64) -> (r: String)
    ensures
        r@ == dec_str(n as nat),
{
    let mut digits: Vec<char> = Vec::new();
    let mut m = n;
    // digits holds the low-order digits, last digit first
    while m >= 10
        invariant
            dec_str(n as nat) == dec_str(m as nat) + digits@.reverse(),
        decreases m,
    {
        let d = m % 10;
        let c = digit_exec(d);
        proof {
            assert(dec_str(m as nat) == dec_str((m / 10) as nat).push(digit_char((m % 10) as nat)));
            assert(digits@.push(c).reverse() =~= seq![c] + digits@.reverse());
            assert(dec_str(m as nat) + digits@.reverse() =~= dec_str((m / 10) as nat) + digits@.push(c).reverse());
        }
        digits.push(c);
        m = m / 10;
    }
    let mut r = String::new();
    push_char(&mut r, digit_exec(m));
    assert(r@ =~= dec_str(m as nat));
    let mut i = digits.len();
    while i > 0
        invariant
            i <= digits.len(),
            dec_str(n as nat) == r@ + digits@.take(i as int).reverse(),
        decreases i,
    {
        proof {
            assert(digits@.take(i as int).reverse() =~= seq![digits@[i - 1]] + digits@.take(i - 1).reverse());
        }
        push_char(&mut r, digits[i - 1]);
        i -= 1;
    }
    assert(digits@.take(0).reverse() =~= Seq::<char>::empty());
    assert(r@ + Seq::<char>::empty() =~= r@);
    proof {
        assert(digits@.take(digits@.len() as int) =~= digits@);
    }
    r
}

fn digit_exec(d: u64) -> (c: char)
    requires
        d < 10,
    ensures
        c == digit_char(d as nat),
{
    if d == 0 { '0' }
    else if d == 1 { '1' }
    else if d == 2 { '2' }
    else if d == 3 { '3' }
    else if d == 4 { '4' }
    else if d == 5 { '5' }
    else if d == 6 { '6' }
    else if d == 7 { '7' }
    else if d == 8 { '8' }
    else { '9' }
}

/// `s` with every white-space character removed.
pub open spec fn strip_ws(s: Seq<char>) -> Seq<char>
    decreases s.len(),
{
    if s.len() == 0 {
        Seq::empty()
    } else if is_ws(s.last()) {
        strip_ws(s.drop_last())
    } else {
        strip_ws(s.drop_last()).push(s.last())
    }
}

/// `s` with every white-space character removed.
pub fn without_ws(s: &str) -> (r: String)
    ensures
        r@ == strip_ws(s@),
{
    let v = chars_of(s);
    let mut r = String::new();
    let mut i: usize = 0;
    while i < v.len()
        invariant
            i <= v@.len(),
            v@ == s@,
            r@ == strip_ws(v@.take(i as int)),
        decreases v.len() - i,
    {
        proof {
            assert(v@.take(i + 1).drop_last() =~= v@.take(i as int));
            assert(v@.take(i + 1).last() == v@[i as int]);
        }
        if !char_is_ws(v[i]) {
            push_char(&mut r, v[i]);
        }
        i += 1;
    }
    assert(v@.take(i as int) =~= v@);
    r
}

/// `s` up to its first `c`, or all of `s` when it holds none
/// (`s.split(c).next()`).
pub open spec fn before_first(s: Seq<char>, c: char) -> Seq<char> {
    match first_index(s, c) {
        Some(i) => s.take(i),
        None => s,
    }
}

/// The bare part of a JID: what precedes its resource.
pub open spec fn bare_jid(s: Seq<char>) -> Seq<char> {
    before_first(s, '/')
}

/// `s` up to its first `c`.
pub fn before_first_char(s: &str, c: char) -> (r: String)
    ensures
        r@ == before_first(s@, c),
{
    let v = chars_of(s);
    match find_char(&v, c) {
        Some(i) => {
            let r = string_of_range(&v, 0, i);
            assert(v@.subrange(0, i as int) =~= v@.take(i as int));
            r
        },
        None => string_of(&v),
    }
}

/// The bare part of the JID `s`.
pub fn bare_jid_of(s: &str) -> (r: String)
    ensures
        r@ == bare_jid(s@),
{
    before_first_char(s, '/')
}

proof fn lemma_digit_char(d: nat)
    requires
        d < 10,
    ensures
        is_digit(digit_char(d)),
        digit_val(digit_char(d)) == d,
{
}

/// The decimal text of a number reads back as that number.
pub proof fn lemma_dec_str_parse(n: nat, max: nat)
    requires
        n <= max,
    ensures
        dec_str(n).len() > 0,
        all_digits(dec_str(n)),
        dec_val(dec_str(n)) == n,
        dec_str(n)[0] != '+',
        parse_unsigned(dec_str(n), max) == Some(n),
    decreases n,
{
    if n < 10 {
        lemma_digit_char(n);
        assert(dec_str(n) =~= seq![digit_char(n)]);
        assert(seq![digit_char(n)].drop_last() =~= Seq::<char>::empty());
        assert(dec_val(dec_str(n)) == dec_val(Seq::<char>::empty()) * 10 + digit_val(digit_char(n)));
    } else {
        lemma_dec_str_parse(n / 10, max);
        lemma_digit_char((n % 10) as nat);
        let s = dec_str(n);
        assert(s == dec_str(n / 10).push(digit_char((n % 10) as nat)));
        assert(s.drop_last() =~= dec_str(n / 10));
        assert(s[0] == dec_str(n / 10)[0]);
        assert(all_digits(s));
        assert((n / 10) * 10 + n % 10 == n) by (nonlinear_arith);
        assert(dec_val(s) == dec_val(dec_str(n / 10)) * 10 + digit_val(digit_char((n % 10) as nat)));
    }
}

} // verus!
