//! Character-level text utilities shared by the parsers and formatters.
use vstd::prelude::*;

verus! {

/// The Unicode `White_Space` property, the set that `char::is_whitespace` tests.
pub open spec fn is_ws(c: char) -> bool {
    let u = c as u32;
    ||| 0x09 <= u <= 0x0D
    ||| u == 0x20
    ||| u == 0x85
    ||| u == 0xA0
    ||| u == 0x1680
    ||| 0x2000 <= u <= 0x200A
    ||| u == 0x2028
    ||| u == 0x2029
    ||| u == 0x202F
    ||| u == 0x205F
    ||| u == 0x3000
}

/// Whether `c` is white space in the sense of Unicode's `White_Space` property.
pub fn is_whitespace(c: char) -> (r: bool)
    ensures
        r == is_ws(c),
{
    let u = c as u32;
    (0x09 <= u && u <= 0x0D) || u == 0x20 || u == 0x85 || u == 0xA0 || u == 0x1680 || (0x2000
        <= u && u <= 0x200A) || u == 0x2028 || u == 0x2029 || u == 0x202F || u == 0x205F || u
        == 0x3000
}

/// Appends one character to a string (`String::push`).
#[verifier::external_body]
pub(crate) fn push_char(s: &mut String, c: char)
    ensures
        final(s)@ == old(s)@.push(c),
{
    s.push(c);
}

/// The characters of `s`, in order.
pub fn chars_of(s: &str) -> (v: Vec<char>)
    ensures
        v@ == s@,
{
    let mut v: Vec<char> = Vec::new();
    for c in it: s.chars()
        invariant
            v@ == it.seq().take(it.index() as int),
            it.seq() == s@,
    {
        v.push(c);
    }
    v
}

/// A string holding exactly the characters `cs[from..to]`.
pub fn string_of(cs: &Vec<char>, from: usize, to: usize) -> (s: String)
    requires
        from <= to <= cs.len(),
    ensures
        s@ == cs@.subrange(from as int, to as int),
{
    let mut s = String::new();
    let mut i = from;
    while i < to
        invariant
            from <= i <= to <= cs.len(),
            s@ == cs@.subrange(from as int, i as int),
        decreases to - i,
    {
        push_char(&mut s, cs[i]);
        assert(cs@.subrange(from as int, i + 1) == cs@.subrange(from as int, i as int).push(cs@[i as int]));
        i = i + 1;
    }
    s
}


/// Number of leading white-space characters of `s`.
pub open spec fn ws_lead(s: Seq<char>) -> nat
    decreases s.len(),
{
    if s.len() > 0 && is_ws(s[0]) {
        1 + ws_lead(s.drop_first())
    } else {
        0
    }
}

/// Number of trailing white-space characters of `s`.
pub open spec fn ws_trail(s: Seq<char>) -> nat
    decreases s.len(),
{
    if s.len() > 0 && is_ws(s.last()) {
        1 + ws_trail(s.drop_last())
    } else {
        0
    }
}

/// Number of leading line feeds of `s`.
pub open spec fn nl_lead(s: Seq<char>) -> nat
    decreases s.len(),
{
    if s.len() > 0 && s[0] == '\n' {
        1 + nl_lead(s.drop_first())
    } else {
        0
    }
}

/// The leading runs are no longer than the text.
pub proof fn lemma_lead_bounds(s: Seq<char>)
    ensures
        ws_lead(s) <= s.len(),
        nl_lead(s) <= s.len(),
    decreases s.len(),
{
    if s.len() > 0 {
        lemma_lead_bounds(s.drop_first());
    }
}

/// The leading white space run is maximal: what follows it does not start
/// with white space.
pub proof fn lemma_ws_lead_max(s: Seq<char>)
    ensures
        ws_lead(s) <= s.len(),
        ws_lead(s) < s.len() ==> !is_ws(s[ws_lead(s) as int]),
    decreases s.len(),
{
    if s.len() > 0 && is_ws(s[0]) {
        lemma_ws_lead_max(s.drop_first());
        if ws_lead(s) < s.len() {
            assert(s[ws_lead(s) as int] == s.drop_first()[ws_lead(s.drop_first()) as int]);
        }
    }
}

/// The trailing white space run is maximal: what precedes it does not end
/// with white space.
pub proof fn lemma_ws_trail_max(s: Seq<char>)
    ensures
        ws_trail(s) <= s.len(),
        ws_trail(s) < s.len() ==> !is_ws(s[s.len() - ws_trail(s) - 1]),
    decreases s.len(),
{
    if s.len() > 0 && is_ws(s.last()) {
        lemma_ws_trail_max(s.drop_last());
        if ws_trail(s) < s.len() {
            assert(s[s.len() - ws_trail(s) - 1] == s.drop_last()[s.drop_last().len() - ws_trail(
                s.drop_last(),
            ) - 1]);
        }
    }
}

/// The leading line feed run is maximal.
pub proof fn lemma_nl_lead_max(s: Seq<char>)
    ensures
        nl_lead(s) <= s.len(),
        nl_lead(s) < s.len() ==> s[nl_lead(s) as int] != '\n',
    decreases s.len(),
{
    if s.len() > 0 && s[0] == '\n' {
        lemma_nl_lead_max(s.drop_first());
        if nl_lead(s) < s.len() {
            assert(s[nl_lead(s) as int] == s.drop_first()[nl_lead(s.drop_first()) as int]);
        }
    }
}

/// A trimmed text is a stretch of the text that neither starts nor ends with
/// white space, and trimming it again leaves it as it is.
pub proof fn lemma_trim_facts(s: Seq<char>)
    ensures
        ws_lead(s) + trim(s).len() <= s.len(),
        trim(s) == s.subrange(ws_lead(s) as int, (ws_lead(s) + trim(s).len()) as int),
        trim(s).len() > 0 ==> !is_ws(trim(s)[0]) && !is_ws(trim(s).last()),
        trim(trim(s)) == trim(s),
{
    lemma_ws_lead_max(s);
    let a = trim_start(s);
    lemma_ws_trail_max(a);
    let t = trim(s);
    let l = ws_lead(s) as int;
    assert(t =~= s.subrange(l, l + t.len()));
    if t.len() > 0 {
        assert(t[0] == a[0]);
        assert(a[0] == s[l]);
        assert(t.last() == a[a.len() - ws_trail(a) - 1]);
        assert(ws_lead(t) == 0);
        assert(trim_start(t) =~= t);
        assert(ws_trail(t) == 0);
        assert(trim_end(t) =~= t);
    } else {
        assert(trim_start(t) =~= t);
        assert(trim_end(t) =~= t);
    }
}

/// `s` without its leading white space (`str::trim_start`).
pub open spec fn trim_start(s: Seq<char>) -> Seq<char> {
    s.skip(ws_lead(s) as int)
}

/// `s` without its trailing white space (`str::trim_end`).
pub open spec fn trim_end(s: Seq<char>) -> Seq<char> {
    s.take(s.len() - ws_trail(s))
}

/// `s` without leading and trailing white space (`str::trim`).
pub open spec fn trim(s: Seq<char>) -> Seq<char> {
    trim_end(trim_start(s))
}

/// `s` without its leading line feeds (`str::trim_start_matches('\n')`).
pub open spec fn strip_leading_newlines(s: Seq<char>) -> Seq<char> {
    s.skip(nl_lead(s) as int)
}

/// Whether `pat` occurs in `hay` starting at index `i`.
pub open spec fn occurs_at(hay: Seq<char>, pat: Seq<char>, i: int) -> bool {
    0 <= i && i + pat.len() <= hay.len() && hay.subrange(i, i + pat.len()) == pat
}

/// The first index at or after `i` where `pat` occurs in `hay`.
pub open spec fn find_from(hay: Seq<char>, pat: Seq<char>, i: int) -> Option<int>
    decreases hay.len() + 1 - i,
{
    if i < 0 || i + pat.len() > hay.len() {
        None
    } else if occurs_at(hay, pat, i) {
        Some(i)
    } else {
        find_from(hay, pat, i + 1)
    }
}

/// The first index where `pat` occurs in `hay` (`str::find`).
pub open spec fn find(hay: Seq<char>, pat: Seq<char>) -> Option<int> {
    find_from(hay, pat, 0)
}

/// The number of leading white-space characters of `cs[from..to]`.
pub fn count_ws_lead(cs: &Vec<char>, from: usize, to: usize) -> (n: usize)
    requires
        from <= to <= cs.len(),
    ensures
        n == ws_lead(cs@.subrange(from as int, to as int)),
        from + n <= to,
{
    let ghost sub = cs@.subrange(from as int, to as int);
    let mut i = from;
    while i < to && is_whitespace(cs[i])
        invariant
            from <= i <= to <= cs.len(),
            ws_lead(sub) == (i - from) + ws_lead(cs@.subrange(i as int, to as int)),
        decreases to - i,
    {
        assert(cs@.subrange(i as int, to as int).drop_first() == cs@.subrange(i + 1, to as int));
        i = i + 1;
    }
    i - from
}

/// The number of trailing white-space characters of `cs[from..to]`.
pub fn count_ws_trail(cs: &Vec<char>, from: usize, to: usize) -> (n: usize)
    requires
        from <= to <= cs.len(),
    ensures
        n == ws_trail(cs@.subrange(from as int, to as int)),
        from + n <= to,
{
    let ghost sub = cs@.subrange(from as int, to as int);
    let mut j = to;
    while j > from && is_whitespace(cs[j - 1])
        invariant
            from <= j <= to <= cs.len(),
            ws_trail(sub) == (to - j) + ws_trail(cs@.subrange(from as int, j as int)),
        decreases j - from,
    {
        assert(cs@.subrange(from as int, j as int).drop_last() == cs@.subrange(from as int, j - 1));
        j = j - 1;
    }
    to - j
}

/// The number of leading line feeds of `cs[from..to]`.
pub fn count_nl_lead(cs: &Vec<char>, from: usize, to: usize) -> (n: usize)
    requires
        from <= to <= cs.len(),
    ensures
        n == nl_lead(cs@.subrange(from as int, to as int)),
        from + n <= to,
{
    let ghost sub = cs@.subrange(from as int, to as int);
    let mut i = from;
    while i < to && cs[i] == '\n'
        invariant
            from <= i <= to <= cs.len(),
            nl_lead(sub) == (i - from) + nl_lead(cs@.subrange(i as int, to as int)),
        decreases to - i,
    {
        assert(cs@.subrange(i as int, to as int).drop_first() == cs@.subrange(i + 1, to as int));
        i = i + 1;
    }
    i - from
}


/// The parts joined with `sep` between each two of them (`[String]::join`).
pub open spec fn join(parts: Seq<Seq<char>>, sep: Seq<char>) -> Seq<char>
    decreases parts.len(),
{
    if parts.len() == 0 {
        Seq::empty()
    } else if parts.len() == 1 {
        parts[0]
    } else {
        join(parts.drop_last(), sep) + sep + parts.last()
    }
}

/// Joins the strings with `sep` between each two of them.
pub fn join_strings(parts: &Vec<String>, sep: &str) -> (r: String)
    ensures
        r@ == join(parts.deep_view(), sep@),
{
    let ghost ps = parts.deep_view();
    let mut r = String::new();
    let mut i: usize = 0;
    while i < parts.len()
        invariant
            i <= parts.len(),
            ps == parts.deep_view(),
            r@ == join(ps.take(i as int), sep@),
        decreases parts.len() - i,
    {
        assert(ps.take(i + 1).drop_last() == ps.take(i as int));
        assert(ps.take(i + 1).last() == parts@[i as int]@);
        if i > 0 {
            r.append(sep);
        }
        r.append(parts[i].as_str());
        proof {
            if i == 0 {
                assert(r@ =~= ps.take(1)[0]);
            }
        }
        i = i + 1;
    }
    assert(ps.take(i as int) == ps);
    r
}

/// A copy of an optional string.
pub fn copy_opt(o: &Option<String>) -> (r: Option<String>)
    ensures
        r == *o,
{
    match o {
        Some(s) => Some(s.clone()),
        None => None,
    }
}

/// A copy of a list of strings.
pub fn copy_strings(v: &Vec<String>) -> (r: Vec<String>)
    ensures
        r@ == v@,
{
    let mut r: Vec<String> = Vec::new();
    let mut i: usize = 0;
    while i < v.len()
        invariant
            i <= v.len(),
            r@ == v@.take(i as int),
        decreases v.len() - i,
    {
        r.push(v[i].clone());
        assert(r@ =~= v@.take(i + 1));
        i = i + 1;
    }
    assert(v@.take(i as int) == v@);
    r
}


/// `s` without the prefix `p`, if it starts with it (`str::strip_prefix`).
pub open spec fn strip_prefix(s: Seq<char>, p: Seq<char>) -> Option<Seq<char>> {
    if p.len() <= s.len() && s.take(p.len() as int) == p {
        Some(s.skip(p.len() as int))
    } else {
        None
    }
}

/// Whether `cs[from..to]` starts with `p`.
pub fn starts_with_at(cs: &Vec<char>, from: usize, to: usize, p: &Vec<char>) -> (r: bool)
    requires
        from <= to <= cs.len(),
    ensures
        r == (p@.len() <= to - from && cs@.subrange(from as int, from + p@.len()) == p@),
{
    if p.len() > to - from {
        return false;
    }
    let mut k: usize = 0;
    while k < p.len()
        invariant
            k <= p.len() <= to - from,
            to <= cs.len(),
            cs@.subrange(from as int, from + k) == p@.take(k as int),
        decreases p.len() - k,
    {
        if cs[from + k] != p[k] {
            assert(cs@.subrange(from as int, from + p@.len())[k as int] == cs@[from + k]);
            return false;
        }
        assert(cs@.subrange(from as int, from + k + 1) =~= p@.take(k + 1));
        k = k + 1;
    }
    assert(p@.take(k as int) == p@);
    true
}

/// `s` without the prefix `p`, if it starts with it.
pub fn strip_prefix_of(s: &str, p: &str) -> (r: Option<String>)
    ensures
        r.deep_view() == strip_prefix(s@, p@),
{
    let cs = chars_of(s);
    let ps = chars_of(p);
    if starts_with_at(&cs, 0, cs.len(), &ps) {
        assert(cs@.take(ps@.len() as int) == cs@.subrange(0, ps@.len() as int));
        Some(string_of(&cs, ps.len(), cs.len()))
    } else {
        assert(cs@.take(ps@.len() as int) == cs@.subrange(0, ps@.len() as int));
        None
    }
}


/// The index of the first `c` at or after `i` in `s`, or the length of `s`.
pub open spec fn next_index_of(s: Seq<char>, c: char, i: int) -> int
    decreases s.len() - i,
{
    if i < 0 || i >= s.len() {
        s.len() as int
    } else if s[i] == c {
        i
    } else {
        next_index_of(s, c, i + 1)
    }
}

/// The next `c` lies between `i` and the end of `s`.
pub proof fn lemma_next_index_of(s: Seq<char>, c: char, i: int)
    requires
        0 <= i <= s.len(),
    ensures
        i <= next_index_of(s, c, i) <= s.len(),
        next_index_of(s, c, i) < s.len() ==> s[next_index_of(s, c, i)] == c,
    decreases s.len() - i,
{
    if i < s.len() && s[i] != c {
        lemma_next_index_of(s, c, i + 1);
    }
}

/// The index of the first `c` at or after `from` in `cs`, or its length.
pub fn find_char_from(cs: &Vec<char>, c: char, from: usize) -> (j: usize)
    requires
        from <= cs.len(),
    ensures
        j == next_index_of(cs@, c, from as int),
        from <= j <= cs.len(),
{
    let mut j = from;
    while j < cs.len() && cs[j] != c
        invariant
            from <= j <= cs.len(),
            next_index_of(cs@, c, from as int) == next_index_of(cs@, c, j as int),
        decreases cs.len() - j,
    {
        j = j + 1;
    }
    j
}

} // verus!
