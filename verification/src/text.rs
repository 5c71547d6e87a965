use vstd::prelude::*;

verus! {

broadcast use vstd::string::group_string_axioms;

// ---------------------------------------------------------------------------
// Characters and conversions between text and character vectors
// ---------------------------------------------------------------------------

/// The characters of `s`, one element each.
pub fn chars_of(s: &str) -> (v: Vec<char>)
    ensures
        v@ == s@,
{
    let mut v: Vec<char> = Vec::new();
    for c in it: s.chars()
        invariant
            it.seq() == s@,
            v@ == it.seq().take(it.index()),
    {
        v.push(c);
        assert(it.seq().take(it.index() + 1) =~= it.seq().take(it.index()).push(c));
    }
    assert(v@ =~= s@);
    v
}

/// `String::from_iter` over a slice of characters: the string made of exactly these characters.
#[verifier::external_body]
pub(crate) fn string_of(cs: &[char]) -> (s: String)
    ensures
        s@ == cs@,
{
    cs.iter().collect::<String>()
}

/// A copy of `cs[lo..hi]`.
pub fn sub_vec(cs: &[char], lo: usize, hi: usize) -> (r: Vec<char>)
    requires
        lo <= hi <= cs@.len(),
    ensures
        r@ == cs@.subrange(lo as int, hi as int),
{
    let mut r: Vec<char> = Vec::new();
    let mut i = lo;
    while i < hi
        invariant
            lo <= i <= hi,
            hi <= cs@.len(),
            r@ == cs@.subrange(lo as int, i as int),
        decreases hi - i,
    {
        r.push(cs[i]);
        assert(cs@.subrange(lo as int, i + 1) =~= cs@.subrange(lo as int, i as int).push(cs@[i as int]));
        i += 1;
    }
    r
}

/// The views of a sequence of character vectors.
pub open spec fn views(v: Seq<Vec<char>>) -> Seq<Seq<char>> {
    v.map_values(|l: Vec<char>| l@)
}

// ---------------------------------------------------------------------------
// White space
// ---------------------------------------------------------------------------

/// The Unicode `White_Space` property, which `char::is_whitespace` tests.
pub open spec fn is_white(c: char) -> bool {
    let n = c as u32;
    ||| 0x9 <= n <= 0xd
    ||| n == 0x20
    ||| n == 0x85
    ||| n == 0xa0
    ||| n == 0x1680
    ||| 0x2000 <= n <= 0x200a
    ||| n == 0x2028
    ||| n == 0x2029
    ||| n == 0x202f
    ||| n == 0x205f
    ||| n == 0x3000
}

/// Whether `c` is white space.
pub fn is_white_char(c: char) -> (b: bool)
    ensures
        b == is_white(c),
{
    let n = c as u32;
    (0x9 <= n && n <= 0xd) || n == 0x20 || n == 0x85 || n == 0xa0 || n == 0x1680 || (0x2000 <= n
        && n <= 0x200a) || n == 0x2028 || n == 0x2029 || n == 0x202f || n == 0x205f || n == 0x3000
}

/// The index of the first character at or after `i` that is not white space (`s.len()` if none).
pub open spec fn first_non_white(s: Seq<char>, i: int) -> int
    decreases s.len() - i,
{
    if i >= s.len() {
        s.len() as int
    } else if !is_white(s[i]) {
        i
    } else {
        first_non_white(s, i + 1)
    }
}

/// One past the last character before `j` that is not white space (0 if none).
pub open spec fn end_non_white(s: Seq<char>, j: int) -> int
    decreases j,
{
    if j <= 0 {
        0
    } else if !is_white(s[j - 1]) {
        j
    } else {
        end_non_white(s, j - 1)
    }
}

/// `end_non_white` never passes its bound.
proof fn lemma_end_non_white_le(s: Seq<char>, j: int)
    ensures
        end_non_white(s, j) <= if j < 0 { 0 } else { j },
    decreases j,
{
    if j > 0 && is_white(s[j - 1]) {
        lemma_end_non_white_le(s, j - 1);
    }
}

/// `s` with leading and trailing white space removed, as `str::trim` does.
pub open spec fn trim_spec(s: Seq<char>) -> Seq<char> {
    let a = first_non_white(s, 0);
    let b = end_non_white(s, s.len() as int);
    if a >= b {
        Seq::empty()
    } else {
        s.subrange(a, b)
    }
}

/// The bounds `(a, b)` of `cs` without its leading and trailing white space.
pub fn trim_bounds(cs: &[char]) -> (r: (usize, usize))
    ensures
        r.0 <= r.1 <= cs@.len(),
        cs@.subrange(r.0 as int, r.1 as int) == trim_spec(cs@),
{
    let n = cs.len();
    let mut a: usize = 0;
    while a < n && is_white_char(cs[a])
        invariant
            0 <= a <= n,
            n == cs@.len(),
            first_non_white(cs@, 0) == first_non_white(cs@, a as int),
        decreases n - a,
    {
        a += 1;
    }
    assert(first_non_white(cs@, 0) == a);
    let mut b: usize = n;
    while b > a && is_white_char(cs[b - 1])
        invariant
            a <= b <= n,
            n == cs@.len(),
            a < n ==> !is_white(cs@[a as int]),
            a < n ==> b > a,
            end_non_white(cs@, n as int) == end_non_white(cs@, b as int),
        decreases b,
    {
        b -= 1;
    }
    if a == n {
        proof {
            lemma_end_non_white_le(cs@, n as int);
        }
        assert(cs@.subrange(a as int, b as int) =~= Seq::<char>::empty());
    } else {
        assert(end_non_white(cs@, b as int) == b);
    }
    (a, b)
}

proof fn lemma_first_non_white_skip(s: Seq<char>, i: int, m: int)
    requires
        0 <= i <= m <= s.len(),
        forall|k: int| i <= k < m ==> is_white(#[trigger] s[k]),
    ensures
        first_non_white(s, i) == first_non_white(s, m),
    decreases m - i,
{
    if i < m {
        lemma_first_non_white_skip(s, i + 1, m);
    }
}

proof fn lemma_end_non_white_skip(s: Seq<char>, m: int, j: int)
    requires
        0 <= m <= j <= s.len(),
        forall|k: int| m <= k < j ==> is_white(#[trigger] s[k]),
    ensures
        end_non_white(s, j) == end_non_white(s, m),
    decreases j - m,
{
    if m < j {
        lemma_end_non_white_skip(s, m, j - 1);
    }
}

proof fn lemma_first_non_white_shift(s: Seq<char>, e: Seq<char>, b: int, k: int)
    requires
        0 <= b,
        0 <= k <= e.len(),
        b + e.len() <= s.len(),
        s.subrange(b, b + e.len()) == e,
    ensures
        first_non_white(e, k) < e.len() ==> first_non_white(s, b + k) == b + first_non_white(e, k),
        first_non_white(e, k) >= e.len() ==> first_non_white(s, b + k) == first_non_white(
            s,
            b + e.len(),
        ),
    decreases e.len() - k,
{
    if k < e.len() {
        assert(s[b + k] == e[k]);
        if is_white(e[k]) {
            lemma_first_non_white_shift(s, e, b, k + 1);
        }
    }
}

proof fn lemma_end_non_white_shift(s: Seq<char>, e: Seq<char>, b: int, k: int)
    requires
        0 <= b,
        0 <= k <= e.len(),
        b + e.len() <= s.len(),
        s.subrange(b, b + e.len()) == e,
    ensures
        end_non_white(e, k) > 0 ==> end_non_white(s, b + k) == b + end_non_white(e, k),
        end_non_white(e, k) <= 0 ==> end_non_white(s, b + k) == end_non_white(s, b),
    decreases k,
{
    if k > 0 {
        assert(s[b + k - 1] == e[k - 1]);
        if is_white(e[k - 1]) {
            lemma_end_non_white_shift(s, e, b, k - 1);
        }
    }
}

proof fn lemma_first_non_white_is_non_white(s: Seq<char>, i: int)
    requires
        0 <= i <= s.len(),
    ensures
        first_non_white(s, i) < s.len() ==> !is_white(s[first_non_white(s, i)]),
        i <= first_non_white(s, i) <= s.len(),
    decreases s.len() - i,
{
    if i < s.len() && is_white(s[i]) {
        lemma_first_non_white_is_non_white(s, i + 1);
    }
}

proof fn lemma_end_non_white_at_least(s: Seq<char>, i: int, j: int)
    requires
        0 <= i < j <= s.len(),
        !is_white(s[i]),
    ensures
        end_non_white(s, j) > i,
    decreases j,
{
    if j - 1 > i && is_white(s[j - 1]) {
        lemma_end_non_white_at_least(s, i, j - 1);
    }
}

/// Trimming ignores white space put around a text.
pub proof fn lemma_trim_padded(e: Seq<char>, before: Seq<char>, after: Seq<char>)
    requires
        forall|k: int| 0 <= k < before.len() ==> is_white(#[trigger] before[k]),
        forall|k: int| 0 <= k < after.len() ==> is_white(#[trigger] after[k]),
    ensures
        trim_spec(before + e + after) == trim_spec(e),
{
    let s = before + e + after;
    let b = before.len() as int;
    let m = b + e.len();
    assert(s.subrange(b, m) =~= e);
    assert forall|k: int| 0 <= k < b implies is_white(#[trigger] s[k]) by {
        assert(s[k] == before[k]);
    }
    assert forall|k: int| m <= k < s.len() implies is_white(#[trigger] s[k]) by {
        assert(s[k] == after[k - m]);
    }
    lemma_first_non_white_skip(s, 0, b);
    lemma_first_non_white_skip(s, m, s.len() as int);
    lemma_end_non_white_skip(s, m, s.len() as int);
    lemma_end_non_white_skip(s, 0, b);
    lemma_first_non_white_shift(s, e, b, 0);
    lemma_end_non_white_shift(s, e, b, e.len() as int);
    lemma_first_non_white_is_non_white(e, 0);
    lemma_end_non_white_le(e, e.len() as int);
    let ae = first_non_white(e, 0);
    let be = end_non_white(e, e.len() as int);
    assert(end_non_white(s, 0) == 0);
    if ae < e.len() {
        lemma_end_non_white_at_least(e, ae, e.len() as int);
        assert(s.subrange(b + ae, b + be) =~= e.subrange(ae, be));
    } else {
        assert(first_non_white(s, s.len() as int) == s.len());
        if be > 0 {
            lemma_end_non_white_witness(e, e.len() as int);
            lemma_first_non_white_at_most(e, 0, be - 1);
        }
    }
}

proof fn lemma_first_non_white_at_most(s: Seq<char>, i: int, k: int)
    requires
        0 <= i <= k < s.len(),
        !is_white(s[k]),
    ensures
        first_non_white(s, i) <= k,
    decreases k - i,
{
    if i < k && is_white(s[i]) {
        lemma_first_non_white_at_most(s, i + 1, k);
    }
}

proof fn lemma_end_non_white_witness(s: Seq<char>, j: int)
    requires
        0 <= j <= s.len(),
    ensures
        end_non_white(s, j) > 0 ==> !is_white(s[end_non_white(s, j) - 1]),
    decreases j,
{
    if j > 0 && is_white(s[j - 1]) {
        lemma_end_non_white_witness(s, j - 1);
    }
}

/// A copy of `cs` without leading and trailing white space.
pub fn trim_chars(cs: &[char]) -> (r: Vec<char>)
    ensures
        r@ == trim_spec(cs@),
{
    let (a, b) = trim_bounds(cs);
    sub_vec(cs, a, b)
}

// ---------------------------------------------------------------------------
// Searching
// ---------------------------------------------------------------------------

/// The index of the first `c` at or after `i` (`s.len()` if none).
pub open spec fn find_from(s: Seq<char>, c: char, i: int) -> int
    decreases s.len() - i,
{
    if i >= s.len() {
        s.len() as int
    } else if s[i] == c {
        i
    } else {
        find_from(s, c, i + 1)
    }
}

/// `find_from` lands on `c` or on the end, never before its start.
pub proof fn lemma_find_from_bounds(s: Seq<char>, c: char, i: int)
    requires
        0 <= i <= s.len(),
    ensures
        i <= find_from(s, c, i) <= s.len(),
        find_from(s, c, i) < s.len() ==> s[find_from(s, c, i)] == c,
        forall|k: int| i <= k < find_from(s, c, i) ==> s[k] != c,
    decreases s.len() - i,
{
    if i < s.len() && s[i] != c {
        lemma_find_from_bounds(s, c, i + 1);
    }
}

/// The index of the first `c` in `cs` at or after `from`.
pub fn find_char(cs: &[char], c: char, from: usize) -> (k: usize)
    requires
        from <= cs@.len(),
    ensures
        k == find_from(cs@, c, from as int),
{
    let n = cs.len();
    let mut k = from;
    while k < n && cs[k] != c
        invariant
            from <= k <= n,
            n == cs@.len(),
            find_from(cs@, c, from as int) == find_from(cs@, c, k as int),
        decreases n - k,
    {
        k += 1;
    }
    k
}

/// The index of the last `c` before `j` (-1 if none).
pub open spec fn rfind_before(s: Seq<char>, c: char, j: int) -> int
    decreases j,
{
    if j <= 0 {
        -1
    } else if s[j - 1] == c {
        j - 1
    } else {
        rfind_before(s, c, j - 1)
    }
}

/// What follows the last `c` in `s` (all of `s` if there is none): the first item of `str::rsplit`.
pub open spec fn after_last(s: Seq<char>, c: char) -> Seq<char> {
    s.subrange(rfind_before(s, c, s.len() as int) + 1, s.len() as int)
}

proof fn lemma_rfind_before_bounds(s: Seq<char>, c: char, j: int)
    requires
        0 <= j <= s.len(),
    ensures
        -1 <= rfind_before(s, c, j) < j,
    decreases j,
{
    if j > 0 && s[j - 1] != c {
        lemma_rfind_before_bounds(s, c, j - 1);
    }
}

/// A copy of what follows the last `c` in `cs`.
pub fn after_last_char(cs: &[char], c: char) -> (r: Vec<char>)
    ensures
        r@ == after_last(cs@, c),
{
    let n = cs.len();
    let mut j = n;
    while j > 0 && cs[j - 1] != c
        invariant
            j <= n,
            n == cs@.len(),
            rfind_before(cs@, c, n as int) == rfind_before(cs@, c, j as int),
        decreases j,
    {
        j -= 1;
    }
    proof {
        lemma_rfind_before_bounds(cs@, c, n as int);
    }
    sub_vec(cs, j, n)
}

/// Whether `s` begins with `p`.
pub open spec fn has_prefix(s: Seq<char>, p: Seq<char>) -> bool {
    p.len() <= s.len() && s.subrange(0, p.len() as int) == p
}

/// Whether `p` occurs in `s` at index `i`.
pub open spec fn occurs_at(s: Seq<char>, p: Seq<char>, i: int) -> bool {
    0 <= i && i + p.len() <= s.len() && s.subrange(i, i + p.len()) == p
}

/// Whether `p` occurs anywhere in `s`.
pub open spec fn has_infix(s: Seq<char>, p: Seq<char>) -> bool {
    exists|i: int| occurs_at(s, p, i)
}

/// Whether `p` occurs in `s` at index `i`.
pub fn occurs_at_exec(s: &[char], p: &[char], i: usize) -> (b: bool)
    ensures
        b == occurs_at(s@, p@, i as int),
{
    if i > s.len() || p.len() > s.len() - i {
        return false;
    }
    let m = p.len();
    let n = s.len();
    let mut k: usize = 0;
    while k < m
        invariant
            k <= m,
            n == s@.len(),
            m == p@.len(),
            i + m <= s@.len(),
            forall|t: int| 0 <= t < k ==> s@[i + t] == p@[t],
        decreases m - k,
    {
        if s[i + k] != p[k] {
            assert(s@.subrange(i as int, i + m)[k as int] != p@[k as int]);
            return false;
        }
        k += 1;
    }
    assert(s@.subrange(i as int, i + m) =~= p@);
    true
}

/// Whether `a` and `b` hold the same characters.
pub fn same_chars(a: &[char], b: &[char]) -> (r: bool)
    ensures
        r == (a@ == b@),
{
    if a.len() != b.len() {
        return false;
    }
    let r = occurs_at_exec(a, b, 0);
    assert(r ==> a@.subrange(0, b@.len() as int) =~= a@);
    proof {
        if a@ == b@ {
            assert(a@.subrange(0, b@.len() as int) =~= b@);
        }
    }
    r
}

/// Whether `s` begins with `p`, as `str::starts_with` decides.
pub fn starts_with(s: &[char], p: &[char]) -> (b: bool)
    ensures
        b == has_prefix(s@, p@),
{
    occurs_at_exec(s, p, 0)
}

/// Whether `p` occurs in `s`, as `str::contains` decides.
pub fn contains(s: &[char], p: &[char]) -> (b: bool)
    ensures
        b == has_infix(s@, p@),
{
    if p.len() > s.len() {
        assert forall|i: int| !occurs_at(s@, p@, i) by {}
        return false;
    }
    let last = s.len() - p.len();
    let mut i: usize = 0;
    while i <= last
        invariant
            last == s@.len() - p@.len(),
            forall|j: int| 0 <= j < i ==> !occurs_at(s@, p@, j),
        decreases last + 1 - i,
    {
        if occurs_at_exec(s, p, i) {
            return true;
        }
        if i == last {
            assert forall|j: int| !occurs_at(s@, p@, j) by {}
            return false;
        }
        i += 1;
    }
    false
}

// ---------------------------------------------------------------------------
// Splitting
// ---------------------------------------------------------------------------

/// The line that starts at index `i`: the characters up to the next line feed, without a
/// carriage return that stands right before that line feed.
pub open spec fn line_at(s: Seq<char>, i: int) -> Seq<char> {
    let k = find_from(s, '\n', i);
    let raw = s.subrange(i, k);
    if k < s.len() && raw.len() > 0 && raw.last() == '\r' {
        raw.drop_last()
    } else {
        raw
    }
}

/// The lines of `s` from index `i` on, as `str::lines` yields them.
pub open spec fn lines_from(s: Seq<char>, i: int) -> Seq<Seq<char>>
    decreases s.len() + 1 - i,
{
    if i < 0 || i >= s.len() {
        Seq::empty()
    } else {
        proof {
            lemma_find_from_bounds(s, '\n', i);
        }
        seq![line_at(s, i)] + lines_from(s, find_from(s, '\n', i) + 1)
    }
}

/// The lines of `s`, as `str::lines` yields them.
pub open spec fn lines_spec(s: Seq<char>) -> Seq<Seq<char>> {
    lines_from(s, 0)
}

/// The lines of `cs`, as `str::lines` yields them.
pub fn split_lines(cs: &[char]) -> (r: Vec<Vec<char>>)
    ensures
        views(r@) == lines_spec(cs@),
{
    let n = cs.len();
    let mut out: Vec<Vec<char>> = Vec::new();
    let mut pos: usize = 0;
    while pos < n
        invariant
            pos <= n,
            n == cs@.len(),
            lines_spec(cs@) == views(out@) + lines_from(cs@, pos as int),
        decreases n - pos,
    {
        let k = find_char(cs, '\n', pos);
        proof {
            lemma_find_from_bounds(cs@, '\n', pos as int);
        }
        let mut end = k;
        if k < n && end > pos && cs[end - 1] == '\r' {
            end -= 1;
        }
        let line = sub_vec(cs, pos, end);
        assert(line@ =~= line_at(cs@, pos as int));
        let ghost before = out@;
        out.push(line);
        assert(views(out@) =~= views(before).push(line@));
        assert(lines_from(cs@, pos as int) == seq![line@] + lines_from(cs@, k + 1));
        if k == n {
            assert(lines_from(cs@, k + 1) =~= lines_from(cs@, n as int));
            pos = n;
        } else {
            pos = k + 1;
        }
        assert(lines_spec(cs@) =~= views(out@) + lines_from(cs@, pos as int));
    }
    assert(views(out@) + lines_from(cs@, pos as int) =~= views(out@));
    out
}

/// The index of the first white space character at or after `i` (`s.len()` if none).
pub open spec fn find_white_from(s: Seq<char>, i: int) -> int
    decreases s.len() - i,
{
    if i >= s.len() {
        s.len() as int
    } else if is_white(s[i]) {
        i
    } else {
        find_white_from(s, i + 1)
    }
}

/// The first item of `str::split_whitespace`, if there is one.
pub open spec fn first_word(s: Seq<char>) -> Option<Seq<char>> {
    let a = first_non_white(s, 0);
    if a >= s.len() {
        None
    } else {
        Some(s.subrange(a, find_white_from(s, a)))
    }
}

/// The first white-space separated word of `cs`, if there is one.
pub fn first_word_of(cs: &[char]) -> (r: Option<Vec<char>>)
    ensures
        match r {
            Some(w) => first_word(cs@) == Some(w@),
            None => first_word(cs@).is_none(),
        },
{
    let n = cs.len();
    let mut a: usize = 0;
    while a < n && is_white_char(cs[a])
        invariant
            a <= n,
            n == cs@.len(),
            first_non_white(cs@, 0) == first_non_white(cs@, a as int),
        decreases n - a,
    {
        a += 1;
    }
    if a == n {
        return None;
    }
    let mut b = a;
    while b < n && !is_white_char(cs[b])
        invariant
            a <= b <= n,
            n == cs@.len(),
            find_white_from(cs@, a as int) == find_white_from(cs@, b as int),
        decreases n - b,
    {
        b += 1;
    }
    Some(sub_vec(cs, a, b))
}

/// The pieces of `s` split at `c`, at most `n` of them, the last holding the rest: `str::splitn`.
pub open spec fn splitn_spec(s: Seq<char>, n: nat, c: char) -> Seq<Seq<char>>
    decreases n,
{
    if n == 0 {
        Seq::empty()
    } else if n == 1 {
        seq![s]
    } else {
        let k = find_from(s, c, 0);
        if k >= s.len() {
            seq![s]
        } else {
            seq![s.subrange(0, k)] + splitn_spec(s.subrange(k + 1, s.len() as int), (n - 1) as nat, c)
        }
    }
}

/// The pieces of `cs` split at `c`, at most `n` of them, as `str::splitn` yields them.
pub fn splitn_chars(cs: &[char], n: usize, c: char) -> (r: Vec<Vec<char>>)
    ensures
        views(r@) == splitn_spec(cs@, n as nat, c),
    decreases n,
{
    let mut r: Vec<Vec<char>> = Vec::new();
    if n == 0 {
        assert(views(r@) =~= splitn_spec(cs@, n as nat, c));
        return r;
    }
    let len = cs.len();
    if n == 1 {
        r.push(sub_vec(cs, 0, len));
        assert(cs@.subrange(0, len as int) =~= cs@);
        assert(views(r@) =~= splitn_spec(cs@, n as nat, c));
        return r;
    }
    let k = find_char(cs, c, 0);
    proof {
        lemma_find_from_bounds(cs@, c, 0);
    }
    if k == len {
        r.push(sub_vec(cs, 0, len));
        assert(cs@.subrange(0, len as int) =~= cs@);
        assert(views(r@) =~= splitn_spec(cs@, n as nat, c));
        return r;
    }
    r.push(sub_vec(cs, 0, k));
    let rest = sub_vec(cs, k + 1, len);
    let mut tail = splitn_chars(rest.as_slice(), n - 1, c);
    let ghost first = r@;
    let ghost tail_before = tail@;
    r.append(&mut tail);
    assert(views(r@) =~= views(first) + views(tail_before));
    assert(views(r@) =~= splitn_spec(cs@, n as nat, c));
    r
}

// ---------------------------------------------------------------------------
// Decimal numbers
// ---------------------------------------------------------------------------

/// The decimal digit character for `d < 10`.
pub open spec fn digit_char(d: nat) -> char {
    ((d + 48) as u32) as char
}

/// Whether `c` is an ASCII decimal digit.
pub open spec fn is_digit(c: char) -> bool {
    48 <= (c as u32) <= 57
}

/// The decimal representation of `n`, without sign or leading zeros.
pub open spec fn decimal(n: nat) -> Seq<char>
    decreases n,
{
    if n < 10 {
        seq![digit_char(n)]
    } else {
        decimal(n / 10).push(digit_char(n % 10))
    }
}

/// The decimal representation of `n`, with a leading `-` when negative, as `Display` writes it.
pub open spec fn signed_decimal(n: int) -> Seq<char> {
    if n < 0 {
        seq!['-'] + decimal((-n) as nat)
    } else {
        decimal(n as nat)
    }
}

/// The digit character for `d`.
fn digit_to_char(d: u64) -> (c: char)
    requires
        d < 10,
    ensures
        c == digit_char(d as nat),
{
    let b: u8 = 48 + d as u8;
    b as char
}

/// The decimal representation of `n`.
pub fn decimal_chars(n: u64) -> (r: Vec<char>)
    ensures
        r@ == decimal(n as nat),
    decreases n,
{
    if n < 10 {
        let mut r: Vec<char> = Vec::new();
        r.push(digit_to_char(n));
        assert(r@ =~= decimal(n as nat));
        r
    } else {
        let mut r = decimal_chars(n / 10);
        r.push(digit_to_char(n % 10));
        r
    }
}

/// The decimal representation of `n`, with a leading `-` when negative.
pub fn signed_decimal_chars(n: i64) -> (r: Vec<char>)
    ensures
        r@ == signed_decimal(n as int),
{
    if n < 0 {
        let m: u64 = if n == i64::MIN {
            9223372036854775808u64
        } else {
            (-n) as u64
        };
        let mut r: Vec<char> = Vec::new();
        r.push('-');
        let mut digits = decimal_chars(m);
        r.append(&mut digits);
        r
    } else {
        decimal_chars(n as u64)
    }
}

/// The value of a string of decimal digits (0 for the empty string).
pub open spec fn digits_value(s: Seq<char>) -> nat
    decreases s.len(),
{
    if s.len() == 0 {
        0
    } else {
        digits_value(s.drop_last()) * 10 + ((s.last() as u32) - 48) as nat
    }
}

/// The digits that `usize::from_str` reads: the text without one leading `+`.
pub open spec fn unsigned_digits(s: Seq<char>) -> Seq<char> {
    if s.len() > 0 && s[0] == '+' {
        s.drop_first()
    } else {
        s
    }
}

/// Whether every character of `s` is a decimal digit.
pub open spec fn all_digits(s: Seq<char>) -> bool {
    forall|i: int| 0 <= i < s.len() ==> is_digit(#[trigger] s[i])
}

/// What `s.parse::<usize>()` gives: `None` where it returns an error.
pub open spec fn parse_usize_spec(s: Seq<char>) -> Option<usize> {
    let d = unsigned_digits(s);
    if d.len() > 0 && all_digits(d) && digits_value(d) <= usize::MAX {
        Some(digits_value(d) as usize)
    } else {
        None
    }
}

proof fn lemma_digits_value_prefix_monotone(s: Seq<char>, i: int)
    requires
        0 <= i <= s.len(),
        all_digits(s),
    ensures
        digits_value(s.take(i)) <= digits_value(s),
    decreases s.len() - i,
{
    if i < s.len() {
        lemma_digits_value_prefix_monotone(s, i + 1);
        assert(s.take(i + 1).drop_last() =~= s.take(i));
        assert(is_digit(s[i]));
    } else {
        assert(s.take(i) =~= s);
    }
}

/// Reads `cs` as `s.parse::<usize>()` does: an optional `+`, then decimal digits only.
pub fn parse_usize(cs: &[char]) -> (r: Option<usize>)
    ensures
        r == parse_usize_spec(cs@),
{
    let n = cs.len();
    let start: usize = if n > 0 && cs[0] == '+' { 1 } else { 0 };
    let ghost d = unsigned_digits(cs@);
    assert(d =~= cs@.subrange(start as int, n as int));
    if start == n {
        return None;
    }
    let mut value: usize = 0;
    let mut i = start;
    while i < n
        invariant
            start <= i <= n,
            n == cs@.len(),
            d == cs@.subrange(start as int, n as int),
            d == unsigned_digits(cs@),
            all_digits(d.take(i - start)),
            value as nat == digits_value(d.take(i - start)),
        decreases n - i,
    {
        let c = cs[i];
        let code = c as u32;
        assert(d[i - start] == c);
        assert(d.take(i - start + 1).drop_last() =~= d.take(i - start));
        if code < 48 || code > 57 {
            assert(!is_digit(d[i - start]));
            assert(!all_digits(d));
            return None;
        }
        let digit = (code - 48) as usize;
        assert(d.take(i - start + 1).last() == c);
        assert(digits_value(d.take(i - start + 1)) == value * 10 + digit);
        match value.checked_mul(10) {
            None => {
                proof {
                    assert(all_digits(d.take(i - start + 1)));
                    if all_digits(d) {
                        lemma_digits_value_prefix_monotone(d, i - start + 1);
                    }
                }
                return None;
            },
            Some(v10) => match v10.checked_add(digit) {
                None => {
                    proof {
                        assert(all_digits(d.take(i - start + 1)));
                        if all_digits(d) {
                            lemma_digits_value_prefix_monotone(d, i - start + 1);
                        }
                    }
                    return None;
                },
                Some(v) => {
                    value = v;
                },
            },
        }
        i += 1;
    }
    assert(d.take(n - start) =~= d);
    Some(value)
}

/// The decimal representation of a number is made of digits and reads back as that number.
pub proof fn lemma_decimal_digits(n: nat)
    ensures
        decimal(n).len() > 0,
        all_digits(decimal(n)),
        digits_value(decimal(n)) == n,
        decimal(n)[0] != '+',
    decreases n,
{
    if n >= 10 {
        lemma_decimal_digits(n / 10);
        let s = decimal(n);
        assert(s.drop_last() =~= decimal(n / 10));
        let last = digit_char(n % 10);
        assert(last as u32 == (n % 10) + 48);
        assert(s.last() == last);
        assert(digits_value(s) == digits_value(decimal(n / 10)) * 10 + n % 10);
        assert((n / 10) * 10 + n % 10 == n) by (nonlinear_arith);
        assert(digits_value(s) == n);
    } else {
        let s = decimal(n);
        assert(s.drop_last() =~= Seq::<char>::empty());
        assert(digit_char(n) as u32 == n + 48);
        assert(s.last() == digit_char(n));
        assert(digits_value(Seq::<char>::empty()) == 0);
        assert(digits_value(s) == n);
        assert forall|i: int| 0 <= i < s.len() implies is_digit(#[trigger] s[i]) by {
            if i < s.len() - 1 {
                assert(s[i] == decimal(n / 10)[i]);
            }
        }
    }
}

/// Reading back a written index: `parse_usize` of the decimal form of `n` gives `n`.
pub proof fn law_parse_decimal_roundtrip(n: usize)
    ensures
        parse_usize_spec(decimal(n as nat)) == Some(n),
{
    lemma_decimal_digits(n as nat);
}

// ---------------------------------------------------------------------------
// Hexadecimal
// ---------------------------------------------------------------------------

/// The lowercase hexadecimal digit for `d < 16`.
pub open spec fn hex_digit(d: nat) -> char {
    if d < 10 {
        ((d + 48) as u32) as char
    } else {
        ((d + 87) as u32) as char
    }
}

/// Each byte as two lowercase hexadecimal digits, high nibble first.
pub open spec fn hex_spec(b: Seq<u8>) -> Seq<char>
    decreases b.len(),
{
    if b.len() == 0 {
        Seq::empty()
    } else {
        hex_spec(b.drop_last()) + seq![hex_digit((b.last() / 16) as nat), hex_digit((b.last() % 16) as nat)]
    }
}

/// A hex rendering has two characters per byte.
pub proof fn lemma_hex_len(b: Seq<u8>)
    ensures
        hex_spec(b).len() == 2 * b.len(),
    decreases b.len(),
{
    if b.len() > 0 {
        lemma_hex_len(b.drop_last());
    }
}

fn hex_digit_char(d: u8) -> (c: char)
    requires
        d < 16,
    ensures
        c == hex_digit(d as nat),
{
    if d < 10 {
        (48 + d) as char
    } else {
        (87 + d) as char
    }
}

/// Each byte of `b` as two lowercase hexadecimal digits (`format!("{:02x}")` per byte).
pub fn hex_lower(b: &[u8]) -> (r: Vec<char>)
    ensures
        r@ == hex_spec(b@),
{
    let n = b.len();
    let mut r: Vec<char> = Vec::new();
    let mut i: usize = 0;
    while i < n
        invariant
            i <= n,
            n == b@.len(),
            r@ == hex_spec(b@.take(i as int)),
        decreases n - i,
    {
        let byte = b[i];
        r.push(hex_digit_char(byte / 16));
        r.push(hex_digit_char(byte % 16));
        assert(b@.take(i + 1).drop_last() =~= b@.take(i as int));
        assert(r@ =~= hex_spec(b@.take(i + 1)));
        i += 1;
    }
    assert(b@.take(n as int) =~= b@);
    r
}

} // verus!
