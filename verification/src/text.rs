//! Character-level text operations, stated over `Seq<char>`.
//!
//! Every operation here works on the characters of a string (not its bytes),
//! which is how the parsers and routers of this crate read their input.

use vstd::prelude::*;

verus! {

/// Unicode `White_Space`, the set `char::is_whitespace` and `str::trim` use.
pub open spec fn is_ws(c: char) -> bool {
    ||| '\t' <= c <= '\r'
    ||| c == ' '
    ||| c == '\u{85}'
    ||| c == '\u{A0}'
    ||| c == '\u{1680}'
    ||| '\u{2000}' <= c <= '\u{200A}'
    ||| c == '\u{2028}'
    ||| c == '\u{2029}'
    ||| c == '\u{202F}'
    ||| c == '\u{205F}'
    ||| c == '\u{3000}'
}

/// The character classes that the trimming operations of this crate strip.
#[derive(Clone, Copy, Debug, PartialEq, Eq)]
pub enum CharClass {
    /// Unicode whitespace.
    Space,
    /// Anything but whitespace.
    NonSpace,
    /// `?` and `.`, the ends of a question.
    QuestionEnd,
    /// `?`, `.` and the backtick.
    QuestionEndOrTick,
    /// The ASCII space alone.
    Blank,
    /// `@`, the mark before a handle.
    At,
}

pub open spec fn in_class(k: CharClass, c: char) -> bool {
    match k {
        CharClass::Space => is_ws(c),
        CharClass::NonSpace => !is_ws(c),
        CharClass::QuestionEnd => c == '?' || c == '.',
        CharClass::QuestionEndOrTick => c == '?' || c == '.' || c == '`',
        CharClass::Blank => c == ' ',
        CharClass::At => c == '@',
    }
}

/// Whether `c` is Unicode whitespace.
pub fn is_space(c: char) -> (b: bool)
    ensures
        b == is_ws(c),
{
    ('\t' <= c && c <= '\r') || c == ' ' || c == '\u{85}' || c == '\u{A0}' || c == '\u{1680}'
        || ('\u{2000}' <= c && c <= '\u{200A}') || c == '\u{2028}' || c == '\u{2029}'
        || c == '\u{202F}' || c == '\u{205F}' || c == '\u{3000}'
}

/// Whether `c` belongs to class `k`.
pub fn class_has(k: CharClass, c: char) -> (b: bool)
    ensures
        b == in_class(k, c),
{
    match k {
        CharClass::Space => is_space(c),
        CharClass::NonSpace => !is_space(c),
        CharClass::QuestionEnd => c == '?' || c == '.',
        CharClass::QuestionEndOrTick => c == '?' || c == '.' || c == '`',
        CharClass::Blank => c == ' ',
        CharClass::At => c == '@',
    }
}

/// How many characters at the front of `s` belong to `k`.
pub open spec fn lead(s: Seq<char>, k: CharClass) -> nat
    decreases s.len(),
{
    if s.len() > 0 && in_class(k, s[0]) {
        1 + lead(s.drop_first(), k)
    } else {
        0
    }
}

/// How many characters at the back of `s` belong to `k`.
pub open spec fn trail(s: Seq<char>, k: CharClass) -> nat
    decreases s.len(),
{
    if s.len() > 0 && in_class(k, s.last()) {
        1 + trail(s.drop_last(), k)
    } else {
        0
    }
}

/// `s` with every leading and trailing character of class `k` removed
/// (`str::trim_matches`).
pub open spec fn trim_class(s: Seq<char>, k: CharClass) -> Seq<char> {
    let t = s.skip(lead(s, k) as int);
    t.take(t.len() - trail(t, k))
}

/// `str::trim`: `s` without leading and trailing whitespace.
pub open spec fn trim(s: Seq<char>) -> Seq<char> {
    trim_class(s, CharClass::Space)
}

pub proof fn lemma_lead_bounded(s: Seq<char>, k: CharClass)
    ensures
        lead(s, k) <= s.len(),
    decreases s.len(),
{
    if s.len() > 0 && in_class(k, s[0]) {
        lemma_lead_bounded(s.drop_first(), k);
    }
}

pub proof fn lemma_trail_bounded(s: Seq<char>, k: CharClass)
    ensures
        trail(s, k) <= s.len(),
    decreases s.len(),
{
    if s.len() > 0 && in_class(k, s.last()) {
        lemma_trail_bounded(s.drop_last(), k);
    }
}

/// The run of class-`k` characters at the front of `s` ends at `n`.
pub proof fn lemma_lead_is(s: Seq<char>, k: CharClass, n: int)
    requires
        0 <= n <= s.len(),
        forall|j: int| 0 <= j < n ==> in_class(k, #[trigger] s[j]),
        n == s.len() || !in_class(k, s[n]),
    ensures
        lead(s, k) == n,
    decreases n,
{
    if n > 0 {
        let t = s.drop_first();
        assert forall|j: int| 0 <= j < n - 1 implies in_class(k, #[trigger] t[j]) by {
            assert(t[j] == s[j + 1]);
        }
        if n - 1 < t.len() {
            assert(t[n - 1] == s[n]);
        }
        lemma_lead_is(t, k, n - 1);
    }
}

/// The run of class-`k` characters at the back of `s` starts at `n`.
pub proof fn lemma_trail_is(s: Seq<char>, k: CharClass, n: int)
    requires
        0 <= n <= s.len(),
        forall|j: int| n <= j < s.len() ==> in_class(k, #[trigger] s[j]),
        n == 0 || !in_class(k, s[n - 1]),
    ensures
        trail(s, k) == s.len() - n,
    decreases s.len() - n,
{
    if n < s.len() {
        let t = s.drop_last();
        assert forall|j: int| n <= j < t.len() implies in_class(k, #[trigger] t[j]) by {
            assert(t[j] == s[j]);
        }
        if n > 0 {
            assert(t[n - 1] == s[n - 1]);
        }
        lemma_trail_is(t, k, n);
    }
}

/// The run `lead` counts is all of class `k`, and the character after it
/// (if any) is not.
pub proof fn lemma_lead_facts(s: Seq<char>, k: CharClass)
    ensures
        lead(s, k) <= s.len(),
        forall|j: int| 0 <= j < lead(s, k) ==> in_class(k, #[trigger] s[j]),
        lead(s, k) < s.len() ==> !in_class(k, s[lead(s, k) as int]),
    decreases s.len(),
{
    if s.len() > 0 && in_class(k, s[0]) {
        let t = s.drop_first();
        lemma_lead_facts(t, k);
        assert forall|j: int| 0 <= j < lead(s, k) implies in_class(k, #[trigger] s[j]) by {
            if j > 0 {
                assert(s[j] == t[j - 1]);
            }
        }
        if lead(s, k) < s.len() {
            assert(s[lead(s, k) as int] == t[lead(t, k) as int]);
        }
    }
}

/// The run `trail` counts is all of class `k`, and the character before it
/// (if any) is not.
pub proof fn lemma_trail_facts(s: Seq<char>, k: CharClass)
    ensures
        trail(s, k) <= s.len(),
        forall|j: int| s.len() - trail(s, k) <= j < s.len() ==> in_class(k, #[trigger] s[j]),
        trail(s, k) < s.len() ==> !in_class(k, s[s.len() - trail(s, k) - 1]),
    decreases s.len(),
{
    if s.len() > 0 && in_class(k, s.last()) {
        let t = s.drop_last();
        lemma_trail_facts(t, k);
        assert forall|j: int| s.len() - trail(s, k) <= j < s.len() implies in_class(k, #[trigger] s[j]) by {
            if j < s.len() - 1 {
                assert(s[j] == t[j]);
            }
        }
        if trail(s, k) < s.len() {
            assert(s[s.len() - trail(s, k) - 1] == t[t.len() - trail(t, k) - 1]);
        }
    }
}

/// `v[from..to]` as a new vector.
pub fn slice(v: &Vec<char>, from: usize, to: usize) -> (r: Vec<char>)
    requires
        from <= to <= v.len(),
    ensures
        r@ == v@.subrange(from as int, to as int),
{
    let mut r: Vec<char> = Vec::new();
    let mut i = from;
    while i < to
        invariant
            from <= i <= to <= v.len(),
            r@ == v@.subrange(from as int, i as int),
        decreases to - i,
    {
        r.push(v[i]);
        assert(v@.subrange(from as int, i as int).push(v@[i as int]) =~= v@.subrange(
            from as int,
            i + 1,
        ));
        i = i + 1;
    }
    r
}

/// `v` without its leading and trailing characters of class `k`.
pub fn trim_chars(v: &Vec<char>, k: CharClass) -> (r: Vec<char>)
    ensures
        r@ == trim_class(v@, k),
{
    let n = v.len();
    let mut a: usize = 0;
    while a < n && class_has(k, v[a])
        invariant
            a <= n == v.len(),
            forall|j: int| 0 <= j < a ==> in_class(k, #[trigger] v@[j]),
        decreases n - a,
    {
        a = a + 1;
    }
    proof {
        lemma_lead_is(v@, k, a as int);
    }
    let mut b: usize = n;
    while b > a && class_has(k, v[b - 1])
        invariant
            a <= b <= n == v.len(),
            forall|j: int| b <= j < n ==> in_class(k, #[trigger] v@[j]),
        decreases b - a,
    {
        b = b - 1;
    }
    let ghost t = v@.skip(a as int);
    proof {
        assert forall|j: int| (b - a) <= j < t.len() implies in_class(k, #[trigger] t[j]) by {
            assert(t[j] == v@[j + a]);
        }
        if b > a {
            assert(t[b - a - 1] == v@[b - 1]);
        }
        lemma_trail_is(t, k, b - a);
        assert(t.take(b - a) =~= v@.subrange(a as int, b as int));
    }
    slice(v, a, b)
}

/// `s` without its trailing characters of class `k` (`str::trim_end_matches`).
pub open spec fn trim_end_class(s: Seq<char>, k: CharClass) -> Seq<char> {
    s.take(s.len() - trail(s, k))
}

/// `v` without its trailing characters of class `k`.
pub fn trim_end_chars(v: &Vec<char>, k: CharClass) -> (r: Vec<char>)
    ensures
        r@ == trim_end_class(v@, k),
{
    let n = v.len();
    let mut b: usize = n;
    while b > 0 && class_has(k, v[b - 1])
        invariant
            b <= n == v.len(),
            forall|j: int| b <= j < n ==> in_class(k, #[trigger] v@[j]),
        decreases b,
    {
        b = b - 1;
    }
    proof {
        lemma_trail_is(v@, k, b as int);
        assert(v@.take(b as int) =~= v@.subrange(0, b as int));
    }
    slice(v, 0, b)
}

/// Whether `a` and `b` hold the same characters.
pub fn same(a: &Vec<char>, b: &Vec<char>) -> (r: bool)
    ensures
        r == (a@ == b@),
{
    if a.len() != b.len() {
        return false;
    }
    let mut i: usize = 0;
    while i < a.len()
        invariant
            i <= a.len() == b.len(),
            forall|j: int| 0 <= j < i ==> a@[j] == b@[j],
        decreases a.len() - i,
    {
        if a[i] != b[i] {
            return false;
        }
        i = i + 1;
    }
    assert(a@ =~= b@);
    true
}

/// `pat` occurs in `s` starting at index `i`.
pub open spec fn occurs_at(s: Seq<char>, pat: Seq<char>, i: int) -> bool {
    0 <= i && i + pat.len() <= s.len() && s.subrange(i, i + pat.len()) == pat
}

/// The first index at or after `i` where `pat` occurs in `s`.
pub open spec fn find_from(s: Seq<char>, pat: Seq<char>, i: nat) -> Option<int>
    decreases s.len() + 1 - i,
{
    if i + pat.len() > s.len() {
        None
    } else if occurs_at(s, pat, i as int) {
        Some(i as int)
    } else {
        find_from(s, pat, i + 1)
    }
}

/// `str::find`: the first index where `pat` occurs in `s`.
pub open spec fn find(s: Seq<char>, pat: Seq<char>) -> Option<int> {
    find_from(s, pat, 0)
}

/// `str::contains`.
pub open spec fn contains(s: Seq<char>, pat: Seq<char>) -> bool {
    find(s, pat) is Some
}

/// `str::starts_with`.
pub open spec fn starts_with(s: Seq<char>, pat: Seq<char>) -> bool {
    occurs_at(s, pat, 0)
}

/// What `find_from` answers, stated by its properties.
pub proof fn lemma_find_from(s: Seq<char>, pat: Seq<char>, i: nat)
    ensures
        find_from(s, pat, i) matches Some(j) ==> i <= j && occurs_at(s, pat, j) && forall|m: int|
            i <= m < j ==> !occurs_at(s, pat, m),
        find_from(s, pat, i) is None ==> forall|m: int| i <= m ==> !occurs_at(s, pat, m),
    decreases s.len() + 1 - i,
{
    if i + pat.len() > s.len() {
    } else if occurs_at(s, pat, i as int) {
    } else {
        lemma_find_from(s, pat, i + 1);
    }
}

/// Whether `pat` occurs in `s` at index `i`.
pub fn occurs_at_exec(s: &Vec<char>, pat: &Vec<char>, i: usize) -> (r: bool)
    ensures
        r == occurs_at(s@, pat@, i as int),
{
    if i > s.len() || pat.len() > s.len() - i {
        return false;
    }
    let mut j: usize = 0;
    while j < pat.len()
        invariant
            j <= pat.len(),
            i + pat.len() <= s.len(),
            forall|m: int| 0 <= m < j ==> s@[i + m] == pat@[m],
        decreases pat.len() - j,
    {
        if s[i + j] != pat[j] {
            assert(s@.subrange(i as int, i + pat.len())[j as int] != pat@[j as int]);
            return false;
        }
        j = j + 1;
    }
    assert(s@.subrange(i as int, i + pat.len()) =~= pat@);
    true
}

/// `str::find` over characters.
pub fn find_chars(s: &Vec<char>, pat: &Vec<char>) -> (r: Option<usize>)
    ensures
        match r {
            Some(i) => find(s@, pat@) == Some(i as int),
            None => find(s@, pat@) is None,
        },
{
    let mut i: usize = 0;
    while i <= s.len() && pat.len() <= s.len() - i
        invariant
            find_from(s@, pat@, i as nat) == find(s@, pat@),
        decreases s.len() + 1 - i,
    {
        if occurs_at_exec(s, pat, i) {
            return Some(i);
        }
        if i == s.len() {
            assert(find_from(s@, pat@, (i + 1) as nat) is None);
            return None;
        }
        i = i + 1;
    }
    None
}

/// `str::starts_with` over characters.
pub fn starts_with_chars(s: &Vec<char>, pat: &Vec<char>) -> (r: bool)
    ensures
        r == starts_with(s@, pat@),
{
    occurs_at_exec(s, pat, 0)
}

/// `str::contains` over characters.
pub fn contains_chars(s: &Vec<char>, pat: &Vec<char>) -> (r: bool)
    ensures
        r == contains(s@, pat@),
{
    find_chars(s, pat).is_some()
}

/// `char::to_ascii_lowercase`.
pub open spec fn lower_char(c: char) -> char {
    if 'A' <= c <= 'Z' {
        ((c as u32) + 32) as char
    } else {
        c
    }
}

/// `str::to_ascii_lowercase`: ASCII capitals lowered, everything else kept.
pub open spec fn ascii_lower(s: Seq<char>) -> Seq<char> {
    Seq::new(s.len(), |i: int| lower_char(s[i]))
}

fn lower_char_exec(c: char) -> (r: char)
    ensures
        r == lower_char(c),
{
    if 'A' <= c && c <= 'Z' {
        let b = (c as u8) + 32;
        b as char
    } else {
        c
    }
}

/// `str::to_ascii_lowercase` over characters.
pub fn ascii_lower_chars(s: &Vec<char>) -> (r: Vec<char>)
    ensures
        r@ == ascii_lower(s@),
{
    let mut r: Vec<char> = Vec::new();
    let mut i: usize = 0;
    while i < s.len()
        invariant
            i <= s.len(),
            r@ =~= ascii_lower(s@).take(i as int),
        decreases s.len() - i,
    {
        r.push(lower_char_exec(s[i]));
        i = i + 1;
    }
    r
}

/// Appends the characters of `src` to `dst`.
pub fn extend_chars(dst: &mut Vec<char>, src: &Vec<char>)
    ensures
        final(dst)@ == old(dst)@ + src@,
{
    let mut i: usize = 0;
    while i < src.len()
        invariant
            i <= src.len(),
            dst@ =~= old(dst)@ + src@.take(i as int),
        decreases src.len() - i,
    {
        dst.push(src[i]);
        i = i + 1;
    }
}


/// `str::split_whitespace`: the maximal runs of non-whitespace characters of
/// `s`, in order.
pub open spec fn words(s: Seq<char>) -> Seq<Seq<char>>
    decreases s.len(),
{
    if s.len() == 0 {
        seq![]
    } else if is_ws(s[0]) {
        words(s.drop_first())
    } else {
        let n = lead(s, CharClass::NonSpace);
        proof {
            lemma_lead_bounded(s, CharClass::NonSpace);
        }
        seq![s.take(n as int)] + words(s.skip(n as int))
    }
}

/// Whitespace in front changes no word.
pub proof fn lemma_words_skip_leading_space(s: Seq<char>, k: int)
    requires
        0 <= k <= s.len(),
        forall|i: int| 0 <= i < k ==> is_ws(#[trigger] s[i]),
    ensures
        words(s) == words(s.skip(k)),
    decreases k,
{
    if k == 0 {
        assert(s.skip(0) =~= s);
    } else {
        let t = s.drop_first();
        assert forall|i: int| 0 <= i < k - 1 implies is_ws(#[trigger] t[i]) by {
            assert(t[i] == s[i + 1]);
        }
        lemma_words_skip_leading_space(t, k - 1);
        assert(t.skip(k - 1) =~= s.skip(k));
    }
}

/// The character sequences a vector of character vectors holds.
pub open spec fn views(v: Seq<Vec<char>>) -> Seq<Seq<char>> {
    v.map_values(|w: Vec<char>| w@)
}

/// `slice::join(" ")`: the words with one space between neighbours.
pub open spec fn join_space(ws: Seq<Seq<char>>) -> Seq<char>
    decreases ws.len(),
{
    if ws.len() == 0 {
        seq![]
    } else if ws.len() == 1 {
        ws[0]
    } else {
        join_space(ws.drop_last()) + seq![' '] + ws.last()
    }
}

proof fn lemma_words_skip_space(s: Seq<char>, i: int)
    requires
        0 <= i < s.len(),
        is_ws(s[i]),
    ensures
        words(s.skip(i)) == words(s.skip(i + 1)),
{
    let t = s.skip(i);
    assert(t[0] == s[i]);
    assert(t.drop_first() =~= s.skip(i + 1));
}

proof fn lemma_words_take_word(s: Seq<char>, i: int, j: int)
    requires
        0 <= i < j <= s.len(),
        forall|m: int| i <= m < j ==> !is_ws(#[trigger] s[m]),
        j == s.len() || is_ws(s[j]),
    ensures
        words(s.skip(i)) == seq![s.subrange(i, j)] + words(s.skip(j)),
{
    let t = s.skip(i);
    assert forall|m: int| 0 <= m < j - i implies in_class(CharClass::NonSpace, #[trigger] t[m]) by {
        assert(t[m] == s[m + i]);
    }
    if j < s.len() {
        assert(t[j - i] == s[j]);
    }
    lemma_lead_is(t, CharClass::NonSpace, j - i);
    assert(t[0] == s[i]);
    assert(t.take(j - i) =~= s.subrange(i, j));
    assert(t.skip(j - i) =~= s.skip(j));
}

/// `str::split_whitespace` over characters.
pub fn split_words(s: &Vec<char>) -> (r: Vec<Vec<char>>)
    ensures
        views(r@) == words(s@),
{
    let n = s.len();
    let mut out: Vec<Vec<char>> = Vec::new();
    let mut i: usize = 0;
    assert(s@.skip(0) =~= s@);
    while i < n
        invariant
            i <= n == s.len(),
            words(s@) == views(out@) + words(s@.skip(i as int)),
        decreases n - i,
    {
        if is_space(s[i]) {
            proof {
                lemma_words_skip_space(s@, i as int);
            }
            i = i + 1;
        } else {
            let mut j = i + 1;
            while j < n && !is_space(s[j])
                invariant
                    i < j <= n == s.len(),
                    forall|m: int| i <= m < j ==> !is_ws(#[trigger] s@[m]),
                decreases n - j,
            {
                j = j + 1;
            }
            proof {
                lemma_words_take_word(s@, i as int, j as int);
            }
            let w = slice(s, i, j);
            let ghost before = out@;
            out.push(w);
            assert(views(out@) =~= views(before) + seq![s@.subrange(i as int, j as int)]);
            i = j;
        }
    }
    assert(s@.skip(n as int) =~= Seq::<char>::empty());
    assert(views(out@) + Seq::<Seq<char>>::empty() =~= views(out@));
    out
}

/// `ws[from..].join(" ")` over characters.
pub fn join_words(ws: &Vec<Vec<char>>, from: usize) -> (r: Vec<char>)
    requires
        from <= ws.len(),
    ensures
        r@ == join_space(views(ws@).skip(from as int)),
{
    let ghost vs = views(ws@);
    let mut r: Vec<char> = Vec::new();
    let mut i = from;
    assert(vs.subrange(from as int, from as int) =~= Seq::<Seq<char>>::empty());
    while i < ws.len()
        invariant
            from <= i <= ws.len(),
            vs == views(ws@),
            r@ == join_space(vs.subrange(from as int, i as int)),
        decreases ws.len() - i,
    {
        let ghost prev = vs.subrange(from as int, i as int);
        let ghost next = vs.subrange(from as int, i + 1);
        assert(next.drop_last() =~= prev);
        assert(next.last() == ws@[i as int]@);
        if i > from {
            r.push(' ');
        }
        extend_chars(&mut r, &ws[i]);
        if i == from {
            assert(next.len() == 1);
            assert(r@ =~= next[0]);
        } else {
            assert(r@ =~= join_space(prev) + seq![' '] + next.last());
        }
        i = i + 1;
    }
    assert(vs.subrange(from as int, ws.len() as int) =~= vs.skip(from as int));
    r
}

/// An ASCII decimal digit.
pub open spec fn is_digit(c: char) -> bool {
    '0' <= c <= '9'
}

pub open spec fn digit_value(c: char) -> int {
    (c as int) - ('0' as int)
}

pub open spec fn all_digits(s: Seq<char>) -> bool {
    forall|i: int| 0 <= i < s.len() ==> is_digit(#[trigger] s[i])
}

/// The number the decimal digits `s` spell.
pub open spec fn decimal(s: Seq<char>) -> int
    decreases s.len(),
{
    if s.len() == 0 {
        0
    } else {
        decimal(s.drop_last()) * 10 + digit_value(s.last())
    }
}

/// `s` without one leading `c`, if it starts with one.
pub open spec fn drop_sign(s: Seq<char>, c: char) -> Seq<char> {
    if s.len() > 0 && s[0] == c {
        s.drop_first()
    } else {
        s
    }
}

/// `str::parse::<u8>`: an optional `+`, then at least one ASCII digit, the
/// value at most 255.
pub open spec fn parse_u8_spec(s: Seq<char>) -> Option<u8> {
    let d = drop_sign(s, '+');
    if d.len() > 0 && all_digits(d) && decimal(d) <= 255 {
        Some(decimal(d) as u8)
    } else {
        None
    }
}

/// `str::parse::<i64>`: an optional `+` or `-`, then at least one ASCII
/// digit, the value within `i64`.
pub open spec fn parse_i64_spec(s: Seq<char>) -> Option<i64> {
    let neg = s.len() > 0 && s[0] == '-';
    let d = if neg {
        s.drop_first()
    } else {
        drop_sign(s, '+')
    };
    let v = if neg {
        -decimal(d)
    } else {
        decimal(d)
    };
    if d.len() > 0 && all_digits(d) && i64::MIN <= v <= i64::MAX {
        Some(v as i64)
    } else {
        None
    }
}

proof fn lemma_decimal_nonneg(s: Seq<char>)
    requires
        all_digits(s),
    ensures
        decimal(s) >= 0,
    decreases s.len(),
{
    if s.len() > 0 {
        assert(all_digits(s.drop_last())) by {
            assert forall|i: int| 0 <= i < s.drop_last().len() implies is_digit(
                #[trigger] s.drop_last()[i],
            ) by {
                assert(s.drop_last()[i] == s[i]);
            }
        }
        lemma_decimal_nonneg(s.drop_last());
        assert(is_digit(s[s.len() - 1]));
    }
}

/// A longer run of digits never spells a smaller number.
proof fn lemma_decimal_grows(s: Seq<char>, k: int)
    requires
        all_digits(s),
        0 <= k <= s.len(),
    ensures
        decimal(s.take(k)) <= decimal(s),
    decreases s.len() - k,
{
    if k < s.len() {
        let t = s.take(k + 1);
        assert(t.drop_last() =~= s.take(k));
        assert(all_digits(s.take(k))) by {
            assert forall|i: int| 0 <= i < s.take(k).len() implies is_digit(
                #[trigger] s.take(k)[i],
            ) by {
                assert(s.take(k)[i] == s[i]);
            }
        }
        lemma_decimal_nonneg(s.take(k));
        assert(t.last() == s[k]);
        assert(is_digit(s[k]));
        lemma_decimal_grows(s, k + 1);
    } else {
        assert(s.take(k) =~= s);
    }
}

/// The value of the decimal digits `d`, if it is at most `limit`.
fn decimal_upto(d: &Vec<char>, limit: u64) -> (r: Option<u64>)
    ensures
        match r {
            Some(v) => d@.len() > 0 && all_digits(d@) && v == decimal(d@) && v <= limit,
            None => !(d@.len() > 0 && all_digits(d@) && decimal(d@) <= limit),
        },
{
    if d.len() == 0 {
        return None;
    }
    let mut acc: u64 = 0;
    let mut i: usize = 0;
    assert(d@.take(0) =~= Seq::<char>::empty());
    while i < d.len()
        invariant
            i <= d.len(),
            all_digits(d@.take(i as int)),
            acc == decimal(d@.take(i as int)),
            acc <= limit,
        decreases d.len() - i,
    {
        let c = d[i];
        if !('0' <= c && c <= '9') {
            assert(!all_digits(d@)) by {
                assert(!is_digit(d@[i as int]));
            }
            return None;
        }
        let dv = (c as u32 - '0' as u32) as u64;
        let ghost t = d@.take(i + 1);
        assert(t.drop_last() =~= d@.take(i as int));
        assert(t.last() == c);
        assert(all_digits(t)) by {
            assert forall|m: int| 0 <= m < t.len() implies is_digit(#[trigger] t[m]) by {
                if m < i {
                    assert(t[m] == d@.take(i as int)[m]);
                }
            }
        }
        if dv > limit || acc > (limit - dv) / 10 {
            proof {
                if dv <= limit {
                    let q = (limit - dv) / 10;
                    assert(acc * 10 + dv > limit) by (nonlinear_arith)
                        requires
                            acc > q,
                            q == (limit - dv) / 10,
                            dv <= limit,
                    ;
                }
                assert(decimal(t) == acc * 10 + dv);
                if all_digits(d@) {
                    lemma_decimal_grows(d@, i + 1);
                }
            }
            return None;
        }
        assert(acc * 10 + dv <= limit) by (nonlinear_arith)
            requires
                acc <= (limit - dv) / 10,
                dv <= limit,
        ;
        acc = acc * 10 + dv;
        i = i + 1;
    }
    assert(d@.take(d.len() as int) =~= d@);
    Some(acc)
}

/// `str::parse::<u8>` over characters.
pub fn parse_u8(s: &Vec<char>) -> (r: Option<u8>)
    ensures
        r == parse_u8_spec(s@),
{
    let d = if s.len() > 0 && s[0] == '+' {
        slice(s, 1, s.len())
    } else {
        slice(s, 0, s.len())
    };
    assert(s@.subrange(0, s.len() as int) =~= s@);
    assert(s.len() > 0 ==> s@.subrange(1, s.len() as int) =~= s@.drop_first());
    match decimal_upto(&d, 255) {
        Some(v) => Some(v as u8),
        None => None,
    }
}

/// `str::parse::<i64>` over characters.
pub fn parse_i64(s: &Vec<char>) -> (r: Option<i64>)
    ensures
        r == parse_i64_spec(s@),
{
    let neg = s.len() > 0 && s[0] == '-';
    let d = if s.len() > 0 && (s[0] == '+' || s[0] == '-') {
        slice(s, 1, s.len())
    } else {
        slice(s, 0, s.len())
    };
    assert(s@.subrange(0, s.len() as int) =~= s@);
    assert(s.len() > 0 ==> s@.subrange(1, s.len() as int) =~= s@.drop_first());
    if neg {
        match decimal_upto(&d, 9223372036854775808) {
            Some(v) => {
                if v == 9223372036854775808 {
                    Some(i64::MIN)
                } else {
                    Some(-(v as i64))
                }
            },
            None => None,
        }
    } else {
        match decimal_upto(&d, 9223372036854775807) {
            Some(v) => Some(v as i64),
            None => None,
        }
    }
}


/// Appends the characters of `s` to `dst`.
pub fn push_str(dst: &mut Vec<char>, s: &str)
    ensures
        final(dst)@ == old(dst)@ + s@,
{
    let v = chars_of(s);
    extend_chars(dst, &v);
}

/// Appends the characters of `s` to `dst`.
pub fn push_string(dst: &mut Vec<char>, s: &String)
    ensures
        final(dst)@ == old(dst)@ + s@,
{
    push_str(dst, s.as_str());
}

/// The character of decimal digit `d`.
pub open spec fn digit_char(d: int) -> char {
    ((d + 48) as u32) as char
}

/// The decimal digits of `n`, without leading zeros (`0` for zero).
pub open spec fn nat_text(n: nat) -> Seq<char>
    decreases n,
{
    if n < 10 {
        seq![digit_char(n as int)]
    } else {
        nat_text(n / 10).push(digit_char((n % 10) as int))
    }
}

/// `n` as `Display` writes an integer: a `-` before the digits of a
/// negative number.
pub open spec fn int_text(n: int) -> Seq<char> {
    if n < 0 {
        seq!['-'] + nat_text((-n) as nat)
    } else {
        nat_text(n as nat)
    }
}

/// The decimal digits of `n`.
pub fn u64_digits(n: u64) -> (r: Vec<char>)
    ensures
        r@ == nat_text(n as nat),
    decreases n,
{
    let d = (n % 10) as u8;
    let c = (d + 48) as char;
    if n < 10 {
        let mut v: Vec<char> = Vec::new();
        v.push(c);
        v
    } else {
        let mut v = u64_digits(n / 10);
        v.push(c);
        v
    }
}

/// `n.to_string()` for a `u64`.
pub fn u64_text(n: u64) -> (r: String)
    ensures
        r@ == nat_text(n as nat),
{
    string_of(&u64_digits(n))
}

/// `n.to_string()` for an `i64`.
pub fn i64_text(n: i64) -> (r: String)
    ensures
        r@ == int_text(n as int),
{
    if n < 0 {
        let m: u64 = if n == i64::MIN {
            9223372036854775808
        } else {
            (-n) as u64
        };
        let mut v: Vec<char> = Vec::new();
        v.push('-');
        let d = u64_digits(m);
        extend_chars(&mut v, &d);
        string_of(&v)
    } else {
        u64_text(n as u64)
    }
}

/// The decimal digits of a `u128`.
pub fn u128_text(n: u128) -> (r: String)
    ensures
        r@ == nat_text(n as nat),
{
    string_of(&u128_digits(n))
}

fn u128_digits(n: u128) -> (r: Vec<char>)
    ensures
        r@ == nat_text(n as nat),
    decreases n,
{
    let d = (n % 10) as u8;
    let c = (d + 48) as char;
    if n < 10 {
        let mut v: Vec<char> = Vec::new();
        v.push(c);
        v
    } else {
        let mut v = u128_digits(n / 10);
        v.push(c);
        v
    }
}

/// `n.to_string()` for a `usize`.
pub fn usize_text(n: usize) -> (r: String)
    ensures
        r@ == nat_text(n as nat),
{
    u64_text(n as u64)
}

/// The characters of `s`, in order.
pub fn chars_of(s: &str) -> (v: Vec<char>)
    ensures
        v@ == s@,
{
    let mut v: Vec<char> = Vec::new();
    for c in it: s.chars()
        invariant
            v@ == it.seq().take(it.index() as int),
            it.seq() == s@,
    {
        v.push(c);
    }
    v
}

/// Appends one character to a string.
///
/// Trusted: calls `String::push`, whose documentation says it appends the
/// character to the end of the string.
#[verifier::external_body]
fn push_char(s: &mut String, c: char)
    ensures
        final(s)@ == old(s)@.push(c),
{
    s.push(c);
}

/// A string holding exactly the characters of `v`.
pub fn string_of(v: &Vec<char>) -> (s: String)
    ensures
        s@ == v@,
{
    let mut s = String::new();
    let mut i: usize = 0;
    while i < v.len()
        invariant
            i <= v.len(),
            s@ == v@.take(i as int),
        decreases v.len() - i,
    {
        push_char(&mut s, v[i]);
        assert(v@.take(i as int).push(v@[i as int]) =~= v@.take(i + 1));
        i = i + 1;
    }
    assert(v@.take(v.len() as int) =~= v@);
    s
}

/// A string holding exactly the characters of `s`.
pub fn owned(s: &str) -> (r: String)
    ensures
        r@ == s@,
{
    s.to_owned()
}

/// Where the first line break of `s` is (its length when there is none).
pub open spec fn break_at(s: Seq<char>) -> nat
    decreases s.len(),
{
    if s.len() == 0 || s[0] == '\n' {
        0
    } else {
        1 + break_at(s.drop_first())
    }
}

proof fn lemma_break_at_is(s: Seq<char>, j: int)
    requires
        0 <= j <= s.len(),
        forall|m: int| 0 <= m < j ==> (#[trigger] s[m]) != '\n',
        j == s.len() || s[j] == '\n',
    ensures
        break_at(s) == j,
    decreases s.len(),
{
    if s.len() > 0 && j > 0 {
        assert forall|m: int| 0 <= m < j - 1 implies (#[trigger] s.drop_first()[m]) != '\n' by {
            assert(s.drop_first()[m] == s[m + 1]);
        }
        lemma_break_at_is(s.drop_first(), j - 1);
    }
}

/// A line without the `\r` of a `\r\n` ending.
pub open spec fn strip_cr(s: Seq<char>) -> Seq<char> {
    if s.len() > 0 && s.last() == '\r' {
        s.drop_last()
    } else {
        s
    }
}

/// The lines of `s` as `str::lines` gives them: split at each `\n`, a `\r`
/// before it dropped, and no empty line after a final `\n`.
pub open spec fn text_lines(s: Seq<char>) -> Seq<Seq<char>>
    decreases s.len(),
{
    if s.len() == 0 {
        Seq::empty()
    } else {
        let k = break_at(s);
        if k >= s.len() {
            seq![s]
        } else {
            seq![strip_cr(s.take(k as int))] + text_lines(s.skip(k + 1 as int))
        }
    }
}

proof fn lemma_break_at_bounded(s: Seq<char>)
    ensures
        break_at(s) <= s.len(),
    decreases s.len(),
{
    if s.len() > 0 && s[0] != '\n' {
        lemma_break_at_bounded(s.drop_first());
    }
}

/// Splits text into lines as `str::lines` does.
pub fn split_lines(s: &Vec<char>) -> (r: Vec<Vec<char>>)
    ensures
        r@.map_values(|l: Vec<char>| l@) == text_lines(s@),
{
    let n = s.len();
    let mut r: Vec<Vec<char>> = Vec::new();
    let mut start: usize = 0;
    assert(s@.skip(0) =~= s@);
    assert(r@.map_values(|l: Vec<char>| l@) + text_lines(s@) =~= text_lines(s@));
    while start < n
        invariant
            n == s@.len(),
            start <= n,
            r@.map_values(|l: Vec<char>| l@) + text_lines(s@.skip(start as int)) == text_lines(s@),
        decreases n - start,
    {
        let ghost rest = s@.skip(start as int);
        let mut j: usize = start;
        while j < n && s[j] != '\n'
            invariant
                start <= j <= n == s@.len(),
                forall|m: int| start <= m < j ==> s@[m] != '\n',
            decreases n - j,
        {
            j = j + 1;
        }
        proof {
            assert forall|m: int| 0 <= m < j - start implies (#[trigger] rest[m]) != '\n' by {
                assert(rest[m] == s@[m + start]);
            }
            if j < n {
                assert(rest[j - start] == s@[j as int]);
            }
            lemma_break_at_is(rest, j - start);
        }
        let ghost before = r@.map_values(|l: Vec<char>| l@);
        if j == n {
            let piece = slice(s, start, n);
            assert(piece@ =~= rest);
            r.push(piece);
            assert(r@.map_values(|l: Vec<char>| l@) =~= before.push(rest));
            assert(s@.skip(n as int) =~= Seq::<char>::empty());
            assert(text_lines(rest) =~= seq![rest]);
            start = n;
        } else {
            let mut piece = slice(s, start, j);
            if piece.len() > 0 && piece[piece.len() - 1] == '\r' {
                piece.pop();
            }
            assert(piece@ =~= strip_cr(rest.take(j - start)));
            r.push(piece);
            assert(r@.map_values(|l: Vec<char>| l@) =~= before.push(strip_cr(rest.take(j - start))));
            assert(rest.skip(j - start + 1) =~= s@.skip(j + 1));
            assert(text_lines(rest) =~= seq![strip_cr(rest.take(j - start))] + text_lines(
                s@.skip(j + 1),
            ));
            start = j + 1;
        }
    }
    assert(s@.skip(n as int) =~= Seq::<char>::empty());
    assert(r@.map_values(|l: Vec<char>| l@) =~= text_lines(s@));
    r
}

} // verus!
