//! Indexing the repository into the graph: what a run reports.

use vstd::prelude::*;

use crate::graph::{glob_covers, glob_hit, OwnerKind};
use crate::config::{strs, RepomixConfig};
use crate::paths::{joined, path_join};
use crate::text::{int_text, nat_text, owned, push_str, push_string};
use crate::tools::{repomix_invocation, RepomixCmd, RepomixStatus};
use crate::text::{
    chars_of, contains, same, contains_chars, lead, lemma_lead_bounded, lemma_lead_is,
    slice, split_lines, split_words, starts_with, starts_with_chars, string_of, text_lines, trim,
    trim_chars, views, words, CharClass,
};

verus! {

/// What the repomix step of an index run did.
#[derive(Debug, Clone)]
pub struct RepomixReport {
    pub ran: bool,
    pub output_path: Option<String>,
    pub bytes: u64,
    pub mode: String,
    pub skipped_reason: Option<String>,
}

/// What the git-history step of an index run found.
#[derive(Debug, Clone)]
pub struct GitReport {
    pub commits_scanned: usize,
    pub files_touched: usize,
    pub buckets: usize,
}

/// What a full index run did.
#[derive(Debug, Clone)]
pub struct IndexReport {
    pub files_scanned: usize,
    pub commits_scanned: usize,
    pub codeowners_rules: usize,
    pub git_history_buckets: usize,
    pub team_doc_mentions: usize,
    pub repomix: RepomixReport,
}

/// A CODEOWNERS pattern in the glob dialect the graph matches with: a
/// leading `/` is dropped; `*` is any file anywhere; `*.ext` with no
/// directory is that extension anywhere; a trailing `/` is everything under
/// the directory.
pub open spec fn normalized(raw: Seq<char>) -> Seq<char> {
    let p = if raw.len() > 0 && raw[0] == '/' {
        raw.drop_first()
    } else {
        raw
    };
    if p == "*"@ {
        "**/*"@
    } else if !contains(p, "/"@) && starts_with(p, "*."@) {
        "**/"@ + p
    } else if p.len() > 0 && p.last() == '/' {
        p + "**"@
    } else {
        p
    }
}

/// Rewrites a CODEOWNERS pattern as a glob.
pub fn normalize_pattern(raw: &str) -> (r: String)
    ensures
        r@ == normalized(raw@),
{
    let v = chars_of(raw);
    let p = if v.len() > 0 && v[0] == '/' {
        slice(&v, 1, v.len())
    } else {
        v
    };
    assert(raw@.len() > 0 && raw@[0] == '/' ==> p@ =~= raw@.drop_first());
    if crate::text::same(&p, &chars_of("*")) {
        return string_of(&chars_of("**/*"));
    }
    if !contains_chars(&p, &chars_of("/")) && starts_with_chars(&p, &chars_of("*.")) {
        let mut out = chars_of("**/");
        crate::text::extend_chars(&mut out, &p);
        return string_of(&out);
    }
    if p.len() > 0 && p[p.len() - 1] == '/' {
        let mut out = p;
        out.push('*');
        out.push('*');
        proof {
            reveal_strlit("**");
        }
        assert(out@ =~= p@ + "**"@) by {
            reveal_strlit("**");
        }
        return string_of(&out);
    }
    string_of(&p)
}

/// One CODEOWNERS rule: its line number (from one), the normalized
/// pattern, and each owner with its kind.
#[derive(Debug, Clone)]
pub struct CodeownersRule {
    pub line: usize,
    pub pattern: String,
    pub owners: Vec<(OwnerKind, String)>,
}

/// An owner as written, without its leading `@`s, and its kind: a handle
/// with a `/` is a team.
pub open spec fn owner_entry(raw: Seq<char>) -> (OwnerKind, Seq<char>) {
    let h = raw.skip(lead(raw, CharClass::At) as int);
    (if contains(h, "/"@) {
        OwnerKind::Team
    } else {
        OwnerKind::Person
    }, h)
}

/// The rule on one line (numbered `n`), if the line holds one: not blank,
/// not a comment, and naming at least one owner after the pattern.
pub open spec fn rule_on(line: Seq<char>, n: nat) -> Option<(nat, Seq<char>, Seq<(OwnerKind, Seq<char>)>)> {
    let t = trim(line);
    let ws = words(t);
    if t.len() == 0 || t[0] == '#' || ws.len() < 2 {
        None
    } else {
        Some((n, normalized(ws[0]), ws.skip(1).map_values(|o: Seq<char>| owner_entry(o))))
    }
}

/// The rules of the given lines, in order.
pub open spec fn rules_of(ls: Seq<Seq<char>>) -> Seq<(nat, Seq<char>, Seq<(OwnerKind, Seq<char>)>)>
    decreases ls.len(),
{
    if ls.len() == 0 {
        Seq::empty()
    } else {
        let rest = rules_of(ls.drop_last());
        match rule_on(ls.last(), ls.len()) {
            Some(r) => rest.push(r),
            None => rest,
        }
    }
}

/// A rule as text.
pub open spec fn rule_view(r: CodeownersRule) -> (nat, Seq<char>, Seq<(OwnerKind, Seq<char>)>) {
    (r.line as nat, r.pattern@, r.owners@.map_values(|o: (OwnerKind, String)| (o.0, o.1@)))
}

/// Reads one owner.
fn owner_of(raw: &Vec<char>) -> (r: (OwnerKind, String))
    ensures
        (r.0, r.1@) == owner_entry(raw@),
{
    let mut a: usize = 0;
    while a < raw.len() && raw[a] == '@'
        invariant
            a <= raw@.len(),
            forall|j: int| 0 <= j < a ==> crate::text::in_class(CharClass::At, #[trigger] raw@[j]),
        decreases raw.len() - a,
    {
        a = a + 1;
    }
    proof {
        lemma_lead_is(raw@, CharClass::At, a as int);
    }
    let h = slice(raw, a, raw.len());
    assert(h@ =~= raw@.skip(a as int));
    let kind = if contains_chars(&h, &chars_of("/")) {
        OwnerKind::Team
    } else {
        OwnerKind::Person
    };
    (kind, string_of(&h))
}

/// Reads the rules of a CODEOWNERS file.
pub fn parse_codeowners(body: &str) -> (r: Vec<CodeownersRule>)
    ensures
        r@.map_values(|x: CodeownersRule| rule_view(x)) == rules_of(text_lines(body@)),
{
    let ls = split_lines(&chars_of(body));
    let ghost lv = ls@.map_values(|l: Vec<char>| l@);
    let mut out: Vec<CodeownersRule> = Vec::new();
    let mut i: usize = 0;
    while i < ls.len()
        invariant
            i <= ls@.len(),
            lv == ls@.map_values(|l: Vec<char>| l@),
            lv == text_lines(body@),
            out@.map_values(|x: CodeownersRule| rule_view(x)) == rules_of(lv.take(i as int)),
        decreases ls.len() - i,
    {
        assert(lv.take(i + 1).drop_last() =~= lv.take(i as int));
        assert(lv.take(i + 1).last() == ls@[i as int]@);
        let t = trim_chars(&ls[i], CharClass::Space);
        let ws = split_words(&t);
        if t.len() > 0 && t[0] != '#' && ws.len() >= 2 {
            let mut owners: Vec<(OwnerKind, String)> = Vec::new();
            let mut k: usize = 1;
            let ghost wv = views(ws@);
            while k < ws.len()
                invariant
                    1 <= k <= ws@.len(),
                    wv == views(ws@),
                    owners@.map_values(|o: (OwnerKind, String)| (o.0, o.1@)) == wv.skip(1).take(k - 1).map_values(
                        |o: Seq<char>| owner_entry(o),
                    ),
                decreases ws.len() - k,
            {
                let e = owner_of(&ws[k]);
                let ghost before = owners@.map_values(|o: (OwnerKind, String)| (o.0, o.1@));
                owners.push(e);
                assert(owners@.map_values(|o: (OwnerKind, String)| (o.0, o.1@)) =~= before.push(owner_entry(wv[k as int])));
                assert(wv.skip(1).take(k as int).map_values(|o: Seq<char>| owner_entry(o)) =~= wv.skip(1).take(
                    k - 1,
                ).map_values(|o: Seq<char>| owner_entry(o)).push(owner_entry(wv[k as int])));
                k = k + 1;
            }
            assert(wv.skip(1).take(ws.len() - 1) =~= wv.skip(1));
            let pattern = normalize_pattern(string_of(&ws[0]).as_str());
            let rule = CodeownersRule { line: i + 1, pattern, owners };
            let ghost before = out@.map_values(|x: CodeownersRule| rule_view(x));
            out.push(rule);
            assert(out@.map_values(|x: CodeownersRule| rule_view(x)) =~= before.push(rule_view(rule)));
        }
        i = i + 1;
    }
    assert(lv.take(ls.len() as int) =~= lv);
    out
}

/// Whether `path` matches any of the globs.
pub open spec fn matches_any(path: Seq<char>, patterns: Seq<Seq<char>>) -> bool {
    exists|i: int| 0 <= i < patterns.len() && glob_covers(#[trigger] patterns[i], path)
}

/// Whether the history walk skips `path`: it matches one of the
/// `[index].exclude` globs.
pub fn is_excluded(path: &str, patterns: &Vec<String>) -> (b: bool)
    ensures
        b == matches_any(path@, crate::config::strs(patterns@)),
{
    let ghost ps = crate::config::strs(patterns@);
    let mut i: usize = 0;
    while i < patterns.len()
        invariant
            i <= patterns@.len(),
            ps == crate::config::strs(patterns@),
            forall|k: int| 0 <= k < i ==> !glob_covers(#[trigger] ps[k], path@),
        decreases patterns.len() - i,
    {
        if glob_hit(patterns[i].as_str(), path) {
            assert(glob_covers(ps[i as int], path@));
            return true;
        }
        i = i + 1;
    }
    false
}

/// One commit as the history walk sees it: when it was made, its author's
/// address if it has one, and the paths its diff against its first parent
/// touched.
#[derive(Debug, Clone)]
pub struct CommitTouch {
    pub time_secs: i64,
    pub author_email: Option<String>,
    pub paths: Vec<String>,
}

/// How many times one author touched one file.
#[derive(Debug, Clone)]
pub struct Bucket {
    pub file: String,
    pub author: String,
    pub count: u32,
}

/// The tally of a history walk.
#[derive(Debug, Clone)]
pub struct HistoryTally {
    /// Commits inside the window.
    pub commits_scanned: usize,
    /// One entry per (file, author) pair, first seen first.
    pub buckets: Vec<Bucket>,
    /// One entry per file, first seen first, with how many touches it had.
    pub file_totals: Vec<(String, u32)>,
}

/// The author a commit is counted under: its address, or `(unknown)`.
pub open spec fn author_of(c: CommitTouch) -> Seq<char> {
    match c.author_email {
        Some(e) => e@,
        None => "(unknown)"@,
    }
}

/// The paths that are not excluded, each with the author.
pub open spec fn path_touches(ps: Seq<Seq<char>>, author: Seq<char>, exclude: Seq<Seq<char>>) -> Seq<(Seq<char>, Seq<char>)>
    decreases ps.len(),
{
    if ps.len() == 0 {
        Seq::empty()
    } else {
        path_touches(ps.drop_last(), author, exclude) + if matches_any(ps.last(), exclude) {
            Seq::empty()
        } else {
            seq![(ps.last(), author)]
        }
    }
}

/// The (file, author) touches of one commit that count: inside the window
/// and not excluded.
pub open spec fn commit_touches(c: CommitTouch, cutoff: i64, exclude: Seq<Seq<char>>) -> Seq<(Seq<char>, Seq<char>)> {
    if c.time_secs < cutoff {
        Seq::empty()
    } else {
        path_touches(crate::config::strs(c.paths@), author_of(c), exclude)
    }
}

/// Every touch that counts, commit by commit.
pub open spec fn all_touches(cs: Seq<CommitTouch>, cutoff: i64, exclude: Seq<Seq<char>>) -> Seq<(Seq<char>, Seq<char>)>
    decreases cs.len(),
{
    if cs.len() == 0 {
        Seq::empty()
    } else {
        all_touches(cs.drop_last(), cutoff, exclude) + commit_touches(cs.last(), cutoff, exclude)
    }
}

/// How many commits fall inside the window.
pub open spec fn in_window(cs: Seq<CommitTouch>, cutoff: i64) -> nat
    decreases cs.len(),
{
    if cs.len() == 0 {
        0
    } else {
        in_window(cs.drop_last(), cutoff) + if cs.last().time_secs >= cutoff {
            1nat
        } else {
            0nat
        }
    }
}

/// How many paths the commits list, all told.
pub open spec fn path_count(cs: Seq<CommitTouch>) -> nat
    decreases cs.len(),
{
    if cs.len() == 0 {
        0
    } else {
        path_count(cs.drop_last()) + cs.last().paths@.len()
    }
}

/// How many times `k` occurs in `s`.
pub open spec fn occurrences<K>(s: Seq<K>, k: K) -> nat
    decreases s.len(),
{
    if s.len() == 0 {
        0
    } else {
        occurrences(s.drop_last(), k) + if s.last() == k {
            1nat
        } else {
            0nat
        }
    }
}

/// `keys` names each distinct item of `s` once, and every item of `s`.
pub open spec fn distinct_cover<K>(keys: Seq<K>, s: Seq<K>) -> bool {
    &&& forall|i: int, j: int| 0 <= i < j < keys.len() ==> keys[i] != keys[j]
    &&& forall|k: int| 0 <= k < s.len() ==> keys.contains(#[trigger] s[k])
    &&& forall|i: int| 0 <= i < keys.len() ==> s.contains(#[trigger] keys[i])
}

proof fn lemma_occurrences_push<K>(s: Seq<K>, x: K, k: K)
    ensures
        occurrences(s.push(x), k) == occurrences(s, k) + if x == k {
            1nat
        } else {
            0nat
        },
{
    assert(s.push(x).drop_last() =~= s);
}

proof fn lemma_occurrences_le<K>(s: Seq<K>, k: K)
    ensures
        occurrences(s, k) <= s.len(),
    decreases s.len(),
{
    if s.len() > 0 {
        lemma_occurrences_le(s.drop_last(), k);
    }
}

proof fn lemma_occurrences_positive<K>(s: Seq<K>, k: K)
    requires
        s.contains(k),
    ensures
        occurrences(s, k) >= 1,
    decreases s.len(),
{
    if s.last() != k {
        let i = choose|i: int| 0 <= i < s.len() && s[i] == k;
        assert(s.drop_last()[i] == k);
        lemma_occurrences_positive(s.drop_last(), k);
    }
}

/// The bucket entries as plain values.
pub open spec fn bucket_keys(b: Seq<Bucket>) -> Seq<(Seq<char>, Seq<char>)> {
    b.map_values(|x: Bucket| (x.file@, x.author@))
}

/// The file entries as plain values.
pub open spec fn file_keys(f: Seq<(String, u32)>) -> Seq<Seq<char>> {
    f.map_values(|x: (String, u32)| x.0@)
}

/// The files of the touches.
pub open spec fn touch_files(t: Seq<(Seq<char>, Seq<char>)>) -> Seq<Seq<char>> {
    t.map_values(|x: (Seq<char>, Seq<char>)| x.0)
}

/// `buckets` is the per-(file, author) tally of `t`.
pub open spec fn bucket_tally(buckets: Seq<Bucket>, t: Seq<(Seq<char>, Seq<char>)>) -> bool {
    &&& distinct_cover(bucket_keys(buckets), t)
    &&& forall|i: int| 0 <= i < buckets.len() ==> (#[trigger] buckets[i]).count == occurrences(
        t,
        (buckets[i].file@, buckets[i].author@),
    )
}

/// `files` is the per-file tally of `f`.
pub open spec fn file_tally(files: Seq<(String, u32)>, f: Seq<Seq<char>>) -> bool {
    &&& distinct_cover(file_keys(files), f)
    &&& forall|i: int| 0 <= i < files.len() ==> (#[trigger] files[i]).1 == occurrences(f, files[i].0@)
}

proof fn lemma_occurrences_absent<K>(s: Seq<K>, k: K)
    requires
        !s.contains(k),
    ensures
        occurrences(s, k) == 0,
    decreases s.len(),
{
    if s.len() > 0 {
        assert(!s.drop_last().contains(k)) by {
            if s.drop_last().contains(k) {
                let i = choose|i: int| 0 <= i < s.drop_last().len() && s.drop_last()[i] == k;
                assert(s[i] == k);
            }
        }
        lemma_occurrences_absent(s.drop_last(), k);
    }
}

proof fn lemma_contains_push<K>(s: Seq<K>, x: K, y: K)
    ensures
        s.push(x).contains(y) <==> (s.contains(y) || x == y),
{
    if s.contains(y) {
        let i = choose|i: int| 0 <= i < s.len() && s[i] == y;
        assert(s.push(x)[i] == y);
    }
    if x == y {
        assert(s.push(x)[s.len() as int] == y);
    }
    if s.push(x).contains(y) {
        let i = choose|i: int| 0 <= i < s.push(x).len() && s.push(x)[i] == y;
        if i < s.len() {
            assert(s[i] == y);
        }
    }
}

/// Where the bucket of `file` and `author` is, if there is one.
fn find_bucket(bs: &Vec<Bucket>, file: &String, author: &String) -> (r: Option<usize>)
    ensures
        r matches Some(i) ==> i < bs@.len() && bucket_keys(bs@)[i as int] == (file@, author@),
        r is None ==> forall|m: int| 0 <= m < bs@.len() ==> bucket_keys(bs@)[m] != (file@, author@),
{
    let mut i: usize = 0;
    while i < bs.len()
        invariant
            i <= bs@.len(),
            forall|m: int| 0 <= m < i ==> bucket_keys(bs@)[m] != (file@, author@),
        decreases bs.len() - i,
    {
        if bs[i].file == *file && bs[i].author == *author {
            return Some(i);
        }
        i = i + 1;
    }
    None
}

/// Where the entry of `file` is, if there is one.
fn find_file(fs: &Vec<(String, u32)>, file: &String) -> (r: Option<usize>)
    ensures
        r matches Some(i) ==> i < fs@.len() && file_keys(fs@)[i as int] == file@,
        r is None ==> forall|m: int| 0 <= m < fs@.len() ==> file_keys(fs@)[m] != file@,
{
    let mut i: usize = 0;
    while i < fs.len()
        invariant
            i <= fs@.len(),
            forall|m: int| 0 <= m < i ==> file_keys(fs@)[m] != file@,
        decreases fs.len() - i,
    {
        if fs[i].0 == *file {
            return Some(i);
        }
        i = i + 1;
    }
    None
}

/// Counts one touch of `file` by `author` in the bucket tally.
#[verifier::spinoff_prover]
fn bump_bucket(buckets: &mut Vec<Bucket>, file: &String, author: &String, Ghost(t): Ghost<Seq<(Seq<char>, Seq<char>)>>)
    requires
        bucket_tally(old(buckets)@, t),
        t.len() < u32::MAX,
    ensures
        bucket_tally(final(buckets)@, t.push((file@, author@))),
{
    let ghost t2 = t.push((file@, author@));
    let ghost k = (file@, author@);
    let ghost b0 = buckets@;
    let ghost bk0 = bucket_keys(b0);
    let found = find_bucket(buckets, file, author);
    let i: usize = match found {
        Some(j) => j,
        None => buckets.len(),
    };
    proof {
        assert forall|y: (Seq<char>, Seq<char>)| #![auto] t2.contains(y) <==> (t.contains(y) || k == y) by {
            lemma_contains_push(t, k, y);
        }
        assert forall|y: (Seq<char>, Seq<char>)| #![auto] occurrences(t2, y) == occurrences(t, y) + if k == y {
            1nat
        } else {
            0nat
        } by {
            lemma_occurrences_push(t, k, y);
        }
    }
    if i < buckets.len() {
        assert(bk0[i as int] == k);
        let old_b = buckets.remove(i);
        proof {
            lemma_occurrences_le(t, k);
        }
        let nb = Bucket { file: old_b.file, author: old_b.author, count: old_b.count + 1 };
        buckets.insert(i, nb);
        assert(buckets@ =~= b0.update(i as int, nb));
        assert(bucket_keys(buckets@) =~= bk0);
        assert forall|m: int| 0 <= m < bk0.len() implies t2.contains(#[trigger] bk0[m]) by {
            assert(t.contains(bk0[m]));
        }
        assert forall|q: int| 0 <= q < t2.len() implies bk0.contains(#[trigger] t2[q]) by {
            if q < t.len() {
                assert(t2[q] == t[q]);
            } else {
                assert(bk0[i as int] == t2[q]);
            }
        }
        assert forall|m: int| 0 <= m < buckets@.len() implies (#[trigger] buckets@[m]).count
            == occurrences(t2, (buckets@[m].file@, buckets@[m].author@)) by {
            if m != i {
                assert(buckets@[m] == b0[m]);
                assert(bk0[m] != bk0[i as int]);
            }
        }
    } else {
        proof {
            assert(!t.contains(k)) by {
                if t.contains(k) {
                    let q = choose|q: int| 0 <= q < t.len() && t[q] == k;
                    assert(bk0.contains(t[q]));
                }
            }
            lemma_occurrences_absent(t, k);
        }
        let nb = Bucket { file: file.clone(), author: author.clone(), count: 1 };
        buckets.push(nb);
        assert(bucket_keys(buckets@) =~= bk0.push(k));
        let ghost bk = bucket_keys(buckets@);
        assert forall|m: int| 0 <= m < bk.len() implies t2.contains(#[trigger] bk[m]) by {
            if m < bk0.len() {
                assert(t.contains(bk0[m]));
            } else {
                assert(t2[t.len() as int] == bk[m]);
            }
        }
        assert forall|q: int| 0 <= q < t2.len() implies bk.contains(#[trigger] t2[q]) by {
            if q < t.len() {
                assert(t2[q] == t[q]);
                let m = choose|m: int| 0 <= m < bk0.len() && bk0[m] == t[q];
                assert(bk[m] == bk0[m]);
            } else {
                assert(bk[bk0.len() as int] == t2[q]);
            }
        }
        assert forall|m: int| 0 <= m < buckets@.len() implies (#[trigger] buckets@[m]).count
            == occurrences(t2, (buckets@[m].file@, buckets@[m].author@)) by {
            if m < b0.len() {
                assert(buckets@[m] == b0[m]);
                assert(bk0[m] != k);
            }
        }
    }
}

/// Counts one touch of `file` in the per-file tally.
#[verifier::spinoff_prover]
fn bump_file(files: &mut Vec<(String, u32)>, file: &String, Ghost(f): Ghost<Seq<Seq<char>>>)
    requires
        file_tally(old(files)@, f),
        f.len() < u32::MAX,
    ensures
        file_tally(final(files)@, f.push(file@)),
{
    let ghost f2 = f.push(file@);
    let ghost k = file@;
    let ghost v0 = files@;
    let ghost fk0 = file_keys(v0);
    let found = find_file(files, file);
    let i: usize = match found {
        Some(j) => j,
        None => files.len(),
    };
    proof {
        assert forall|y: Seq<char>| #![auto] f2.contains(y) <==> (f.contains(y) || k == y) by {
            lemma_contains_push(f, k, y);
        }
        assert forall|y: Seq<char>| #![auto] occurrences(f2, y) == occurrences(f, y) + if k == y {
            1nat
        } else {
            0nat
        } by {
            lemma_occurrences_push(f, k, y);
        }
    }
    if i < files.len() {
        assert(fk0[i as int] == k);
        let (name, n) = files.remove(i);
        proof {
            lemma_occurrences_le(f, k);
        }
        files.insert(i, (name, n + 1));
        assert(file_keys(files@) =~= fk0);
        assert forall|m: int| 0 <= m < fk0.len() implies f2.contains(#[trigger] fk0[m]) by {
            assert(f.contains(fk0[m]));
        }
        assert forall|q: int| 0 <= q < f2.len() implies fk0.contains(#[trigger] f2[q]) by {
            if q < f.len() {
                assert(f2[q] == f[q]);
            } else {
                assert(fk0[i as int] == f2[q]);
            }
        }
        assert forall|m: int| 0 <= m < files@.len() implies (#[trigger] files@[m]).1 == occurrences(
            f2,
            files@[m].0@,
        ) by {
            if m != i {
                assert(files@[m] == v0[m]);
                assert(fk0[m] != fk0[i as int]);
            }
        }
    } else {
        proof {
            assert(!f.contains(k)) by {
                if f.contains(k) {
                    let q = choose|q: int| 0 <= q < f.len() && f[q] == k;
                    assert(fk0.contains(f[q]));
                }
            }
            lemma_occurrences_absent(f, k);
        }
        files.push((file.clone(), 1));
        assert(file_keys(files@) =~= fk0.push(k));
        let ghost fk = file_keys(files@);
        assert forall|m: int| 0 <= m < fk.len() implies f2.contains(#[trigger] fk[m]) by {
            if m < fk0.len() {
                assert(f.contains(fk0[m]));
            } else {
                assert(f2[f.len() as int] == fk[m]);
            }
        }
        assert forall|q: int| 0 <= q < f2.len() implies fk.contains(#[trigger] f2[q]) by {
            if q < f.len() {
                assert(f2[q] == f[q]);
                let m = choose|m: int| 0 <= m < fk0.len() && fk0[m] == f[q];
                assert(fk[m] == fk0[m]);
            } else {
                assert(fk[fk0.len() as int] == f2[q]);
            }
        }
        assert forall|m: int| 0 <= m < files@.len() implies (#[trigger] files@[m]).1 == occurrences(
            f2,
            files@[m].0@,
        ) by {
            if m < v0.len() {
                assert(files@[m] == v0[m]);
                assert(fk0[m] != k);
            }
        }
    }
}

proof fn lemma_path_touches_len(ps: Seq<Seq<char>>, author: Seq<char>, exclude: Seq<Seq<char>>)
    ensures
        path_touches(ps, author, exclude).len() <= ps.len(),
    decreases ps.len(),
{
    if ps.len() > 0 {
        lemma_path_touches_len(ps.drop_last(), author, exclude);
    }
}

proof fn lemma_touches_len(cs: Seq<CommitTouch>, cutoff: i64, exclude: Seq<Seq<char>>)
    ensures
        all_touches(cs, cutoff, exclude).len() <= path_count(cs),
    decreases cs.len(),
{
    if cs.len() > 0 {
        lemma_touches_len(cs.drop_last(), cutoff, exclude);
        let c = cs.last();
        if c.time_secs >= cutoff {
            lemma_path_touches_len(crate::config::strs(c.paths@), author_of(c), exclude);
        }
    }
}

/// Tallies a history walk: the commits inside the window (made at or after
/// `cutoff_secs`), and for every path they touched that is not excluded,
/// one count for its (file, author) pair and one for the file. A commit
/// without an author's address counts as `(unknown)`.
pub fn tally_history(commits: &Vec<CommitTouch>, cutoff_secs: i64, exclude: &Vec<String>) -> (r:
    HistoryTally)
    requires
        path_count(commits@) < u32::MAX,
    ensures
        r.commits_scanned == in_window(commits@, cutoff_secs),
        bucket_tally(r.buckets@, all_touches(commits@, cutoff_secs, crate::config::strs(exclude@))),
        file_tally(
            r.file_totals@,
            touch_files(all_touches(commits@, cutoff_secs, crate::config::strs(exclude@))),
        ),
{
    let ghost ex = crate::config::strs(exclude@);
    let mut buckets: Vec<Bucket> = Vec::new();
    let mut files: Vec<(String, u32)> = Vec::new();
    let mut scanned: usize = 0;
    let mut i: usize = 0;
    proof {
        assert(bucket_keys(buckets@) =~= Seq::<(Seq<char>, Seq<char>)>::empty());
        assert(file_keys(files@) =~= Seq::<Seq<char>>::empty());
        assert(touch_files(Seq::<(Seq<char>, Seq<char>)>::empty()) =~= Seq::<Seq<char>>::empty());
    }
    while i < commits.len()
        invariant
            i <= commits@.len(),
            ex == crate::config::strs(exclude@),
            path_count(commits@) < u32::MAX,
            scanned == in_window(commits@.take(i as int), cutoff_secs),
            scanned <= i,
            bucket_tally(buckets@, all_touches(commits@.take(i as int), cutoff_secs, ex)),
            file_tally(files@, touch_files(all_touches(commits@.take(i as int), cutoff_secs, ex))),
        decreases commits.len() - i,
    {
        let c = &commits[i];
        let ghost pre = commits@.take(i as int);
        assert(commits@.take(i + 1).drop_last() =~= pre);
        assert(commits@.take(i + 1).last() == *c);
        let ghost base = all_touches(pre, cutoff_secs, ex);
        proof {
            lemma_touches_len(commits@.take(i + 1), cutoff_secs, ex);
            lemma_path_count_prefix(commits@, i + 1);
        }
        if c.time_secs >= cutoff_secs {
            scanned = scanned + 1;
            let author: String = match &c.author_email {
                Some(e) => e.clone(),
                None => crate::text::owned("(unknown)"),
            };
            assert(author@ == author_of(*c));
            let ghost ps = crate::config::strs(c.paths@);
            let mut k: usize = 0;
            assert(ps.take(0) =~= Seq::<Seq<char>>::empty());
            while k < c.paths.len()
                invariant
                    k <= c.paths@.len(),
                    ps == crate::config::strs(c.paths@),
                    ex == crate::config::strs(exclude@),
                    author@ == author_of(*c),
                    (base + path_touches(ps, author@, ex)).len() < u32::MAX,
                    bucket_tally(buckets@, base + path_touches(ps.take(k as int), author@, ex)),
                    file_tally(files@, touch_files(base + path_touches(ps.take(k as int), author@, ex))),
                decreases c.paths.len() - k,
            {
                let p = &c.paths[k];
                assert(ps.take(k + 1).drop_last() =~= ps.take(k as int));
                assert(ps.take(k + 1).last() == p@);
                let ghost cur = base + path_touches(ps.take(k as int), author@, ex);
                proof {
                    lemma_path_touches_prefix(ps, author@, ex, k + 1);
                }
                if !is_excluded(p.as_str(), exclude) {
                    bump_bucket(&mut buckets, p, &author, Ghost(cur));
                    bump_file(&mut files, p, Ghost(touch_files(cur)));
                    assert(cur.push((p@, author@)) =~= base + path_touches(ps.take(k + 1), author@, ex));
                    assert(touch_files(cur).push(p@) =~= touch_files(cur.push((p@, author@))));
                } else {
                    assert(cur =~= base + path_touches(ps.take(k + 1), author@, ex));
                }
                k = k + 1;
            }
            assert(ps.take(c.paths.len() as int) =~= ps);
        } else {
            assert(all_touches(commits@.take(i + 1), cutoff_secs, ex) =~= base);
        }
        i = i + 1;
    }
    assert(commits@.take(commits.len() as int) =~= commits@);
    HistoryTally { commits_scanned: scanned, buckets, file_totals: files }
}

proof fn lemma_path_count_prefix(cs: Seq<CommitTouch>, n: int)
    requires
        0 <= n <= cs.len(),
    ensures
        path_count(cs.take(n)) <= path_count(cs),
    decreases cs.len(),
{
    if n < cs.len() {
        assert(cs.drop_last().take(n) =~= cs.take(n));
        lemma_path_count_prefix(cs.drop_last(), n);
    } else {
        assert(cs.take(n) =~= cs);
    }
}

proof fn lemma_path_touches_prefix(ps: Seq<Seq<char>>, author: Seq<char>, exclude: Seq<Seq<char>>, n: int)
    requires
        0 <= n <= ps.len(),
    ensures
        path_touches(ps.take(n), author, exclude).len() <= path_touches(ps, author, exclude).len(),
    decreases ps.len(),
{
    if n < ps.len() {
        assert(ps.drop_last().take(n) =~= ps.take(n));
        lemma_path_touches_prefix(ps.drop_last(), author, exclude, n);
    } else {
        assert(ps.take(n) =~= ps);
    }
}

/// The evidence an ownership row from history carries.
pub open spec fn history_evidence(count: u32, total: u32, days: u32) -> Seq<char> {
    nat_text(count as nat) + " of "@ + nat_text(total as nat) + " commits in last "@ + nat_text(
        days as nat,
    ) + "d"@
}

/// `{count} of {total} commits in last {days}d`.
pub fn history_evidence_text(count: u32, total: u32, days: u32) -> (r: String)
    ensures
        r@ == history_evidence(count, total, days),
{
    let mut v: Vec<char> = Vec::new();
    crate::text::push_string(&mut v, &crate::text::u64_text(count as u64));
    crate::text::push_str(&mut v, " of ");
    crate::text::push_string(&mut v, &crate::text::u64_text(total as u64));
    crate::text::push_str(&mut v, " commits in last ");
    crate::text::push_string(&mut v, &crate::text::u64_text(days as u64));
    crate::text::push_str(&mut v, "d");
    string_of(&v)
}

/// The report of a history walk: commits scanned, files touched, and one
/// bucket per (file, author) pair written.
pub fn git_report(t: &HistoryTally) -> (r: GitReport)
    ensures
        r.commits_scanned == t.commits_scanned,
        r.files_touched == t.file_totals@.len(),
        r.buckets == t.buckets@.len(),
{
    GitReport { commits_scanned: t.commits_scanned, files_touched: t.file_totals.len(), buckets: t.buckets.len() }
}

/// The report of a repomix step that was switched off.
pub open spec fn disabled_report(r: RepomixReport) -> bool {
    &&& !r.ran
    &&& r.output_path is None
    &&& r.bytes == 0
    &&& r.mode@ == "disabled"@
    &&& r.skipped_reason matches Some(s) && s@ == "[index.repomix].enabled = false"@
}

/// The report of a repomix step with nothing to run.
pub open spec fn missing_report(r: RepomixReport) -> bool {
    &&& !r.ran
    &&& r.output_path is None
    &&& r.bytes == 0
    &&& r.mode@ == "missing"@
    &&& r.skipped_reason matches Some(s) && s@
        == "repomix not on PATH and npx unavailable; run `glide tools install repomix`"@
}

/// The report when the repomix step is switched off, if it is.
pub fn repomix_skip(cfg: &RepomixConfig) -> (r: Option<RepomixReport>)
    ensures
        cfg.enabled ==> r is None,
        !cfg.enabled ==> (r matches Some(rep) && disabled_report(rep)),
{
    if cfg.enabled {
        return None;
    }
    Some(RepomixReport {
        ran: false,
        output_path: None,
        bytes: 0,
        mode: owned("disabled"),
        skipped_reason: Some(owned("[index.repomix].enabled = false")),
    })
}

/// Whether to try a global install first: repomix is not available and
/// the configuration allows installing it.
pub fn should_install(status: &RepomixStatus, cfg: &RepomixConfig) -> (b: bool)
    ensures
        b == (!status.available && cfg.auto_install),
{
    !status.available && cfg.auto_install
}

/// The report when there is no way to run repomix.
pub fn repomix_missing() -> (r: RepomixReport)
    ensures
        missing_report(r),
{
    RepomixReport {
        ran: false,
        output_path: None,
        bytes: 0,
        mode: owned("missing"),
        skipped_reason: Some(
            owned("repomix not on PATH and npx unavailable; run `glide tools install repomix`"),
        ),
    }
}

/// The arguments of a repomix run, after the invocation's own: compress,
/// the style, the output file, then any extra arguments.
pub open spec fn repomix_args(style: Seq<char>, out: Seq<char>, extra: Seq<Seq<char>>) -> Seq<Seq<char>> {
    seq!["--compress"@, "--style"@, style, "-o"@, out] + extra
}

/// The full command line of a repomix run: the program, every argument, and
/// where the output goes (the configured path, under the repository unless
/// absolute).
pub fn repomix_command(cmd: &RepomixCmd, cfg: &RepomixConfig, repo_root: &str) -> (r: (String, Vec<String>, String))
    ensures
        r.2@ == joined(repo_root@, cfg.output@),
        *cmd == RepomixCmd::Global ==> r.0@ == "repomix"@ && strs(r.1@) == repomix_args(
            cfg.style@,
            r.2@,
            strs(cfg.extra_args@),
        ),
        *cmd == RepomixCmd::Npx ==> r.0@ == "npx"@ && strs(r.1@) == seq!["--yes"@, "repomix"@]
            + repomix_args(cfg.style@, r.2@, strs(cfg.extra_args@)),
{
    let out = path_join(repo_root, cfg.output.as_str());
    let (program, mut args) = repomix_invocation(cmd);
    let ghost head = strs(args@);
    crate::config::push_owned(&mut args, "--compress");
    crate::config::push_owned(&mut args, "--style");
    let ghost h2 = strs(args@);
    args.push(cfg.style.clone());
    assert(strs(args@) =~= h2.push(cfg.style@));
    crate::config::push_owned(&mut args, "-o");
    let ghost h3 = strs(args@);
    args.push(out.clone());
    assert(strs(args@) =~= h3.push(out@));
    let ghost h4 = strs(args@);
    let mut i: usize = 0;
    while i < cfg.extra_args.len()
        invariant
            i <= cfg.extra_args@.len(),
            strs(args@) == h4 + strs(cfg.extra_args@.take(i as int)),
        decreases cfg.extra_args.len() - i,
    {
        let ghost b = strs(args@);
        args.push(cfg.extra_args[i].clone());
        assert(strs(args@) =~= b.push(cfg.extra_args@[i as int]@));
        assert(strs(cfg.extra_args@.take(i + 1)) =~= strs(cfg.extra_args@.take(i as int)).push(
            cfg.extra_args@[i as int]@,
        ));
        i = i + 1;
    }
    assert(cfg.extra_args@.take(cfg.extra_args.len() as int) =~= cfg.extra_args@);
    proof {
        if *cmd == RepomixCmd::Global {
            assert(head =~= Seq::<Seq<char>>::empty());
        } else {
            assert(head =~= seq!["--yes"@, "repomix"@]);
        }
        assert(strs(args@) =~= head + repomix_args(cfg.style@, out@, strs(cfg.extra_args@)));
    }
    (program, args, out)
}

/// The report of a repomix run that finished.
pub fn repomix_ran(cmd: &RepomixCmd, out_abs: String, bytes: u64) -> (r: RepomixReport)
    ensures
        r.ran,
        r.output_path == Some(out_abs),
        r.bytes == bytes,
        r.mode@ == crate::verbs::doctor::mode_name(Some(*cmd)),
        r.skipped_reason is None,
{
    let mode = match cmd {
        RepomixCmd::Global => owned("global"),
        RepomixCmd::Npx => owned("npx"),
    };
    RepomixReport { ran: true, output_path: Some(out_abs), bytes, mode, skipped_reason: None }
}

/// `Option<i32>` as `{:?}` writes it.
pub open spec fn debug_code(code: Option<i32>) -> Seq<char> {
    match code {
        Some(c) => "Some("@ + int_text(c as int) + ")"@,
        None => "None"@,
    }
}

/// Why a repomix run failed: its exit code and what it printed on stderr.
pub fn repomix_failure(code: Option<i32>, stderr: &str) -> (r: String)
    ensures
        r@ == "repomix exited "@ + debug_code(code) + ": "@ + crate::text::trim(stderr@),
{
    let mut v: Vec<char> = Vec::new();
    push_str(&mut v, "repomix exited ");
    match code {
        Some(c) => {
            push_str(&mut v, "Some(");
            push_string(&mut v, &crate::text::i64_text(c as i64));
            push_str(&mut v, ")");
        },
        None => push_str(&mut v, "None"),
    }
    push_str(&mut v, ": ");
    let t = crate::text::trim_chars(&chars_of(stderr), CharClass::Space);
    crate::text::extend_chars(&mut v, &t);
    string_of(&v)
}

/// The ownership a team document states, as `(team, path pattern)` pairs
/// in the order they appear.
pub fn doc_mentions(body: &str) -> (r: Vec<(String, String)>)
    ensures
        r@.map_values(|p: (String, String)| (p.0@, p.1@)) == crate::mentions::mentions_from(body@, 0),
{
    crate::mentions::team_mentions(body)
}

/// Whether a file (by its path under the repository) is a team document:
/// it matches one of the `[index].team_doc_globs`.
pub fn is_team_doc(rel: &str, globs: &Vec<String>) -> (b: bool)
    ensures
        b == matches_any(rel@, strs(globs@)),
{
    is_excluded(rel, globs)
}

/// How many touches the file had in a tally of totals: the count of its
/// first entry, or 1 when it has none (so a weight never divides by zero).
pub open spec fn total_for(fs: Seq<(String, u32)>, file: Seq<char>) -> u32
    decreases fs.len(),
{
    if fs.len() == 0 {
        1
    } else if fs[0].0@ == file {
        fs[0].1
    } else {
        total_for(fs.drop_first(), file)
    }
}

/// The total a bucket's weight is taken against.
pub fn file_total(fs: &Vec<(String, u32)>, file: &str) -> (r: u32)
    ensures
        r == total_for(fs@, file@),
{
    let f = chars_of(file);
    let mut i: usize = 0;
    assert(fs@.skip(0) =~= fs@);
    while i < fs.len()
        invariant
            i <= fs@.len(),
            f@ == file@,
            total_for(fs@, file@) == total_for(fs@.skip(i as int), file@),
        decreases fs.len() - i,
    {
        let ghost rest = fs@.skip(i as int);
        assert(rest[0] == fs@[i as int]);
        assert(rest.drop_first() =~= fs@.skip(i + 1));
        if same(&chars_of(fs[i].0.as_str()), &f) {
            return fs[i].1;
        }
        i = i + 1;
    }
    1
}

} // verus!
