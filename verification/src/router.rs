//! One-shot router: `glide -p "<question>"` runs this to pick a verb. A
//! keyword router over the lower-cased question.

use vstd::prelude::*;

use crate::text::{
    ascii_lower, ascii_lower_chars, chars_of, contains, contains_chars, find, find_chars,
    occurs_at, owned, slice, starts_with, starts_with_chars, string_of, trim, trim_chars,
    trim_class, CharClass, lead, trail, lemma_find_from, lemma_lead_facts, lemma_trail_facts,
};

verus! {

/// Where a question goes.
#[derive(Debug, Clone, PartialEq, Eq)]
pub enum RouteDecision {
    WhoOwns { query: String },
    Plan { person: String },
    Request { permission: String },
    FrictionDigest,
    Unrouted { reason: String },
}

/// What a `RouteDecision` says, with its strings as character sequences.
pub enum RouteSpec {
    WhoOwns { query: Seq<char> },
    Plan { person: Seq<char> },
    Request { permission: Seq<char> },
    FrictionDigest,
    Unrouted { reason: Seq<char> },
}

impl View for RouteDecision {
    type V = RouteSpec;

    open spec fn view(&self) -> RouteSpec {
        match self {
            RouteDecision::WhoOwns { query } => RouteSpec::WhoOwns { query: query@ },
            RouteDecision::Plan { person } => RouteSpec::Plan { person: person@ },
            RouteDecision::Request { permission } => RouteSpec::Request {
                permission: permission@,
            },
            RouteDecision::FrictionDigest => RouteSpec::FrictionDigest,
            RouteDecision::Unrouted { reason } => RouteSpec::Unrouted { reason: reason@ },
        }
    }
}

/// `str::split_once(pat).map(|x| x.1)`: what follows the first `pat`.
pub open spec fn after_first(s: Seq<char>, pat: Seq<char>) -> Option<Seq<char>> {
    match find(s, pat) {
        Some(i) => Some(s.skip(i + pat.len())),
        None => None,
    }
}

/// The path of an ownership question: what follows the first `owns` (or,
/// failing that, `owner of`), trimmed of spaces and of `?`/`.` at its ends;
/// the whole question when neither occurs.
pub open spec fn who_owns_query(p: Seq<char>) -> Seq<char> {
    let tail = match after_first(p, "owns"@) {
        Some(t) => Some(t),
        None => after_first(p, "owner of"@),
    };
    match tail {
        Some(t) => trim_class(trim(t), CharClass::QuestionEnd),
        None => p,
    }
}

/// The person of a plan question: what follows the first `for`, trimmed.
pub open spec fn plan_person(p: Seq<char>) -> Seq<char> {
    match after_first(p, "for"@) {
        Some(t) => trim(t),
        None => "(unspecified)"@,
    }
}

/// What follows the first lead-in (`access to`, `permission for`,
/// `permissions for`, tried in that order) in the lower-cased question;
/// the whole question when none occurs.
pub open spec fn permission_tail(p: Seq<char>) -> Seq<char> {
    let lower = ascii_lower(p);
    if contains(lower, "access to"@) {
        p.skip(find(lower, "access to"@)->0 + "access to"@.len())
    } else if contains(lower, "permission for"@) {
        p.skip(find(lower, "permission for"@)->0 + "permission for"@.len())
    } else if contains(lower, "permissions for"@) {
        p.skip(find(lower, "permissions for"@)->0 + "permissions for"@.len())
    } else {
        p
    }
}

/// The thing asked for: the tail after the lead-in, trimmed of spaces and of
/// `?`, `.` and backticks at its ends, without a leading `the ` or `a `; the
/// trimmed question when that leaves nothing.
pub open spec fn permission_of(p: Seq<char>) -> Seq<char> {
    let cleaned = trim_class(trim(permission_tail(p)), CharClass::QuestionEndOrTick);
    let cleaned = if starts_with(cleaned, "the "@) {
        cleaned.skip("the "@.len() as int)
    } else if starts_with(cleaned, "a "@) {
        cleaned.skip("a "@.len() as int)
    } else {
        cleaned
    };
    if cleaned.len() == 0 {
        trim(p)
    } else {
        cleaned
    }
}

/// The reason given when no verb matches.
pub open spec fn unrouted_reason() -> Seq<char> {
    "no verb matched; v2 will route via LLM when [llm].enabled = true"@
}

/// Whether the lower-cased question asks who owns something.
pub open spec fn asks_owner(lower: Seq<char>) -> bool {
    starts_with(lower, "who owns"@) || contains(lower, "ownership"@) || contains(
        lower,
        "owner of"@,
    )
}

/// Whether the lower-cased question asks for a day-1 plan.
pub open spec fn asks_plan(lower: Seq<char>) -> bool {
    starts_with(lower, "plan for"@) || contains(lower, "day-1 plan"@) || contains(
        lower,
        "day 1 plan"@,
    )
}

/// Whether the lower-cased question asks for access.
pub open spec fn asks_access(lower: Seq<char>) -> bool {
    contains(lower, "access to"@) || contains(lower, "request access"@) || contains(
        lower,
        "permission"@,
    )
}

/// Whether the lower-cased question asks for the friction digest.
pub open spec fn asks_digest(lower: Seq<char>) -> bool {
    contains(lower, "friction"@) || contains(lower, "digest"@)
}

/// The route of a question: ownership, then plans, then access, then the
/// digest, each recognised by keywords in the lower-cased question.
pub open spec fn route_spec(p: Seq<char>) -> RouteSpec {
    let lower = ascii_lower(p);
    if asks_owner(lower) {
        RouteSpec::WhoOwns { query: who_owns_query(p) }
    } else if asks_plan(lower) {
        RouteSpec::Plan { person: plan_person(p) }
    } else if asks_access(lower) {
        RouteSpec::Request { permission: permission_of(p) }
    } else if asks_digest(lower) {
        RouteSpec::FrictionDigest
    } else {
        RouteSpec::Unrouted { reason: unrouted_reason() }
    }
}

/// `split_once(pat).map(|x| x.1)` over characters.
fn after_first_chars(s: &Vec<char>, pat: &str) -> (r: Option<Vec<char>>)
    ensures
        match r {
            Some(t) => after_first(s@, pat@) == Some(t@),
            None => after_first(s@, pat@) is None,
        },
{
    let p = chars_of(pat);
    match find_chars(s, &p) {
        Some(i) => {
            proof {
                crate::text::lemma_find_from(s@, p@, 0);
                assert(occurs_at(s@, p@, i as int));
                assert(i + p@.len() <= s@.len());
            }
            assert(i + p.len() <= s.len());
            let t = slice(s, i + p.len(), s.len());
            assert(t@ =~= s@.skip(i + p@.len()));
            Some(t)
        },
        None => None,
    }
}

fn who_owns_query_chars(p: &Vec<char>) -> (r: Vec<char>)
    ensures
        r@ == who_owns_query(p@),
{
    let tail = match after_first_chars(p, "owns") {
        Some(t) => Some(t),
        None => after_first_chars(p, "owner of"),
    };
    match tail {
        Some(t) => {
            let t = trim_chars(&t, CharClass::Space);
            trim_chars(&t, CharClass::QuestionEnd)
        },
        None => slice(p, 0, p.len()),
    }
}

fn plan_person_chars(p: &Vec<char>) -> (r: Vec<char>)
    ensures
        r@ == plan_person(p@),
{
    match after_first_chars(p, "for") {
        Some(t) => trim_chars(&t, CharClass::Space),
        None => chars_of("(unspecified)"),
    }
}

/// What follows `marker` in `p`, when `marker` occurs in `lower`, the
/// lower-cased `p`.
fn tail_after(p: &Vec<char>, lower: &Vec<char>, marker: &str) -> (r: Option<Vec<char>>)
    requires
        lower@ == ascii_lower(p@),
    ensures
        match r {
            Some(t) => contains(lower@, marker@) && t@ == p@.skip(
                find(lower@, marker@)->0 + marker@.len(),
            ),
            None => !contains(lower@, marker@),
        },
{
    let m = chars_of(marker);
    match find_chars(lower, &m) {
        Some(i) => {
            proof {
                crate::text::lemma_find_from(lower@, m@, 0);
                assert(occurs_at(lower@, m@, i as int));
                assert(lower@.len() == p@.len());
                assert(i + m@.len() <= p@.len());
            }
            assert(i + m.len() <= p.len());
            let t = slice(p, i + m.len(), p.len());
            assert(t@ =~= p@.skip(i + m@.len()));
            Some(t)
        },
        None => None,
    }
}

/// Pull the thing being asked for out of the sentence, so "i need access to
/// pomelo" requests `pomelo` and not the whole sentence.
fn extract_permission(p: &Vec<char>) -> (r: Vec<char>)
    ensures
        r@ == permission_of(p@),
{
    let lower = ascii_lower_chars(p);
    let tail = match tail_after(p, &lower, "access to") {
        Some(t) => t,
        None => match tail_after(p, &lower, "permission for") {
            Some(t) => t,
            None => match tail_after(p, &lower, "permissions for") {
                Some(t) => t,
                None => slice(p, 0, p.len()),
            },
        },
    };
    assert(p@.subrange(0, p@.len() as int) =~= p@);
    let t = trim_chars(&tail, CharClass::Space);
    let cleaned = trim_chars(&t, CharClass::QuestionEndOrTick);
    let the = chars_of("the ");
    let a = chars_of("a ");
    let cleaned = if starts_with_chars(&cleaned, &the) {
        let c = slice(&cleaned, the.len(), cleaned.len());
        assert(c@ =~= cleaned@.skip(the@.len() as int));
        c
    } else if starts_with_chars(&cleaned, &a) {
        let c = slice(&cleaned, a.len(), cleaned.len());
        assert(c@ =~= cleaned@.skip(a@.len() as int));
        c
    } else {
        cleaned
    };
    if cleaned.len() == 0 {
        trim_chars(p, CharClass::Space)
    } else {
        cleaned
    }
}

/// Whether `lit` occurs in `s`.
fn has(s: &Vec<char>, lit: &str) -> (r: bool)
    ensures
        r == contains(s@, lit@),
{
    contains_chars(s, &chars_of(lit))
}

/// Whether `s` begins with `lit`.
fn begins(s: &Vec<char>, lit: &str) -> (r: bool)
    ensures
        r == starts_with(s@, lit@),
{
    starts_with_chars(s, &chars_of(lit))
}

/// Pick the verb for a one-shot question. v1 is a keyword router; a later
/// version hands the question to the language model.
pub fn route_one_shot(prompt: &str) -> (r: RouteDecision)
    ensures
        r@ == route_spec(prompt@),
{
    let p = chars_of(prompt);
    let lower = ascii_lower_chars(&p);
    if begins(&lower, "who owns") || has(&lower, "ownership") || has(&lower, "owner of") {
        return RouteDecision::WhoOwns { query: string_of(&who_owns_query_chars(&p)) };
    }
    if begins(&lower, "plan for") || has(&lower, "day-1 plan") || has(&lower, "day 1 plan") {
        return RouteDecision::Plan { person: string_of(&plan_person_chars(&p)) };
    }
    if has(&lower, "access to") || has(&lower, "request access") || has(&lower, "permission") {
        return RouteDecision::Request { permission: string_of(&extract_permission(&p)) };
    }
    if has(&lower, "friction") || has(&lower, "digest") {
        return RouteDecision::FrictionDigest;
    }
    RouteDecision::Unrouted {
        reason: owned("no verb matched; v2 will route via LLM when [llm].enabled = true"),
    }
}

/// Keywords in the lower-cased question decide where it goes, ownership
/// first, then plans, then access, then the digest: a question naming
/// friction or a digest, and none of the earlier keywords, reads the
/// friction digest; one naming none of them is not routed, and says why.
pub proof fn law_route_by_keywords(p: Seq<char>)
    ensures
        ({
            let l = ascii_lower(p);
            let owner = starts_with(l, "who owns"@) || contains(l, "ownership"@) || contains(
                l,
                "owner of"@,
            );
            let plan = starts_with(l, "plan for"@) || contains(l, "day-1 plan"@) || contains(
                l,
                "day 1 plan"@,
            );
            let access = contains(l, "access to"@) || contains(l, "request access"@) || contains(
                l,
                "permission"@,
            );
            let digest = contains(l, "friction"@) || contains(l, "digest"@);
            &&& (route_spec(p) is WhoOwns <==> owner)
            &&& (route_spec(p) is Plan <==> !owner && plan)
            &&& (route_spec(p) is Request <==> !owner && !plan && access)
            &&& (route_spec(p) is FrictionDigest <==> !owner && !plan && !access && digest)
            &&& (!owner && !plan && !access && !digest ==> route_spec(p) == RouteSpec::Unrouted {
                reason: "no verb matched; v2 will route via LLM when [llm].enabled = true"@,
            })
        }),
{
}

/// A text with a character that is not whitespace does not trim to nothing.
proof fn lemma_not_blank(p: Seq<char>, i: int)
    requires
        0 <= i < p.len(),
        !crate::text::is_ws(p[i]),
    ensures
        trim(p).len() > 0,
{
    let k = CharClass::Space;
    lemma_lead_facts(p, k);
    let a = lead(p, k) as int;
    assert(a <= i) by {
        if a > i {
            assert(crate::text::in_class(k, p[i]));
        }
    }
    let t = p.skip(a);
    lemma_trail_facts(t, k);
    assert(t[i - a] == p[i]);
    assert(trail(t, k) < t.len() - (i - a)) by {
        if trail(t, k) >= t.len() - (i - a) {
            assert(crate::text::in_class(k, t[i - a]));
        }
    }
}

/// A question holding one of the access keywords is not blank.
proof fn lemma_keyword_not_blank(p: Seq<char>, kw: Seq<char>)
    requires
        contains(ascii_lower(p), kw),
        kw.len() > 0,
        'a' <= kw[0] <= 'z',
    ensures
        trim(p).len() > 0,
{
    let l = ascii_lower(p);
    lemma_find_from(l, kw, 0);
    let i = find(l, kw)->0;
    assert(l.subrange(i, i + kw.len())[0] == l[i]);
    assert(l[i] == crate::text::lower_char(p[i]));
    lemma_not_blank(p, i);
}

/// A request always names something: the permission of a question routed
/// to a request is never empty.
pub proof fn law_request_names_something(p: Seq<char>)
    ensures
        route_spec(p) matches RouteSpec::Request { permission } ==> permission.len() > 0,
{
    reveal_strlit("access to");
    reveal_strlit("request access");
    reveal_strlit("permission");
    let l = ascii_lower(p);
    if route_spec(p) is Request {
        if contains(l, "access to"@) {
            lemma_keyword_not_blank(p, "access to"@);
        } else if contains(l, "request access"@) {
            lemma_keyword_not_blank(p, "request access"@);
        } else {
            lemma_keyword_not_blank(p, "permission"@);
        }
    }
}

} // verus!
