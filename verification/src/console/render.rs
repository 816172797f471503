//! Every renderer is a function of data: a block becomes styled lines,
//! re-flowed to a width, or plain text for the clipboard. Drawing them on a
//! terminal is the caller's job.

use vstd::prelude::*;

use crate::console::block::{body_kind, body_status, Block, BlockBody, BlockStatus};
use crate::config::strs;
use crate::graph::{GraphStats, OwnerHit};
use crate::index::IndexReport;
use crate::text::{
    chars_of, contains, contains_chars, extend_chars, i64_text, int_text, nat_text, owned,
    lead, lemma_lead_facts, lemma_lead_is, lemma_trail_facts, trail, split_lines, text_lines, push_str, push_string, slice, string_of, trim_end_chars, trim_end_class,
    u128_text, u64_text, usize_text, CharClass,
};
use crate::tools::{RepomixCmd, RepomixStatus};
use crate::verbs::doctor::{fail_count, Check, CheckState, DoctorReport};
use crate::verbs::friction::{FrictionDigestResponse, FrictionEvent, FrictionLogResponse};
use crate::verbs::models::{ModelsReport, ProviderInfo};
use crate::verbs::plan::{PlanResponse, PlanSection};
use crate::verbs::request::RequestResponse;
use crate::verbs::who_owns::WhoOwnsResponse;

verus! {

/// The palette roles a span can take.
#[derive(Debug, Clone, Copy, PartialEq, Eq)]
pub enum Tone {
    /// No style of its own.
    Plain,
    /// Secondary text.
    Dim,
    /// Ordinary body text.
    Body,
    /// The warm accent, kept for names, focus and the caret.
    Accent,
    /// Bright bold headings.
    Title,
    /// Success.
    Good,
    /// Failure.
    Bad,
}

/// A run of text in one tone.
#[derive(Debug, Clone)]
pub struct Span {
    pub text: String,
    pub tone: Tone,
}

/// One line of styled text.
#[derive(Debug, Clone)]
pub struct Line {
    pub spans: Vec<Span>,
}

/// A span as `(text, tone)`.
pub open spec fn span_view(s: Span) -> (Seq<char>, Tone) {
    (s.text@, s.tone)
}

/// A line as its spans.
pub open spec fn line_view(l: Line) -> Seq<(Seq<char>, Tone)> {
    l.spans@.map_values(|s: Span| span_view(s))
}

/// Lines as their spans.
pub open spec fn lines_view(v: Seq<Line>) -> Seq<Seq<(Seq<char>, Tone)>> {
    v.map_values(|l: Line| line_view(l))
}

/// A line of one span.
pub open spec fn one(t: Seq<char>, tone: Tone) -> Seq<(Seq<char>, Tone)> {
    seq![(t, tone)]
}

/// The line with no spans.
pub open spec fn blank() -> Seq<(Seq<char>, Tone)> {
    Seq::empty()
}

fn mk_span(text: String, tone: Tone) -> (s: Span)
    ensures
        span_view(s) == (text@, tone),
{
    Span { text, tone }
}

fn line_of(spans: Vec<Span>) -> (l: Line)
    ensures
        l.spans == spans,
{
    Line { spans }
}

/// A line holding one span.
fn line1(text: String, tone: Tone) -> (l: Line)
    ensures
        line_view(l) == one(text@, tone),
{
    let mut v: Vec<Span> = Vec::new();
    v.push(mk_span(text, tone));
    let l = line_of(v);
    assert(line_view(l) =~= one(l.spans@[0].text@, tone));
    l
}

/// A line of spans given as `(text, tone)` pairs, built up one at a time.
fn push_span(l: &mut Line, text: String, tone: Tone)
    ensures
        line_view(*final(l)) == line_view(*old(l)).push((text@, tone)),
{
    let ghost before = line_view(*l);
    l.spans.push(mk_span(text, tone));
    assert(line_view(*l) =~= before.push((text@, tone)));
}

/// The line with no spans.
fn blank_line() -> (l: Line)
    ensures
        line_view(l) == blank(),
{
    let l = line_of(Vec::new());
    assert(line_view(l) =~= blank());
    l
}

/// Appends a line.
fn push_line(out: &mut Vec<Line>, l: Line)
    ensures
        lines_view(final(out)@) == lines_view(old(out)@).push(line_view(l)),
{
    let ghost before = lines_view(out@);
    out.push(l);
    assert(lines_view(out@) =~~= before.push(line_view(l)));
}

/// A string from two pieces.
fn cat(a: &str, b: &str) -> (r: String)
    ensures
        r@ == a@ + b@,
{
    let mut v: Vec<char> = Vec::new();
    push_str(&mut v, a);
    push_str(&mut v, b);
    string_of(&v)
}

/// `n` spaces.
pub open spec fn spaces(n: nat) -> Seq<char> {
    Seq::new(n, |i: int| ' ')
}

/// `s` padded with spaces to at least `n` characters, as `{:<n}` writes it.
pub open spec fn pad(s: Seq<char>, n: nat) -> Seq<char> {
    if s.len() >= n {
        s
    } else {
        s + spaces((n - s.len()) as nat)
    }
}

/// `{:<n}`.
pub(crate) fn pad_to(s: &str, n: usize) -> (r: String)
    ensures
        r@ == pad(s@, n as nat),
{
    let mut v = chars_of(s);
    let k = v.len();
    let mut i: usize = k;
    while i < n
        invariant
            k == s@.len(),
            i >= k,
            i <= n || i == k,
            v@ == s@ + spaces((i - k) as nat),
        decreases n - i,
    {
        v.push(' ');
        assert(v@ =~= s@ + spaces((i + 1 - k) as nat));
        i = i + 1;
    }
    proof {
        if k >= n {
            assert(spaces(0) =~= Seq::<char>::empty());
            assert(v@ =~= s@);
        }
    }
    string_of(&v)
}

/// The pieces joined with `sep` between them.
pub open spec fn join_with(s: Seq<Seq<char>>, sep: Seq<char>) -> Seq<char>
    decreases s.len(),
{
    if s.len() == 0 {
        Seq::empty()
    } else if s.len() == 1 {
        s[0]
    } else {
        join_with(s.drop_last(), sep) + sep + s.last()
    }
}

/// `items.join(sep)`.
pub(crate) fn join_strings(items: &Vec<String>, sep: &str) -> (r: String)
    ensures
        r@ == join_with(strs(items@), sep@),
{
    let mut v: Vec<char> = Vec::new();
    let mut i: usize = 0;
    while i < items.len()
        invariant
            i <= items@.len(),
            v@ == join_with(strs(items@.take(i as int)), sep@),
        decreases items.len() - i,
    {
        assert(strs(items@.take(i + 1)).drop_last() =~= strs(items@.take(i as int)));
        if i > 0 {
            push_str(&mut v, sep);
        }
        push_string(&mut v, &items[i]);
        proof {
            if i == 0 {
                assert(strs(items@.take(1)) =~= seq![items@[0]@]);
            }
        }
        i = i + 1;
    }
    assert(items@.take(items.len() as int) =~= items@);
    string_of(&v)
}

/// What a block's header shows: the typed line, or for a block with no
/// typed input a notice's title or the body's kind.
pub open spec fn header_spec(b: Block) -> Seq<char> {
    if b.input@.len() > 0 {
        b.input@
    } else {
        match b.body {
            BlockBody::Notice { title, .. } => title@,
            other => body_kind(other),
        }
    }
}

/// The header text of a block.
pub fn header_text(block: &Block) -> (r: String)
    ensures
        r@ == header_spec(*block),
{
    if !block.input.as_str().is_empty() {
        return block.input.clone();
    }
    match &block.body {
        BlockBody::Notice { title, .. } => title.clone(),
        other => owned(other.kind()),
    }
}

/// The glyph for a status.
pub open spec fn glyph_spec(s: BlockStatus) -> (Seq<char>, Tone) {
    match s {
        BlockStatus::Running => ("…"@, Tone::Accent),
        BlockStatus::Succeeded => ("✓"@, Tone::Good),
        BlockStatus::Failed => ("✗"@, Tone::Bad),
        BlockStatus::Notice => ("·"@, Tone::Dim),
    }
}

fn status_glyph(s: BlockStatus) -> (r: Span)
    ensures
        span_view(r) == glyph_spec(s),
{
    match s {
        BlockStatus::Running => mk_span(owned("…"), Tone::Accent),
        BlockStatus::Succeeded => mk_span(owned("✓"), Tone::Good),
        BlockStatus::Failed => mk_span(owned("✗"), Tone::Bad),
        BlockStatus::Notice => mk_span(owned("·"), Tone::Dim),
    }
}

/// The lines for one owner.
pub open spec fn hit_lines(h: OwnerHit, evidence: bool) -> Seq<Seq<(Seq<char>, Tone)>> {
    let head = seq![
        ("@"@ + h.owner_handle@, Tone::Accent),
        ("   "@ + h.weight_text@ + "  via "@ + h.source@, Tone::Dim),
    ];
    match h.evidence {
        Some(e) => if evidence {
            seq![head, one("    why  "@ + e@, Tone::Dim)]
        } else {
            seq![head]
        },
        None => seq![head],
    }
}

/// The lines for each owner, in order.
pub open spec fn hits_lines(hs: Seq<OwnerHit>, evidence: bool) -> Seq<Seq<(Seq<char>, Tone)>>
    decreases hs.len(),
{
    if hs.len() == 0 {
        Seq::empty()
    } else {
        hits_lines(hs.drop_last(), evidence) + hit_lines(hs.last(), evidence)
    }
}

/// The body of a who-owns block.
pub open spec fn who_owns_spec(r: WhoOwnsResponse) -> Seq<Seq<(Seq<char>, Tone)>> {
    if r.hits@.len() == 0 {
        seq![
            one("no owner in the graph for "@ + r.query@, Tone::Dim),
            one("try a narrower path, or re-run `glide index build`"@, Tone::Dim),
        ]
    } else {
        hits_lines(r.hits@, r.include_evidence)
    }
}

/// The lines of a who-owns answer.
pub fn who_owns_lines(r: &WhoOwnsResponse) -> (out: Vec<Line>)
    ensures
        lines_view(out@) == who_owns_spec(*r),
{
    let mut out: Vec<Line> = Vec::new();
    if r.hits.len() == 0 {
        push_line(&mut out, line1(cat("no owner in the graph for ", r.query.as_str()), Tone::Dim));
        push_line(
            &mut out,
            line1(owned("try a narrower path, or re-run `glide index build`"), Tone::Dim),
        );
        assert(lines_view(out@) =~~= who_owns_spec(*r));
        return out;
    }
    let mut i: usize = 0;
    assert(lines_view(out@) =~~= hits_lines(r.hits@.take(0), r.include_evidence));
    while i < r.hits.len()
        invariant
            i <= r.hits@.len(),
            lines_view(out@) == hits_lines(r.hits@.take(i as int), r.include_evidence),
        decreases r.hits.len() - i,
    {
        let h = &r.hits[i];
        assert(r.hits@.take(i + 1).drop_last() =~= r.hits@.take(i as int));
        let ghost before = lines_view(out@);
        let mut head = line1(cat("@", h.owner_handle.as_str()), Tone::Accent);
        let mut d: Vec<char> = Vec::new();
        push_str(&mut d, "   ");
        push_string(&mut d, &h.weight_text);
        push_str(&mut d, "  via ");
        push_string(&mut d, &h.source);
        push_span(&mut head, string_of(&d), Tone::Dim);
        push_line(&mut out, head);
        if r.include_evidence {
            match &h.evidence {
                Some(e) => {
                    push_line(&mut out, line1(cat("    why  ", e.as_str()), Tone::Dim));
                },
                None => {},
            }
        }
        assert(lines_view(out@) =~~= before + hit_lines(*h, r.include_evidence));
        i = i + 1;
    }
    assert(r.hits@.take(r.hits.len() as int) =~= r.hits@);
    out
}

/// The body of a request block.
pub open spec fn request_spec(r: RequestResponse) -> Seq<Seq<(Seq<char>, Tone)>> {
    seq![
        seq![("permission  "@, Tone::Dim), (r.permission@, Tone::Accent)],
        blank(),
        one(r.draft_message@, Tone::Body),
        blank(),
        one("send to  "@ + join_with(strs(r.channels@), "  "@), Tone::Dim),
        one(r.status@, Tone::Dim),
    ]
}

/// The lines of a drafted request.
pub fn request_lines(r: &RequestResponse) -> (out: Vec<Line>)
    ensures
        lines_view(out@) == request_spec(*r),
{
    let mut out: Vec<Line> = Vec::new();
    let mut first = line1(owned("permission  "), Tone::Dim);
    push_span(&mut first, r.permission.clone(), Tone::Accent);
    push_line(&mut out, first);
    push_line(&mut out, blank_line());
    push_line(&mut out, line1(r.draft_message.clone(), Tone::Body));
    push_line(&mut out, blank_line());
    let joined = join_strings(&r.channels, "  ");
    push_line(&mut out, line1(cat("send to  ", joined.as_str()), Tone::Dim));
    push_line(&mut out, line1(owned(r.status), Tone::Dim));
    assert(lines_view(out@) =~~= request_spec(*r));
    out
}

/// The body of a logged-friction block.
pub open spec fn friction_logged_spec(r: FrictionLogResponse) -> Seq<Seq<(Seq<char>, Tone)>> {
    seq![
        seq![
            ("#"@ + int_text(r.id as int), Tone::Accent),
            ("  "@ + r.category@ + "  sev"@ + nat_text(r.severity as nat), Tone::Dim),
        ],
        one(r.subject@, Tone::Body),
        one(r.occurred_at@, Tone::Dim),
    ]
}

/// The lines of a logged friction event.
pub fn friction_logged_lines(r: &FrictionLogResponse) -> (out: Vec<Line>)
    ensures
        lines_view(out@) == friction_logged_spec(*r),
{
    let mut out: Vec<Line> = Vec::new();
    let mut first = line1(cat("#", i64_text(r.id).as_str()), Tone::Accent);
    let mut d: Vec<char> = Vec::new();
    push_str(&mut d, "  ");
    push_string(&mut d, &r.category);
    push_str(&mut d, "  sev");
    push_string(&mut d, &u64_text(r.severity as u64));
    push_span(&mut first, string_of(&d), Tone::Dim);
    push_line(&mut out, first);
    push_line(&mut out, line1(r.subject.clone(), Tone::Body));
    push_line(&mut out, line1(r.occurred_at.clone(), Tone::Dim));
    assert(lines_view(out@) =~~= friction_logged_spec(*r));
    out
}

/// The name of an invocation in the tools block.
pub open spec fn tool_mode(cmd: Option<RepomixCmd>) -> Seq<char> {
    match cmd {
        Some(RepomixCmd::Global) => "global"@,
        Some(RepomixCmd::Npx) => "npx"@,
        None => "?"@,
    }
}

/// The body of a tools block.
pub open spec fn tools_spec(s: RepomixStatus) -> Seq<Seq<(Seq<char>, Tone)>> {
    if !s.available {
        seq![
            seq![("✗ "@, Tone::Bad), ("repomix not available"@, Tone::Body)],
            one("quit and run `glide tools install repomix`"@, Tone::Dim),
        ]
    } else {
        let head = seq![
            ("✓ "@, Tone::Good),
            ("repomix"@, Tone::Accent),
            ("  "@ + match s.version {
                Some(v) => v@,
                None => "version unknown"@,
            } + "  ("@ + tool_mode(s.cmd) + ")"@, Tone::Dim),
        ];
        match s.bin_path {
            Some(p) => seq![head, one("    "@ + p@, Tone::Dim)],
            None => seq![head],
        }
    }
}

/// The lines of the repomix probe.
pub fn tools_lines(s: &RepomixStatus) -> (out: Vec<Line>)
    ensures
        lines_view(out@) == tools_spec(*s),
{
    let mut out: Vec<Line> = Vec::new();
    if !s.available {
        let mut first = line1(owned("✗ "), Tone::Bad);
        push_span(&mut first, owned("repomix not available"), Tone::Body);
        push_line(&mut out, first);
        push_line(&mut out, line1(owned("quit and run `glide tools install repomix`"), Tone::Dim));
        assert(lines_view(out@) =~~= tools_spec(*s));
        return out;
    }
    let mut first = line1(owned("✓ "), Tone::Good);
    push_span(&mut first, owned("repomix"), Tone::Accent);
    let mut d: Vec<char> = Vec::new();
    push_str(&mut d, "  ");
    match &s.version {
        Some(v) => push_string(&mut d, v),
        None => push_str(&mut d, "version unknown"),
    }
    push_str(&mut d, "  (");
    match s.cmd {
        Some(RepomixCmd::Global) => push_str(&mut d, "global"),
        Some(RepomixCmd::Npx) => push_str(&mut d, "npx"),
        None => push_str(&mut d, "?"),
    }
    push_str(&mut d, ")");
    push_span(&mut first, string_of(&d), Tone::Dim);
    push_line(&mut out, first);
    match &s.bin_path {
        Some(p) => push_line(&mut out, line1(cat("    ", p.as_str()), Tone::Dim)),
        None => {},
    }
    assert(lines_view(out@) =~~= tools_spec(*s));
    out
}

/// The lines for one provider.
pub open spec fn provider_lines(p: ProviderInfo) -> Seq<Seq<(Seq<char>, Tone)>> {
    seq![
        seq![(p.id@, Tone::Accent), ("  "@ + p.model@, Tone::Dim)],
        seq![
            ("    key "@ + p.api_key_env@ + " "@, Tone::Dim),
            if p.key_present {
                ("set"@, Tone::Good)
            } else {
                ("missing"@, Tone::Bad)
            },
            if p.feature_compiled {
                (Seq::empty(), Tone::Dim)
            } else {
                ("   [feature not compiled]"@, Tone::Dim)
            },
        ],
    ]
}

/// The lines for each provider, in order.
pub open spec fn providers_lines(ps: Seq<ProviderInfo>) -> Seq<Seq<(Seq<char>, Tone)>>
    decreases ps.len(),
{
    if ps.len() == 0 {
        Seq::empty()
    } else {
        providers_lines(ps.drop_last()) + provider_lines(ps.last())
    }
}

/// The body of a models block.
pub open spec fn models_spec(r: ModelsReport) -> Seq<Seq<(Seq<char>, Tone)>> {
    seq![
        seq![
            ("llm  "@, Tone::Dim),
            (if r.enabled {
                "enabled"@
            } else {
                "disabled"@
            }, Tone::Body),
            ("   default "@ + r.default_provider@, Tone::Dim),
        ],
    ] + providers_lines(r.providers@)
}

/// The lines of the language-model setup.
pub fn models_lines(r: &ModelsReport) -> (out: Vec<Line>)
    ensures
        lines_view(out@) == models_spec(*r),
{
    let mut out: Vec<Line> = Vec::new();
    let mut first = line1(owned("llm  "), Tone::Dim);
    push_span(&mut first, owned(if r.enabled {
        "enabled"
    } else {
        "disabled"
    }), Tone::Body);
    push_span(&mut first, cat("   default ", r.default_provider.as_str()), Tone::Dim);
    push_line(&mut out, first);
    let ghost head = lines_view(out@);
    let mut i: usize = 0;
    assert(lines_view(out@) =~~= head + providers_lines(r.providers@.take(0)));
    while i < r.providers.len()
        invariant
            i <= r.providers@.len(),
            lines_view(out@) == head + providers_lines(r.providers@.take(i as int)),
        decreases r.providers.len() - i,
    {
        let p = &r.providers[i];
        assert(r.providers@.take(i + 1).drop_last() =~= r.providers@.take(i as int));
        let ghost before = lines_view(out@);
        let mut a = line1(p.id.clone(), Tone::Accent);
        push_span(&mut a, cat("  ", p.model.as_str()), Tone::Dim);
        push_line(&mut out, a);
        let mut k: Vec<char> = Vec::new();
        push_str(&mut k, "    key ");
        push_string(&mut k, &p.api_key_env);
        push_str(&mut k, " ");
        let mut b = line1(string_of(&k), Tone::Dim);
        if p.key_present {
            push_span(&mut b, owned("set"), Tone::Good);
        } else {
            push_span(&mut b, owned("missing"), Tone::Bad);
        }
        if p.feature_compiled {
            push_span(&mut b, String::new(), Tone::Dim);
        } else {
            push_span(&mut b, owned("   [feature not compiled]"), Tone::Dim);
        }
        push_line(&mut out, b);
        assert(lines_view(out@) =~~= before + provider_lines(*p));
        i = i + 1;
    }
    assert(r.providers@.take(r.providers.len() as int) =~= r.providers@);
    assert(lines_view(out@) =~~= models_spec(*r));
    out
}

/// The lines of one section of a packet; every section after the first is
/// set off by a blank line.
pub open spec fn section_lines(sec: PlanSection, first: bool) -> Seq<Seq<(Seq<char>, Tone)>> {
    (if first {
        Seq::empty()
    } else {
        seq![blank()]
    }) + seq![one(sec.title@, Tone::Title)] + bullet_lines(strs(sec.bullets@))
}

/// A bullet per item.
pub open spec fn bullet_lines(bs: Seq<Seq<char>>) -> Seq<Seq<(Seq<char>, Tone)>>
    decreases bs.len(),
{
    if bs.len() == 0 {
        Seq::empty()
    } else {
        bullet_lines(bs.drop_last()).push(seq![("· "@, Tone::Dim), (bs.last(), Tone::Body)])
    }
}

/// The lines of every section, in order.
pub open spec fn sections_lines(secs: Seq<PlanSection>) -> Seq<Seq<(Seq<char>, Tone)>>
    decreases secs.len(),
{
    if secs.len() == 0 {
        Seq::empty()
    } else {
        sections_lines(secs.drop_last()) + section_lines(secs.last(), secs.len() == 1)
    }
}

/// The body of a plan block.
pub open spec fn plan_spec(r: PlanResponse) -> Seq<Seq<(Seq<char>, Tone)>> {
    sections_lines(r.sections@) + seq![blank(), one(r.status@, Tone::Dim)]
}

/// The lines of a day-1 packet.
pub fn plan_lines(r: &PlanResponse) -> (out: Vec<Line>)
    ensures
        lines_view(out@) =~~= plan_spec(*r),
{
    let mut out: Vec<Line> = Vec::new();
    let mut i: usize = 0;
    assert(lines_view(out@) =~~= sections_lines(r.sections@.take(0)));
    while i < r.sections.len()
        invariant
            i <= r.sections@.len(),
            lines_view(out@) =~~= sections_lines(r.sections@.take(i as int)),
        decreases r.sections.len() - i,
    {
        let sec = &r.sections[i];
        assert(r.sections@.take(i + 1).drop_last() =~= r.sections@.take(i as int));
        let ghost before = lines_view(out@);
        if i > 0 {
            push_line(&mut out, blank_line());
        }
        push_line(&mut out, line1(sec.title.clone(), Tone::Title));
        let ghost mid = lines_view(out@);
        let mut k: usize = 0;
        assert(lines_view(out@) =~~= mid + bullet_lines(strs(sec.bullets@.take(0))));
        while k < sec.bullets.len()
            invariant
                k <= sec.bullets@.len(),
                lines_view(out@) =~~= mid + bullet_lines(strs(sec.bullets@.take(k as int))),
            decreases sec.bullets.len() - k,
        {
            assert(strs(sec.bullets@.take(k + 1)).drop_last() =~= strs(sec.bullets@.take(k as int)));
            let mut l = line1(owned("· "), Tone::Dim);
            push_span(&mut l, sec.bullets[k].clone(), Tone::Body);
            push_line(&mut out, l);
            k = k + 1;
        }
        assert(sec.bullets@.take(sec.bullets.len() as int) =~= sec.bullets@);
        assert(lines_view(out@) =~~= before + section_lines(*sec, i == 0));
        i = i + 1;
    }
    assert(r.sections@.take(r.sections.len() as int) =~= r.sections@);
    push_line(&mut out, blank_line());
    push_line(&mut out, line1(owned(r.status), Tone::Dim));
    out
}

/// The line for one friction event.
pub open spec fn event_line(e: FrictionEvent) -> Seq<(Seq<char>, Tone)> {
    seq![
        ("sev"@ + nat_text(e.severity as nat), Tone::Accent),
        ("  "@ + pad(e.category@, 18), Tone::Dim),
        (e.subject@, Tone::Body),
    ]
}

/// A line per event.
pub open spec fn event_lines(es: Seq<FrictionEvent>) -> Seq<Seq<(Seq<char>, Tone)>>
    decreases es.len(),
{
    if es.len() == 0 {
        Seq::empty()
    } else {
        event_lines(es.drop_last()).push(event_line(es.last()))
    }
}

/// `category count` for each entry of a tally.
pub open spec fn tally_texts(t: Seq<(String, usize)>) -> Seq<Seq<char>> {
    t.map_values(|p: (String, usize)| p.0@ + " "@ + nat_text(p.1 as nat))
}

/// The body of a digest block.
pub open spec fn digest_spec(r: FrictionDigestResponse) -> Seq<Seq<(Seq<char>, Tone)>> {
    let n = r.events@.len();
    if n == 0 {
        seq![one("no friction logged since "@ + r.since@, Tone::Dim)]
    } else {
        seq![one(nat_text(n) + " event"@ + (if n == 1 {
            Seq::empty()
        } else {
            "s"@
        }) + " since "@ + r.since@, Tone::Dim)] + event_lines(r.events@) + if r.by_category@.len()
            == 0 {
            Seq::empty()
        } else {
            seq![blank(), one(join_with(tally_texts(r.by_category@), "   "@), Tone::Dim)]
        }
    }
}

/// The lines of a friction digest.
pub fn digest_lines(r: &FrictionDigestResponse) -> (out: Vec<Line>)
    ensures
        lines_view(out@) =~~= digest_spec(*r),
{
    let mut out: Vec<Line> = Vec::new();
    let n = r.events.len();
    if n == 0 {
        push_line(&mut out, line1(cat("no friction logged since ", r.since.as_str()), Tone::Dim));
        return out;
    }
    let mut h: Vec<char> = Vec::new();
    push_string(&mut h, &usize_text(n));
    push_str(&mut h, " event");
    if n != 1 {
        push_str(&mut h, "s");
    }
    push_str(&mut h, " since ");
    push_string(&mut h, &r.since);
    push_line(&mut out, line1(string_of(&h), Tone::Dim));
    let ghost head = lines_view(out@);
    let mut i: usize = 0;
    assert(lines_view(out@) =~~= head + event_lines(r.events@.take(0)));
    while i < n
        invariant
            n == r.events@.len(),
            i <= n,
            lines_view(out@) =~~= head + event_lines(r.events@.take(i as int)),
        decreases n - i,
    {
        let e = &r.events[i];
        assert(r.events@.take(i + 1).drop_last() =~= r.events@.take(i as int));
        let mut l = line1(cat("sev", u64_text(e.severity as u64).as_str()), Tone::Accent);
        push_span(&mut l, cat("  ", pad_to(e.category.as_str(), 18).as_str()), Tone::Dim);
        push_span(&mut l, e.subject.clone(), Tone::Body);
        push_line(&mut out, l);
        i = i + 1;
    }
    assert(r.events@.take(n as int) =~= r.events@);
    if r.by_category.len() > 0 {
        let mut texts: Vec<String> = Vec::new();
        let mut k: usize = 0;
        while k < r.by_category.len()
            invariant
                k <= r.by_category@.len(),
                strs(texts@) == tally_texts(r.by_category@.take(k as int)),
            decreases r.by_category.len() - k,
        {
            let (c, m) = &r.by_category[k];
            let mut t: Vec<char> = Vec::new();
            push_string(&mut t, c);
            push_str(&mut t, " ");
            push_string(&mut t, &usize_text(*m));
            let ghost before = strs(texts@);
            texts.push(string_of(&t));
            assert(strs(texts@) =~= before.push(t@));
            assert(tally_texts(r.by_category@.take(k + 1)) =~= tally_texts(
                r.by_category@.take(k as int),
            ).push(t@));
            k = k + 1;
        }
        assert(r.by_category@.take(r.by_category.len() as int) =~= r.by_category@);
        push_line(&mut out, blank_line());
        push_line(&mut out, line1(join_strings(&texts, "   "), Tone::Dim));
    }
    out
}

/// The line for one check.
pub open spec fn check_line(c: Check) -> Seq<(Seq<char>, Tone)> {
    seq![
        match c.state {
            CheckState::Pass => ("✓"@, Tone::Good),
            CheckState::Fail => ("✗"@, Tone::Bad),
        },
        (" "@, Tone::Plain),
        (pad(c.name@, 10), Tone::Accent),
        (c.detail@, Tone::Body),
    ]
}

/// A line per check.
pub open spec fn check_lines(cs: Seq<Check>) -> Seq<Seq<(Seq<char>, Tone)>>
    decreases cs.len(),
{
    if cs.len() == 0 {
        Seq::empty()
    } else {
        check_lines(cs.drop_last()).push(check_line(cs.last()))
    }
}

/// The body of a doctor block.
pub open spec fn doctor_spec(r: DoctorReport) -> Seq<Seq<(Seq<char>, Tone)>> {
    let f = fail_count(r.checks@);
    check_lines(r.checks@) + seq![
        blank(),
        if f == 0 {
            one("all checks pass"@, Tone::Good)
        } else {
            one(nat_text(f) + " check(s) failed"@, Tone::Bad)
        },
    ]
}

/// The lines of a doctor report.
pub fn doctor_lines(r: &DoctorReport) -> (out: Vec<Line>)
    ensures
        lines_view(out@) =~~= doctor_spec(*r),
{
    let mut out: Vec<Line> = Vec::new();
    let mut i: usize = 0;
    assert(lines_view(out@) =~~= check_lines(r.checks@.take(0)));
    while i < r.checks.len()
        invariant
            i <= r.checks@.len(),
            lines_view(out@) =~~= check_lines(r.checks@.take(i as int)),
        decreases r.checks.len() - i,
    {
        let c = &r.checks[i];
        assert(r.checks@.take(i + 1).drop_last() =~= r.checks@.take(i as int));
        let mut l = match c.state {
            CheckState::Pass => line1(owned("✓"), Tone::Good),
            CheckState::Fail => line1(owned("✗"), Tone::Bad),
        };
        push_span(&mut l, owned(" "), Tone::Plain);
        push_span(&mut l, pad_to(c.name.as_str(), 10), Tone::Accent);
        push_span(&mut l, c.detail.clone(), Tone::Body);
        push_line(&mut out, l);
        i = i + 1;
    }
    assert(r.checks@.take(r.checks.len() as int) =~= r.checks@);
    push_line(&mut out, blank_line());
    let f = r.failures();
    if f == 0 {
        push_line(&mut out, line1(owned("all checks pass"), Tone::Good));
    } else {
        push_line(&mut out, line1(cat(usize_text(f).as_str(), " check(s) failed"), Tone::Bad));
    }
    out
}

/// A labelled row: the label padded to `w` and dimmed, then the value.
pub open spec fn row(label: Seq<char>, w: nat, value: Seq<char>) -> Seq<(Seq<char>, Tone)> {
    seq![(pad(label, w), Tone::Dim), (value, Tone::Body)]
}

fn row_line(label: &str, w: usize, value: String) -> (l: Line)
    ensures
        line_view(l) == row(label@, w as nat, value@),
{
    let mut l = line1(pad_to(label, w), Tone::Dim);
    push_span(&mut l, value, Tone::Body);
    assert(line_view(l) =~= row(label@, w as nat, value@));
    l
}

/// When the graph was last indexed, and whether that run failed.
pub open spec fn last_indexed(at: Option<String>, ok: Option<bool>) -> Seq<char> {
    match (at, ok) {
        (Some(t), Some(true)) => t@,
        (Some(t), Some(false)) => t@ + " (FAILED)"@,
        _ => "never — run `index build`"@,
    }
}

/// The body of a graph-counts block.
pub open spec fn stats_spec(s: GraphStats) -> Seq<Seq<(Seq<char>, Tone)>> {
    seq![
        row("people"@, 16, int_text(s.people as int)),
        row("teams"@, 16, int_text(s.teams as int)),
        row("paths"@, 16, int_text(s.paths as int)),
        row("ownership rows"@, 16, int_text(s.ownership_rows as int)),
        row("friction events"@, 16, int_text(s.friction_events as int)),
        row("last indexed"@, 16, last_indexed(s.last_index_at, s.last_index_ok)),
    ]
}

/// The lines of the graph's counts.
pub fn stats_lines(s: &GraphStats) -> (out: Vec<Line>)
    ensures
        lines_view(out@) =~~= stats_spec(*s),
{
    let mut out: Vec<Line> = Vec::new();
    push_line(&mut out, row_line("people", 16, i64_text(s.people)));
    push_line(&mut out, row_line("teams", 16, i64_text(s.teams)));
    push_line(&mut out, row_line("paths", 16, i64_text(s.paths)));
    push_line(&mut out, row_line("ownership rows", 16, i64_text(s.ownership_rows)));
    push_line(&mut out, row_line("friction events", 16, i64_text(s.friction_events)));
    let last = match (&s.last_index_at, s.last_index_ok) {
        (Some(t), Some(true)) => t.clone(),
        (Some(t), Some(false)) => cat(t.as_str(), " (FAILED)"),
        _ => owned("never — run `index build`"),
    };
    push_line(&mut out, row_line("last indexed", 16, last));
    out
}

/// Tenths of a kilobyte in `bytes`, rounded to the nearest and ties to
/// even, as `{:.1}` rounds `bytes / 1024`.
pub open spec fn kb_tenths(bytes: nat) -> nat {
    let q = (bytes * 10) / 1024;
    let rem = (bytes * 10) % 1024;
    if rem > 512 || (rem == 512 && q % 2 == 1) {
        q + 1
    } else {
        q
    }
}

/// `bytes / 1024` written with one decimal.
pub open spec fn kb_text(bytes: nat) -> Seq<char> {
    let t = kb_tenths(bytes);
    nat_text(t / 10) + "."@ + nat_text(t % 10)
}

pub(crate) fn kb_string(bytes: u64) -> (r: String)
    ensures
        r@ == kb_text(bytes as nat),
{
    let b: u128 = bytes as u128;
    let q: u128 = (b * 10) / 1024;
    let rem: u128 = (b * 10) % 1024;
    let t: u128 = if rem > 512 || (rem == 512 && q % 2 == 1) {
        q + 1
    } else {
        q
    };
    assert(t == kb_tenths(bytes as nat));
    assert(t / 10 < 0x1_0000_0000_0000_0000) by (nonlinear_arith)
        requires
            t <= (bytes as int * 10) / 1024 + 1,
            bytes < 0x1_0000_0000_0000_0000,
    ;
    let whole: u64 = (t / 10) as u64;
    let frac: u64 = (t % 10) as u64;
    let mut v: Vec<char> = Vec::new();
    push_string(&mut v, &u64_text(whole));
    push_str(&mut v, ".");
    push_string(&mut v, &u64_text(frac));
    string_of(&v)
}

/// The repomix row's value.
pub open spec fn repomix_value(r: IndexReport) -> Seq<char> {
    if r.repomix.ran {
        kb_text(r.repomix.bytes as nat) + " KB via "@ + r.repomix.mode@
    } else {
        "skipped — "@ + match r.repomix.skipped_reason {
            Some(s) => s@,
            None => "no reason given"@,
        }
    }
}

/// The body of an index-build block.
pub open spec fn indexed_spec(r: IndexReport) -> Seq<Seq<(Seq<char>, Tone)>> {
    seq![
        row("codeowners rules"@, 18, nat_text(r.codeowners_rules as nat)),
        row("git buckets"@, 18, nat_text(r.git_history_buckets as nat)),
        row("team-doc mentions"@, 18, nat_text(r.team_doc_mentions as nat)),
        row("scanned"@, 18, nat_text(r.commits_scanned as nat) + " commits across "@ + nat_text(
            r.files_scanned as nat,
        ) + " files"@),
        row("repomix"@, 18, repomix_value(r)),
    ]
}

/// The lines of an index run's report.
pub fn indexed_lines(r: &IndexReport) -> (out: Vec<Line>)
    ensures
        lines_view(out@) =~~= indexed_spec(*r),
{
    let mut out: Vec<Line> = Vec::new();
    push_line(&mut out, row_line("codeowners rules", 18, usize_text(r.codeowners_rules)));
    push_line(&mut out, row_line("git buckets", 18, usize_text(r.git_history_buckets)));
    push_line(&mut out, row_line("team-doc mentions", 18, usize_text(r.team_doc_mentions)));
    let mut sc: Vec<char> = Vec::new();
    push_string(&mut sc, &usize_text(r.commits_scanned));
    push_str(&mut sc, " commits across ");
    push_string(&mut sc, &usize_text(r.files_scanned));
    push_str(&mut sc, " files");
    push_line(&mut out, row_line("scanned", 18, string_of(&sc)));
    let mut rv: Vec<char> = Vec::new();
    if r.repomix.ran {
        push_string(&mut rv, &kb_string(r.repomix.bytes));
        push_str(&mut rv, " KB via ");
        push_string(&mut rv, &r.repomix.mode);
    } else {
        push_str(&mut rv, "skipped — ");
        match &r.repomix.skipped_reason {
            Some(s) => push_string(&mut rv, s),
            None => push_str(&mut rv, "no reason given"),
        }
    }
    push_line(&mut out, row_line("repomix", 18, string_of(&rv)));
    out
}

/// A `config list` line: section headers in the accent, the rest as body.
pub open spec fn toml_line(l: Seq<char>) -> Seq<(Seq<char>, Tone)> {
    one(l, if l.len() > 0 && l[0] == '[' {
        Tone::Accent
    } else {
        Tone::Body
    })
}

/// Each item on a line of its own, in one tone.
pub open spec fn plain_lines(ls: Seq<Seq<char>>, tone: Tone) -> Seq<Seq<(Seq<char>, Tone)>> {
    ls.map_values(|l: Seq<char>| one(l, tone))
}

/// The lines of a `config list` block.
pub open spec fn toml_lines(ls: Seq<Seq<char>>) -> Seq<Seq<(Seq<char>, Tone)>> {
    ls.map_values(|l: Seq<char>| toml_line(l))
}

/// The body of an unrouted block.
pub open spec fn unrouted_spec(reason: Seq<char>, suggestions: Seq<Seq<char>>) -> Seq<
    Seq<(Seq<char>, Tone)>,
> {
    seq![one(reason, Tone::Dim), blank(), one("try"@, Tone::Dim)] + plain_lines(
        suggestions.map_values(|x: Seq<char>| "  "@ + x),
        Tone::Good,
    )
}

/// The lines a block body shows.
pub open spec fn body_spec(b: BlockBody) -> Seq<Seq<(Seq<char>, Tone)>> {
    match b {
        BlockBody::Pending => seq![one("running…"@, Tone::Dim)],
        BlockBody::Doctor(r) => doctor_spec(*r),
        BlockBody::Stats(s) => stats_spec(*s),
        BlockBody::Indexed(r) => indexed_spec(*r),
        BlockBody::Models(r) => models_spec(*r),
        BlockBody::Tools(s) => tools_spec(*s),
        BlockBody::FrictionLogged(r) => friction_logged_spec(*r),
        BlockBody::Toml(t) => toml_lines(text_lines(t@)),
        BlockBody::WhoOwns(r) => who_owns_spec(*r),
        BlockBody::Plan(r) => plan_spec(*r),
        BlockBody::Request(r) => request_spec(*r),
        BlockBody::Digest(r) => digest_spec(*r),
        BlockBody::Notice { lines, .. } => plain_lines(strs(lines@), Tone::Body),
        BlockBody::Error { message } => seq![one(message@, Tone::Bad)],
        BlockBody::Unrouted { reason, suggestions } => unrouted_spec(reason@, strs(suggestions@)),
    }
}

/// Each of `items` on a line of its own, prefixed and in one tone.
fn each_line(out: &mut Vec<Line>, items: &Vec<String>, prefix: &str, tone: Tone)
    ensures
        lines_view(final(out)@) =~~= lines_view(old(out)@) + plain_lines(
            strs(items@).map_values(|x: Seq<char>| prefix@ + x),
            tone,
        ),
{
    let ghost start = lines_view(out@);
    let mut i: usize = 0;
    while i < items.len()
        invariant
            i <= items@.len(),
            lines_view(out@) =~~= start + plain_lines(
                strs(items@.take(i as int)).map_values(|x: Seq<char>| prefix@ + x),
                tone,
            ),
        decreases items.len() - i,
    {
        let ghost before = lines_view(out@);
        push_line(out, line1(cat(prefix, items[i].as_str()), tone));
        assert(plain_lines(strs(items@.take(i + 1)).map_values(|x: Seq<char>| prefix@ + x), tone)
            =~~= plain_lines(strs(items@.take(i as int)).map_values(|x: Seq<char>| prefix@ + x), tone).push(
            one(prefix@ + items@[i as int]@, tone),
        ));
        i = i + 1;
    }
    assert(items@.take(items.len() as int) =~= items@);
}

/// The lines of a block's body.
pub fn body_lines(b: &BlockBody) -> (out: Vec<Line>)
    ensures
        lines_view(out@) =~~= body_spec(*b),
{
    match b {
        BlockBody::Pending => {
            let mut out: Vec<Line> = Vec::new();
            push_line(&mut out, line1(owned("running…"), Tone::Dim));
            out
        },
        BlockBody::Doctor(r) => doctor_lines(r),
        BlockBody::Stats(s) => stats_lines(s),
        BlockBody::Indexed(r) => indexed_lines(r),
        BlockBody::Models(r) => models_lines(r),
        BlockBody::Tools(s) => tools_lines(s),
        BlockBody::FrictionLogged(r) => friction_logged_lines(r),
        BlockBody::Toml(text) => {
            let ls = split_lines(&chars_of(text.as_str()));
            let ghost views = ls@.map_values(|l: Vec<char>| l@);
            let mut out: Vec<Line> = Vec::new();
            let mut i: usize = 0;
            while i < ls.len()
                invariant
                    i <= ls@.len(),
                    views == ls@.map_values(|l: Vec<char>| l@),
                    lines_view(out@) =~~= toml_lines(views.take(i as int)),
                decreases ls.len() - i,
            {
                let l = &ls[i];
                let tone = if l.len() > 0 && l[0] == '[' {
                    Tone::Accent
                } else {
                    Tone::Body
                };
                push_line(&mut out, line1(string_of(l), tone));
                assert(toml_lines(views.take(i + 1)) =~~= toml_lines(views.take(i as int)).push(
                    toml_line(views[i as int]),
                ));
                i = i + 1;
            }
            assert(views.take(ls.len() as int) =~= views);
            out
        },
        BlockBody::WhoOwns(r) => who_owns_lines(r),
        BlockBody::Plan(r) => plan_lines(r),
        BlockBody::Request(r) => request_lines(r),
        BlockBody::Digest(r) => digest_lines(r),
        BlockBody::Notice { lines, .. } => {
            let mut out: Vec<Line> = Vec::new();
            each_line(&mut out, lines, "", Tone::Body);
            proof {
                reveal_strlit("");
            }
            assert(strs(lines@).map_values(|x: Seq<char>| ""@ + x) =~= strs(lines@));
            out
        },
        BlockBody::Error { message } => {
            let mut out: Vec<Line> = Vec::new();
            push_line(&mut out, line1(message.clone(), Tone::Bad));
            out
        },
        BlockBody::Unrouted { reason, suggestions } => {
            let mut out: Vec<Line> = Vec::new();
            push_line(&mut out, line1(reason.clone(), Tone::Dim));
            push_line(&mut out, blank_line());
            push_line(&mut out, line1(owned("try"), Tone::Dim));
            each_line(&mut out, suggestions, "  ", Tone::Good);
            out
        },
    }
}

/// A block's body in context: a notice answering a typed line shows its
/// title first, unless the typed line already says it, since the header
/// shows what was typed.
pub open spec fn context_spec(b: Block) -> Seq<Seq<(Seq<char>, Tone)>> {
    match b.body {
        BlockBody::Notice { title, .. } => if b.input@.len() > 0 && !contains(b.input@, title@) {
            seq![one(title@, Tone::Title)] + body_spec(b.body)
        } else {
            body_spec(b.body)
        },
        _ => body_spec(b.body),
    }
}

/// The lines of a block's body, with a notice's title where the header
/// would hide it.
pub fn body_lines_in_context(block: &Block) -> (out: Vec<Line>)
    ensures
        lines_view(out@) =~~= context_spec(*block),
{
    let lines = body_lines(&block.body);
    match &block.body {
        BlockBody::Notice { title, .. } => {
            if !block.input.as_str().is_empty() && !contains_chars(
                &chars_of(block.input.as_str()),
                &chars_of(title.as_str()),
            ) {
                let mut out: Vec<Line> = Vec::new();
                push_line(&mut out, line1(title.clone(), Tone::Title));
                let ghost head = lines_view(out@);
                let mut rest = lines;
                let ghost tail = lines_view(rest@);
                out.append(&mut rest);
                assert(lines_view(out@) =~~= head + tail);
                out
            } else {
                lines
            }
        },
        _ => lines,
    }
}

/// The text of a line's spans, end to end.
pub open spec fn line_text(l: Seq<(Seq<char>, Tone)>) -> Seq<char>
    decreases l.len(),
{
    if l.len() == 0 {
        Seq::empty()
    } else {
        line_text(l.drop_last()) + l.last().0
    }
}

fn line_string(l: &Line) -> (r: Vec<char>)
    ensures
        r@ == line_text(line_view(*l)),
{
    let mut v: Vec<char> = Vec::new();
    let mut i: usize = 0;
    while i < l.spans.len()
        invariant
            i <= l.spans@.len(),
            v@ == line_text(line_view(*l).take(i as int)),
        decreases l.spans.len() - i,
    {
        assert(line_view(*l).take(i + 1).drop_last() =~= line_view(*l).take(i as int));
        push_string(&mut v, &l.spans[i].text);
        i = i + 1;
    }
    assert(line_view(*l).take(l.spans.len() as int) =~= line_view(*l));
    v
}

/// The block as plain text: the header, then each body line with its
/// trailing whitespace removed, one per line.
pub open spec fn plain_text_spec(b: Block) -> Seq<char> {
    join_with(
        seq![header_spec(b)] + context_spec(b).map_values(
            |l: Seq<(Seq<char>, Tone)>| trim_end_class(line_text(l), CharClass::Space),
        ),
        "\n"@,
    )
}

/// The block as plain text, for the clipboard.
pub fn block_plain_text(block: &Block) -> (r: String)
    ensures
        r@ == plain_text_spec(*block),
{
    let ls = body_lines_in_context(block);
    let ghost lv = lines_view(ls@);
    let mut texts: Vec<String> = Vec::new();
    texts.push(header_text(block));
    let ghost head = header_spec(*block);
    assert(strs(texts@) =~= seq![head]);
    let mut i: usize = 0;
    while i < ls.len()
        invariant
            i <= ls@.len(),
            lv == lines_view(ls@),
            strs(texts@) =~= seq![head] + lv.take(i as int).map_values(
                |l: Seq<(Seq<char>, Tone)>| trim_end_class(line_text(l), CharClass::Space),
            ),
        decreases ls.len() - i,
    {
        let t = trim_end_chars(&line_string(&ls[i]), CharClass::Space);
        let ghost before = strs(texts@);
        texts.push(string_of(&t));
        assert(strs(texts@) =~= before.push(t@));
        assert(lv.take(i + 1) =~= lv.take(i as int).push(lv[i as int]));
        i = i + 1;
    }
    assert(lv.take(ls.len() as int) =~= lv);
    join_strings(&texts, "\n")
}

/// Where the first space of `s` is (its length when there is none).
pub open spec fn space_at(s: Seq<char>) -> nat
    decreases s.len(),
{
    if s.len() == 0 || s[0] == ' ' {
        0
    } else {
        1 + space_at(s.drop_first())
    }
}

proof fn lemma_space_at_is(s: Seq<char>, j: int)
    requires
        0 <= j <= s.len(),
        forall|m: int| 0 <= m < j ==> (#[trigger] s[m]) != ' ',
        j == s.len() || s[j] == ' ',
    ensures
        space_at(s) == j,
    decreases s.len(),
{
    if s.len() > 0 && j > 0 {
        assert forall|m: int| 0 <= m < j - 1 implies (#[trigger] s.drop_first()[m]) != ' ' by {
            assert(s.drop_first()[m] == s[m + 1]);
        }
        lemma_space_at_is(s.drop_first(), j - 1);
    }
}

/// The pieces `split_inclusive(' ')` cuts `s` into: each ends at, and
/// keeps, a space; the last may have none.
pub open spec fn chunks(s: Seq<char>) -> Seq<Seq<char>>
    decreases s.len(),
{
    if s.len() == 0 {
        Seq::empty()
    } else {
        let k = space_at(s);
        if k >= s.len() {
            seq![s]
        } else {
            seq![s.take(k + 1 as int)] + chunks(s.skip(k + 1 as int))
        }
    }
}

/// Cuts text as `split_inclusive(' ')` does.
fn split_at_spaces(s: &Vec<char>) -> (r: Vec<Vec<char>>)
    ensures
        r@.map_values(|l: Vec<char>| l@) == chunks(s@),
{
    let n = s.len();
    let mut r: Vec<Vec<char>> = Vec::new();
    let mut start: usize = 0;
    assert(s@.skip(0) =~= s@);
    assert(r@.map_values(|l: Vec<char>| l@) + chunks(s@) =~= chunks(s@));
    while start < n
        invariant
            n == s@.len(),
            start <= n,
            r@.map_values(|l: Vec<char>| l@) + chunks(s@.skip(start as int)) == chunks(s@),
        decreases n - start,
    {
        let ghost rest = s@.skip(start as int);
        let mut j: usize = start;
        while j < n && s[j] != ' '
            invariant
                start <= j <= n == s@.len(),
                forall|m: int| start <= m < j ==> s@[m] != ' ',
            decreases n - j,
        {
            j = j + 1;
        }
        proof {
            assert forall|m: int| 0 <= m < j - start implies (#[trigger] rest[m]) != ' ' by {
                assert(rest[m] == s@[m + start]);
            }
            if j < n {
                assert(rest[j - start] == s@[j as int]);
            }
            lemma_space_at_is(rest, j - start);
        }
        let ghost before = r@.map_values(|l: Vec<char>| l@);
        if j == n {
            let piece = slice(s, start, n);
            assert(piece@ =~= rest);
            r.push(piece);
            assert(r@.map_values(|l: Vec<char>| l@) =~= before.push(rest));
            assert(s@.skip(n as int) =~= Seq::<char>::empty());
            assert(chunks(rest) =~= seq![rest]);
            start = n;
        } else {
            let piece = slice(s, start, j + 1);
            assert(piece@ =~= rest.take(j - start + 1));
            r.push(piece);
            assert(r@.map_values(|l: Vec<char>| l@) =~= before.push(rest.take(j - start + 1)));
            assert(rest.skip(j - start + 1) =~= s@.skip(j + 1));
            assert(chunks(rest) =~= seq![rest.take(j - start + 1)] + chunks(s@.skip(j + 1)));
            start = j + 1;
        }
    }
    assert(s@.skip(n as int) =~= Seq::<char>::empty());
    assert(r@.map_values(|l: Vec<char>| l@) =~= chunks(s@));
    r
}

/// The chunks of one span, each in the span's tone.
pub open spec fn span_pieces(sp: (Seq<char>, Tone)) -> Seq<(Seq<char>, Tone)> {
    chunks(sp.0).map_values(|c: Seq<char>| (c, sp.1))
}

/// The chunks of every span, in order.
pub open spec fn pieces(l: Seq<(Seq<char>, Tone)>) -> Seq<(Seq<char>, Tone)>
    decreases l.len(),
{
    if l.len() == 0 {
        Seq::empty()
    } else {
        pieces(l.drop_last()) + span_pieces(l.last())
    }
}

/// How many columns a chunk takes before its trailing spaces.
pub open spec fn visible(c: Seq<char>) -> nat {
    trim_end_class(c, CharClass::Blank).len()
}

/// Ends a wrapped line: its last span loses its trailing spaces, since a
/// break falls on a space.
pub open spec fn flush(out: Seq<Seq<(Seq<char>, Tone)>>, cur: Seq<(Seq<char>, Tone)>) -> Seq<
    Seq<(Seq<char>, Tone)>,
> {
    out.push(
        cur.update(cur.len() - 1, (trim_end_class(cur.last().0, CharClass::Blank), cur.last().1)),
    )
}

/// One step of the re-flow: a chunk that would overshoot the width starts a
/// new line (re-indented), unless the line is still empty.
pub open spec fn wrap_step(
    st: (Seq<Seq<(Seq<char>, Tone)>>, Seq<(Seq<char>, Tone)>, nat),
    p: (Seq<char>, Tone),
    width: nat,
    indent: Seq<char>,
) -> (Seq<Seq<(Seq<char>, Tone)>>, Seq<(Seq<char>, Tone)>, nat) {
    let out = st.0;
    let cur = st.1;
    let used = st.2;
    if used + visible(p.0) > width && cur.len() > 0 {
        let fresh = if indent.len() > 0 {
            seq![(indent, Tone::Plain)]
        } else {
            Seq::empty()
        };
        (flush(out, cur), fresh.push(p), indent.len() + p.0.len())
    } else {
        (out, cur.push(p), used + p.0.len())
    }
}

/// The re-flow after the given chunks.
pub open spec fn wrap_fold(ps: Seq<(Seq<char>, Tone)>, width: nat, indent: Seq<char>) -> (
    Seq<Seq<(Seq<char>, Tone)>>,
    Seq<(Seq<char>, Tone)>,
    nat,
)
    decreases ps.len(),
{
    if ps.len() == 0 {
        (Seq::empty(), Seq::empty(), 0)
    } else {
        wrap_step(wrap_fold(ps.drop_last(), width, indent), ps.last(), width, indent)
    }
}

/// The columns a line takes.
pub open spec fn line_width(l: Seq<(Seq<char>, Tone)>) -> nat {
    line_text(l).len()
}

/// The indent continuations get: the first span's leading spaces, unless
/// that is half the width or more.
pub open spec fn wrap_indent(l: Seq<(Seq<char>, Tone)>, width: nat) -> Seq<char> {
    let ind = if l.len() == 0 {
        Seq::empty()
    } else {
        l[0].0.take(lead(l[0].0, CharClass::Blank) as int)
    };
    if ind.len() >= width / 2 {
        Seq::empty()
    } else {
        ind
    }
}

/// A line re-flowed to `width`: untouched when it fits (or the width is
/// zero); otherwise broken at spaces, every span keeping its tone, and
/// continuations re-indented.
pub open spec fn wrap_spec(l: Seq<(Seq<char>, Tone)>, width: nat) -> Seq<Seq<(Seq<char>, Tone)>> {
    if width == 0 || line_width(l) <= width {
        seq![l]
    } else {
        let st = wrap_fold(pieces(l), width, wrap_indent(l, width));
        if st.1.len() > 0 {
            flush(st.0, st.1)
        } else {
            st.0
        }
    }
}

/// The spans of a line as their views.
pub open spec fn spans_view(v: Seq<Span>) -> Seq<(Seq<char>, Tone)> {
    v.map_values(|s: Span| span_view(s))
}

/// The pieces of a line, each as characters and a tone.
fn line_pieces(l: &Line) -> (r: Vec<(Vec<char>, Tone)>)
    ensures
        r@.map_values(|p: (Vec<char>, Tone)| (p.0@, p.1)) == pieces(line_view(*l)),
{
    let ghost lv = line_view(*l);
    let mut r: Vec<(Vec<char>, Tone)> = Vec::new();
    let mut i: usize = 0;
    while i < l.spans.len()
        invariant
            i <= l.spans@.len(),
            lv == line_view(*l),
            r@.map_values(|p: (Vec<char>, Tone)| (p.0@, p.1)) == pieces(lv.take(i as int)),
        decreases l.spans.len() - i,
    {
        let sp = &l.spans[i];
        assert(lv.take(i + 1).drop_last() =~= lv.take(i as int));
        assert(lv.take(i + 1).last() == (sp.text@, sp.tone));
        let cs = split_at_spaces(&chars_of(sp.text.as_str()));
        let ghost cv = cs@.map_values(|c: Vec<char>| c@);
        let ghost start = r@.map_values(|p: (Vec<char>, Tone)| (p.0@, p.1));
        let mut k: usize = 0;
        while k < cs.len()
            invariant
                k <= cs@.len(),
                cv == cs@.map_values(|c: Vec<char>| c@),
                cv == chunks(sp.text@),
                r@.map_values(|p: (Vec<char>, Tone)| (p.0@, p.1)) == start + cv.take(k as int).map_values(
                    |c: Seq<char>| (c, sp.tone),
                ),
            decreases cs.len() - k,
        {
            let ghost before = r@.map_values(|p: (Vec<char>, Tone)| (p.0@, p.1));
            r.push((cs[k].clone(), sp.tone));
            assert(r@.map_values(|p: (Vec<char>, Tone)| (p.0@, p.1)) =~= before.push((cv[k as int], sp.tone)));
            assert(cv.take(k + 1).map_values(|c: Seq<char>| (c, sp.tone)) =~= cv.take(k as int).map_values(
                |c: Seq<char>| (c, sp.tone),
            ).push((cv[k as int], sp.tone)));
            k = k + 1;
        }
        assert(cv.take(cs.len() as int) =~= cv);
        i = i + 1;
    }
    assert(lv.take(l.spans.len() as int) =~= lv);
    r
}

/// Ends the line being built and starts an empty one.
fn flush_line(cur: &mut Vec<Span>, out: &mut Vec<Line>)
    requires
        old(cur)@.len() > 0,
    ensures
        lines_view(final(out)@) =~~= flush(lines_view(old(out)@), spans_view(old(cur)@)),
        final(cur)@.len() == 0,
{
    let ghost cv = spans_view(cur@);
    let last = cur.pop().unwrap();
    let t = trim_end_chars(&chars_of(last.text.as_str()), CharClass::Blank);
    cur.push(mk_span(string_of(&t), last.tone));
    assert(spans_view(cur@) =~= cv.update(cv.len() - 1, (trim_end_class(cv.last().0, CharClass::Blank), cv.last().1)));
    let mut done: Vec<Span> = Vec::new();
    std::mem::swap(&mut done, cur);
    let l = line_of(done);
    assert(line_view(l) =~= spans_view(l.spans@));
    push_line(out, l);
}

/// The smaller of `a` and `cap`.
pub open spec fn capped(a: nat, cap: nat) -> nat {
    if a < cap {
        a
    } else {
        cap
    }
}

/// Re-flows one line to `width`, keeping every span's tone and re-indenting
/// continuations, so that a gutter can be put before each wrapped line and
/// the rows on screen can be counted exactly.
pub fn wrap_line(line: Line, width: usize) -> (r: Vec<Line>)
    ensures
        lines_view(r@) =~~= wrap_spec(line_view(line), width as nat),
{
    let ghost lv = line_view(line);
    let cap: u128 = width as u128 + 1;
    let mut total: u128 = 0;
    let mut i: usize = 0;
    while i < line.spans.len()
        invariant
            i <= line.spans@.len(),
            lv == line_view(line),
            cap == width + 1,
            total == capped(line_text(lv.take(i as int)).len(), cap as nat),
        decreases line.spans.len() - i,
    {
        assert(lv.take(i + 1).drop_last() =~= lv.take(i as int));
        let n = chars_of(line.spans[i].text.as_str()).len() as u128;
        total = if total + n > cap {
            cap
        } else {
            total + n
        };
        i = i + 1;
    }
    assert(lv.take(line.spans.len() as int) =~= lv);
    if width == 0 || total <= width as u128 {
        let mut out: Vec<Line> = Vec::new();
        push_line(&mut out, line);
        return out;
    }
    let mut indent: Vec<char> = Vec::new();
    if line.spans.len() > 0 {
        let first = chars_of(line.spans[0].text.as_str());
        let mut a: usize = 0;
        while a < first.len() && first[a] == ' '
            invariant
                a <= first@.len(),
                forall|j: int| 0 <= j < a ==> crate::text::in_class(CharClass::Blank, #[trigger] first@[j]),
            decreases first.len() - a,
        {
            a = a + 1;
        }
        proof {
            lemma_lead_is(first@, CharClass::Blank, a as int);
        }
        indent = slice(&first, 0, a);
        assert(indent@ =~= first@.take(a as int));
    }
    if indent.len() >= width / 2 {
        indent = Vec::new();
    }
    let ghost ind = wrap_indent(lv, width as nat);
    assert(indent@ =~= ind);
    let ps = line_pieces(&line);
    let ghost pv = ps@.map_values(|p: (Vec<char>, Tone)| (p.0@, p.1));
    let mut out: Vec<Line> = Vec::new();
    let mut cur: Vec<Span> = Vec::new();
    let mut used: u128 = 0;
    let mut k: usize = 0;
    assert(lines_view(out@) =~= Seq::<Seq<(Seq<char>, Tone)>>::empty());
    assert(spans_view(cur@) =~= Seq::<(Seq<char>, Tone)>::empty());
    while k < ps.len()
        invariant
            k <= ps@.len(),
            pv == ps@.map_values(|p: (Vec<char>, Tone)| (p.0@, p.1)),
            pv == pieces(lv),
            indent@ == ind,
            cap == width + 1,
            width > 0,
            lines_view(out@) =~~= wrap_fold(pv.take(k as int), width as nat, ind).0,
            spans_view(cur@) =~= wrap_fold(pv.take(k as int), width as nat, ind).1,
            used == capped(wrap_fold(pv.take(k as int), width as nat, ind).2, cap as nat),
        decreases ps.len() - k,
    {
        assert(pv.take(k + 1).drop_last() =~= pv.take(k as int));
        let (chunk, tone) = &ps[k];
        assert(pv[k as int] == (chunk@, *tone));
        let vis = trim_end_chars(chunk, CharClass::Blank).len() as u128;
        let len = chunk.len() as u128;
        if used + vis > width as u128 && cur.len() > 0 {
            flush_line(&mut cur, &mut out);
            if indent.len() > 0 {
                cur.push(mk_span(string_of(&indent), Tone::Plain));
            }
            let il = indent.len() as u128;
            used = if il + len > cap {
                cap
            } else {
                il + len
            };
        } else {
            used = if used + len > cap {
                cap
            } else {
                used + len
            };
        }
        let ghost before = spans_view(cur@);
        cur.push(mk_span(string_of(chunk), *tone));
        assert(spans_view(cur@) =~= before.push((chunk@, *tone)));
        k = k + 1;
    }
    assert(pv.take(ps.len() as int) =~= pv);
    if cur.len() > 0 {
        flush_line(&mut cur, &mut out);
    }
    out
}

/// The label beside a block's header: its kind, and how long it took.
pub open spec fn meta_spec(b: Block) -> Seq<char> {
    "  "@ + body_kind(b.body) + if b.elapsed_ms > 0 {
        "  "@ + nat_text(b.elapsed_ms as nat) + "ms"@
    } else {
        Seq::empty()
    }
}

/// A block's header line: the fold caret, the header, the label, and the
/// status glyph; the focused block's caret and header stand out.
pub open spec fn header_line_spec(b: Block, focused: bool) -> Seq<(Seq<char>, Tone)> {
    seq![
        ((if b.collapsed {
            "▸"@
        } else {
            "▾"@
        }) + " "@, if focused {
            Tone::Accent
        } else {
            Tone::Dim
        }),
        (header_spec(b), if focused {
            Tone::Title
        } else {
            Tone::Body
        }),
        (meta_spec(b), Tone::Dim),
        ("  "@, Tone::Plain),
        glyph_spec(body_status(b.body)),
    ]
}

/// The gutter before each body line: a bar in the accent for the focused
/// block, a dim rule otherwise.
pub open spec fn gutter_spec(focused: bool) -> (Seq<char>, Tone) {
    if focused {
        ("  ┃ "@, Tone::Accent)
    } else {
        ("  │ "@, Tone::Dim)
    }
}

/// Each line re-flowed to `w`, with the gutter before every wrapped line.
pub open spec fn guttered(
    ls: Seq<Seq<(Seq<char>, Tone)>>,
    w: nat,
    g: (Seq<char>, Tone),
) -> Seq<Seq<(Seq<char>, Tone)>>
    decreases ls.len(),
{
    if ls.len() == 0 {
        Seq::empty()
    } else {
        guttered(ls.drop_last(), w, g) + wrap_spec(ls.last(), w).map_values(
            |x: Seq<(Seq<char>, Tone)>| seq![g] + x,
        )
    }
}

/// A block as lines: the header, then (unless folded) the body behind its
/// gutter, re-flowed to what is left of `width`, then a spacer.
pub open spec fn block_spec(b: Block, focused: bool, width: u16) -> Seq<Seq<(Seq<char>, Tone)>> {
    seq![header_line_spec(b, focused)] + (if b.collapsed {
        Seq::empty()
    } else {
        guttered(
            context_spec(b),
            if width >= 4 {
                (width - 4) as nat
            } else {
                0
            },
            gutter_spec(focused),
        )
    }) + seq![blank()]
}

/// One block, gutter and all. `width` is the room for the block, gutter
/// included.
pub fn block_lines(block: &Block, focused: bool, width: u16) -> (out: Vec<Line>)
    ensures
        lines_view(out@) =~~= block_spec(*block, focused, width),
{
    let mut caret: Vec<char> = Vec::new();
    push_str(&mut caret, if block.collapsed {
        "▸"
    } else {
        "▾"
    });
    push_str(&mut caret, " ");
    let mut head = line1(string_of(&caret), if focused {
        Tone::Accent
    } else {
        Tone::Dim
    });
    push_span(&mut head, header_text(block), if focused {
        Tone::Title
    } else {
        Tone::Body
    });
    let mut meta: Vec<char> = Vec::new();
    push_str(&mut meta, "  ");
    push_str(&mut meta, block.body.kind());
    if block.elapsed_ms > 0 {
        push_str(&mut meta, "  ");
        push_string(&mut meta, &u128_text(block.elapsed_ms));
        push_str(&mut meta, "ms");
    }
    push_span(&mut head, string_of(&meta), Tone::Dim);
    push_span(&mut head, owned("  "), Tone::Plain);
    let g = status_glyph(block.status());
    push_span(&mut head, g.text, g.tone);
    let mut out: Vec<Line> = Vec::new();
    push_line(&mut out, head);
    assert(lines_view(out@) =~~= seq![header_line_spec(*block, focused)]);
    if !block.collapsed {
        let w: usize = if width >= 4 {
            (width - 4) as usize
        } else {
            0
        };
        let ghost gs = gutter_spec(focused);
        let mut ls = body_lines_in_context(block);
        let ghost all = lines_view(ls@);
        let ghost head_view = lines_view(out@);
        let n = ls.len();
        let mut i: usize = 0;
        assert(lines_view(out@) =~~= head_view + guttered(all.take(0), w as nat, gs));
        while i < n
            invariant
                n == all.len(),
                i <= n,
                lines_view(ls@) =~= all.skip(i as int),
                ls@.len() == n - i,
                gs == gutter_spec(focused),
                lines_view(out@) =~~= head_view + guttered(all.take(i as int), w as nat, gs),
            decreases n - i,
        {
            let ghost rest = lines_view(ls@);
            let ghost old_ls = ls@;
            let line = ls.remove(0);
            assert(line_view(line) == all[i as int]) by {
                assert(rest[0] == all[i as int]);
            }
            assert(lines_view(ls@) =~= all.skip(i + 1)) by {
                assert forall|m: int| 0 <= m < ls@.len() implies lines_view(ls@)[m] == all.skip(i + 1)[m] by {
                    assert(ls@[m] == old_ls[m + 1]);
                    assert(rest[m + 1] == line_view(old_ls[m + 1]));
                }
            }
            assert(all.take(i + 1).drop_last() =~= all.take(i as int));
            let wrapped = wrap_line(line, w);
            let ghost wv = lines_view(wrapped@);
            let ghost before = lines_view(out@);
            let mut k: usize = 0;
            while k < wrapped.len()
                invariant
                    k <= wrapped@.len(),
                    wv == lines_view(wrapped@),
                    gs == gutter_spec(focused),
                    lines_view(out@) =~~= before + wv.take(k as int).map_values(
                        |x: Seq<(Seq<char>, Tone)>| seq![gs] + x,
                    ),
                decreases wrapped.len() - k,
            {
                let mut l = line1(
                    owned(if focused {
                        "  ┃ "
                    } else {
                        "  │ "
                    }),
                    if focused {
                        Tone::Accent
                    } else {
                        Tone::Dim
                    },
                );
                let src = &wrapped[k];
                let mut m: usize = 0;
                while m < src.spans.len()
                    invariant
                        m <= src.spans@.len(),
                        line_view(l) =~= seq![gs] + line_view(*src).take(m as int),
                    decreases src.spans.len() - m,
                {
                    push_span(&mut l, src.spans[m].text.clone(), src.spans[m].tone);
                    assert(line_view(*src).take(m + 1) =~= line_view(*src).take(m as int).push(
                        line_view(*src)[m as int],
                    ));
                    m = m + 1;
                }
                assert(line_view(*src).take(src.spans.len() as int) =~= line_view(*src));
                push_line(&mut out, l);
                assert(wv.take(k + 1).map_values(|x: Seq<(Seq<char>, Tone)>| seq![gs] + x)
                    =~~= wv.take(k as int).map_values(|x: Seq<(Seq<char>, Tone)>| seq![gs] + x).push(
                    seq![gs] + wv[k as int],
                ));
                k = k + 1;
            }
            assert(wv.take(wrapped.len() as int) =~= wv);
            assert(wv =~~= wrap_spec(all[i as int], w as nat));
            i = i + 1;
        }
        assert(all.take(n as int) =~= all);
    }
    push_line(&mut out, blank_line());
    out
}

/// A line that fits the width (or any line, at width zero) comes back as it
/// was, in one piece.
pub proof fn law_short_line_untouched(l: Seq<(Seq<char>, Tone)>, width: nat)
    requires
        width == 0 || line_width(l) <= width,
    ensures
        wrap_spec(l, width) == seq![l],
{
}

/// Some span of `l` is in tone `t`.
pub open spec fn tone_in(t: Tone, l: Seq<(Seq<char>, Tone)>) -> bool {
    exists|k: int| 0 <= k < l.len() && (#[trigger] l[k]).1 == t
}

/// A span of a re-flowed line: the plain indent of a continuation, or a
/// span in a tone the given line had.
pub open spec fn span_kept(x: (Seq<char>, Tone), l: Seq<(Seq<char>, Tone)>, indent: Seq<char>) -> bool {
    x == (indent, Tone::Plain) || tone_in(x.1, l)
}

/// The re-flow state holds only kept spans, and the line under way ends in
/// one of the given line's tones.
pub open spec fn fold_kept(
    st: (Seq<Seq<(Seq<char>, Tone)>>, Seq<(Seq<char>, Tone)>, nat),
    l: Seq<(Seq<char>, Tone)>,
    indent: Seq<char>,
) -> bool {
    &&& forall|j: int, m: int|
        0 <= j < st.0.len() && 0 <= m < st.0[j].len() ==> span_kept(#[trigger] st.0[j][m], l, indent)
    &&& forall|m: int| 0 <= m < st.1.len() ==> span_kept(#[trigger] st.1[m], l, indent)
    &&& st.1.len() > 0 ==> tone_in(st.1.last().1, l)
}

proof fn lemma_pieces_tones(l: Seq<(Seq<char>, Tone)>)
    ensures
        forall|i: int| 0 <= i < pieces(l).len() ==> tone_in((#[trigger] pieces(l)[i]).1, l),
    decreases l.len(),
{
    if l.len() > 0 {
        let p = l.drop_last();
        lemma_pieces_tones(p);
        let a = pieces(p);
        let b = span_pieces(l.last());
        assert forall|i: int| 0 <= i < pieces(l).len() implies tone_in((#[trigger] pieces(l)[i]).1, l) by {
            if i < a.len() {
                assert(pieces(l)[i] == a[i]);
                let k = choose|k: int| 0 <= k < p.len() && (#[trigger] p[k]).1 == a[i].1;
                assert(l[k] == p[k]);
            } else {
                assert(pieces(l)[i] == b[i - a.len()]);
                assert(b[i - a.len()].1 == l.last().1);
                assert(l[l.len() - 1] == l.last());
            }
        }
    }
}

proof fn lemma_fold_kept(ps: Seq<(Seq<char>, Tone)>, width: nat, indent: Seq<char>, l: Seq<(Seq<char>, Tone)>)
    requires
        forall|i: int| 0 <= i < ps.len() ==> tone_in((#[trigger] ps[i]).1, l),
    ensures
        fold_kept(wrap_fold(ps, width, indent), l, indent),
    decreases ps.len(),
{
    if ps.len() > 0 {
        let q = ps.drop_last();
        assert forall|i: int| 0 <= i < q.len() implies tone_in((#[trigger] q[i]).1, l) by {
            assert(q[i] == ps[i]);
        }
        lemma_fold_kept(q, width, indent, l);
        let st = wrap_fold(q, width, indent);
        let p = ps.last();
        assert(tone_in(ps[ps.len() - 1].1, l));
        let out = st.0;
        let cur = st.1;
        let nx = wrap_fold(ps, width, indent);
        if st.2 + visible(p.0) > width && cur.len() > 0 {
            let last = cur.update(
                cur.len() - 1,
                (trim_end_class(cur.last().0, CharClass::Blank), cur.last().1),
            );
            assert(nx.0 == out.push(last));
            assert forall|j: int, m: int| 0 <= j < nx.0.len() && 0 <= m < nx.0[j].len() implies span_kept(
                #[trigger] nx.0[j][m],
                l,
                indent,
            ) by {
                if j < out.len() {
                    assert(nx.0[j] == out[j]);
                } else if m < cur.len() - 1 {
                    assert(nx.0[j][m] == cur[m]);
                } else {
                    assert(nx.0[j][m].1 == cur.last().1);
                }
            }
            let fresh: Seq<(Seq<char>, Tone)> = if indent.len() > 0 {
                seq![(indent, Tone::Plain)]
            } else {
                Seq::empty()
            };
            assert(nx.1 == fresh.push(p));
            assert forall|m: int| 0 <= m < nx.1.len() implies span_kept(#[trigger] nx.1[m], l, indent) by {
                if m < fresh.len() {
                    assert(nx.1[m] == (indent, Tone::Plain));
                }
            }
        } else {
            assert(nx.0 == out);
            assert(nx.1 == cur.push(p));
            assert forall|m: int| 0 <= m < nx.1.len() implies span_kept(#[trigger] nx.1[m], l, indent) by {
                if m < cur.len() {
                    assert(nx.1[m] == cur[m]);
                }
            }
        }
    }
}

/// Re-flowing keeps the style of every span: each span of each wrapped line
/// is in a tone of the given line, or is the plain indent that starts a
/// continuation.
pub proof fn law_wrap_keeps_tones(l: Seq<(Seq<char>, Tone)>, width: nat)
    ensures
        forall|j: int, m: int|
            0 <= j < wrap_spec(l, width).len() && 0 <= m < wrap_spec(l, width)[j].len()
                ==> span_kept(#[trigger] wrap_spec(l, width)[j][m], l, wrap_indent(l, width)),
{
    let w = wrap_spec(l, width);
    let indent = wrap_indent(l, width);
    if width == 0 || line_width(l) <= width {
        assert forall|j: int, m: int| 0 <= j < w.len() && 0 <= m < w[j].len() implies span_kept(
            #[trigger] w[j][m],
            l,
            indent,
        ) by {
            assert(w[j] == l);
            assert(tone_in(l[m].1, l));
        }
    } else {
        lemma_pieces_tones(l);
        lemma_fold_kept(pieces(l), width, indent, l);
        let st = wrap_fold(pieces(l), width, indent);
        if st.1.len() > 0 {
            let cur = st.1;
            assert forall|j: int, m: int| 0 <= j < w.len() && 0 <= m < w[j].len() implies span_kept(
                #[trigger] w[j][m],
                l,
                indent,
            ) by {
                if j < st.0.len() {
                    assert(w[j] == st.0[j]);
                } else if m < cur.len() - 1 {
                    assert(w[j][m] == cur[m]);
                } else {
                    assert(w[j][m].1 == cur.last().1);
                }
            }
        }
    }
}

/// Every body line of a block keeps the gutter: each re-flowed line starts
/// with the gutter span.
pub proof fn law_body_lines_keep_gutter(
    ls: Seq<Seq<(Seq<char>, Tone)>>,
    w: nat,
    g: (Seq<char>, Tone),
)
    ensures
        forall|j: int| 0 <= j < guttered(ls, w, g).len() ==> (#[trigger] guttered(ls, w, g)[j]).len()
            > 0 && guttered(ls, w, g)[j][0] == g,
    decreases ls.len(),
{
    if ls.len() > 0 {
        law_body_lines_keep_gutter(ls.drop_last(), w, g);
        let a = guttered(ls.drop_last(), w, g);
        let b = wrap_spec(ls.last(), w).map_values(|x: Seq<(Seq<char>, Tone)>| seq![g] + x);
        let r = guttered(ls, w, g);
        assert forall|j: int| 0 <= j < r.len() implies (#[trigger] r[j]).len() > 0 && r[j][0] == g by {
            if j < a.len() {
                assert(r[j] == a[j]);
            } else {
                assert(r[j] == b[j - a.len()]);
            }
        }
    }
}

/// The lines of every block in order, each drawn focused when it is the
/// focused one.
pub open spec fn blocks_lines(bs: Seq<Block>, focus: Option<usize>, width: u16) -> Seq<Seq<(Seq<char>, Tone)>>
    decreases bs.len(),
{
    if bs.len() == 0 {
        Seq::empty()
    } else {
        blocks_lines(bs.drop_last(), focus, width) + block_spec(
            bs.last(),
            focus == Some((bs.len() - 1) as usize),
            width,
        )
    }
}

/// Every block of the console as lines, `width` wide: exactly the rows
/// the view draws, so the scroll offset is never a guess.
pub fn all_lines(blocks: &Vec<Block>, focus: Option<usize>, width: u16) -> (out: Vec<Line>)
    ensures
        lines_view(out@) =~~= blocks_lines(blocks@, focus, width),
{
    let mut out: Vec<Line> = Vec::new();
    let mut i: usize = 0;
    while i < blocks.len()
        invariant
            i <= blocks@.len(),
            lines_view(out@) =~~= blocks_lines(blocks@.take(i as int), focus, width),
        decreases blocks.len() - i,
    {
        assert(blocks@.take(i + 1).drop_last() =~= blocks@.take(i as int));
        let focused = match focus {
            Some(f) => f == i,
            None => false,
        };
        let ls = block_lines(&blocks[i], focused, width);
        let ghost before = lines_view(out@);
        let mut m = ls;
        out.append(&mut m);
        assert(lines_view(out@) =~~= before + block_spec(blocks@[i as int], focused, width));
        i = i + 1;
    }
    assert(blocks@.take(blocks.len() as int) =~= blocks@);
    out
}

proof fn lemma_line_width_push(s: Seq<(Seq<char>, Tone)>, x: (Seq<char>, Tone))
    ensures
        line_width(s.push(x)) == line_width(s) + x.0.len(),
{
    assert(s.push(x).drop_last() =~= s);
}

proof fn lemma_line_width_last(s: Seq<(Seq<char>, Tone)>, x: (Seq<char>, Tone))
    requires
        s.len() > 0,
    ensures
        line_width(s.update(s.len() - 1, x)) == line_width(s) - s.last().0.len() + x.0.len(),
{
    assert(s.update(s.len() - 1, x).drop_last() =~= s.drop_last());
}

/// The re-flow so far keeps every finished line within the width, and the
/// line under way would fit once its trailing spaces go; `used` is its
/// width.
pub open spec fn fold_fits(
    st: (Seq<Seq<(Seq<char>, Tone)>>, Seq<(Seq<char>, Tone)>, nat),
    width: nat,
) -> bool {
    &&& forall|j: int| 0 <= j < st.0.len() ==> line_width(#[trigger] st.0[j]) <= width
    &&& st.2 == line_width(st.1)
    &&& st.1.len() > 0 ==> line_width(st.1) - st.1.last().0.len() + visible(st.1.last().0) <= width
}

proof fn lemma_fold_fits(ps: Seq<(Seq<char>, Tone)>, width: nat, indent: Seq<char>)
    requires
        indent.len() == 0 || indent.len() < width / 2,
        forall|i: int| 0 <= i < ps.len() ==> visible((#[trigger] ps[i]).0) <= width / 2,
    ensures
        fold_fits(wrap_fold(ps, width, indent), width),
    decreases ps.len(),
{
    if ps.len() > 0 {
        let q = ps.drop_last();
        assert forall|i: int| 0 <= i < q.len() implies visible((#[trigger] q[i]).0) <= width / 2 by {
            assert(q[i] == ps[i]);
        }
        lemma_fold_fits(q, width, indent);
        let st = wrap_fold(q, width, indent);
        let p = ps.last();
        assert(visible(ps[ps.len() - 1].0) <= width / 2);
        let out = st.0;
        let cur = st.1;
        let nx = wrap_fold(ps, width, indent);
        if st.2 + visible(p.0) > width && cur.len() > 0 {
            let last = (trim_end_class(cur.last().0, CharClass::Blank), cur.last().1);
            let flushed = cur.update(cur.len() - 1, last);
            lemma_line_width_last(cur, last);
            assert(nx.0 == out.push(flushed));
            assert forall|j: int| 0 <= j < nx.0.len() implies line_width(#[trigger] nx.0[j]) <= width by {
                if j < out.len() {
                    assert(nx.0[j] == out[j]);
                }
            }
            let fresh: Seq<(Seq<char>, Tone)> = if indent.len() > 0 {
                seq![(indent, Tone::Plain)]
            } else {
                Seq::empty()
            };
            lemma_line_width_push(fresh, p);
            if indent.len() > 0 {
                lemma_line_width_push(Seq::empty(), (indent, Tone::Plain));
                assert(Seq::<(Seq<char>, Tone)>::empty().push((indent, Tone::Plain)) =~= fresh);
            }
            assert(line_width(Seq::<(Seq<char>, Tone)>::empty()) == 0);
            assert(nx.1 == fresh.push(p));
            assert(nx.1.last() == p);
        } else {
            lemma_line_width_push(cur, p);
            assert(nx.1 == cur.push(p));
            assert(nx.1.last() == p);
        }
    }
}

proof fn lemma_indent_short(l: Seq<(Seq<char>, Tone)>, width: nat)
    ensures
        wrap_indent(l, width).len() == 0 || wrap_indent(l, width).len() < width / 2,
{
}

/// Words at most half the width wrap within it: when no chunk of the line
/// (a word with the spaces after it) is wider, without its trailing
/// spaces, than half the width, every line re-flowing gives is at most the
/// width wide.
pub proof fn law_wrapped_lines_fit(l: Seq<(Seq<char>, Tone)>, width: nat)
    requires
        width > 0,
        forall|i: int| 0 <= i < pieces(l).len() ==> visible((#[trigger] pieces(l)[i]).0) <= width / 2,
    ensures
        forall|j: int| 0 <= j < wrap_spec(l, width).len() ==> line_width(#[trigger] wrap_spec(l, width)[j]) <= width,
{
    let w = wrap_spec(l, width);
    if line_width(l) > width {
        let indent = wrap_indent(l, width);
        lemma_indent_short(l, width);
        lemma_fold_fits(pieces(l), width, indent);
        let st = wrap_fold(pieces(l), width, indent);
        if st.1.len() > 0 {
            let cur = st.1;
            let last = (trim_end_class(cur.last().0, CharClass::Blank), cur.last().1);
            lemma_line_width_last(cur, last);
            assert forall|j: int| 0 <= j < w.len() implies line_width(#[trigger] w[j]) <= width by {
                if j < st.0.len() {
                    assert(w[j] == st.0[j]);
                }
            }
        }
    }
}

/// `s` without its spaces.
pub open spec fn unspaced(s: Seq<char>) -> Seq<char>
    decreases s.len(),
{
    if s.len() == 0 {
        s
    } else if s.last() == ' ' {
        unspaced(s.drop_last())
    } else {
        unspaced(s.drop_last()).push(s.last())
    }
}

/// The text of the lines, one after the other.
pub open spec fn lines_text(ls: Seq<Seq<(Seq<char>, Tone)>>) -> Seq<char>
    decreases ls.len(),
{
    if ls.len() == 0 {
        Seq::empty()
    } else {
        lines_text(ls.drop_last()) + line_text(ls.last())
    }
}

proof fn lemma_unspaced_concat(a: Seq<char>, b: Seq<char>)
    ensures
        unspaced(a + b) == unspaced(a) + unspaced(b),
    decreases b.len(),
{
    if b.len() == 0 {
        assert(a + b =~= a);
        assert(unspaced(a) + unspaced(b) =~= unspaced(a));
    } else {
        lemma_unspaced_concat(a, b.drop_last());
        assert((a + b).drop_last() =~= a + b.drop_last());
        assert((a + b).last() == b.last());
        if b.last() != ' ' {
            assert(unspaced(a) + unspaced(b.drop_last()).push(b.last()) =~= (unspaced(a) + unspaced(
                b.drop_last(),
            )).push(b.last()));
        }
    }
}

proof fn lemma_unspaced_blank(s: Seq<char>)
    requires
        forall|i: int| 0 <= i < s.len() ==> s[i] == ' ',
    ensures
        unspaced(s) == Seq::<char>::empty(),
    decreases s.len(),
{
    if s.len() > 0 {
        lemma_unspaced_blank(s.drop_last());
    }
}

proof fn lemma_unspaced_trim(c: Seq<char>)
    ensures
        unspaced(trim_end_class(c, CharClass::Blank)) == unspaced(c),
{
    lemma_trail_facts(c, CharClass::Blank);
    let k = c.len() - trail(c, CharClass::Blank);
    let tail = c.skip(k);
    assert forall|i: int| 0 <= i < tail.len() implies tail[i] == ' ' by {
        assert(tail[i] == c[i + k]);
        assert(crate::text::in_class(CharClass::Blank, c[i + k]));
    }
    lemma_unspaced_blank(tail);
    assert(c.take(k) + tail =~= c);
    lemma_unspaced_concat(c.take(k), tail);
}

proof fn lemma_lines_text_push(ls: Seq<Seq<(Seq<char>, Tone)>>, x: Seq<(Seq<char>, Tone)>)
    ensures
        lines_text(ls.push(x)) == lines_text(ls) + line_text(x),
{
    assert(ls.push(x).drop_last() =~= ls);
}

proof fn lemma_line_text_push(s: Seq<(Seq<char>, Tone)>, x: (Seq<char>, Tone))
    ensures
        line_text(s.push(x)) == line_text(s) + x.0,
{
    assert(s.push(x).drop_last() =~= s);
}

proof fn lemma_line_text_concat(a: Seq<(Seq<char>, Tone)>, b: Seq<(Seq<char>, Tone)>)
    ensures
        line_text(a + b) == line_text(a) + line_text(b),
    decreases b.len(),
{
    if b.len() == 0 {
        assert(a + b =~= a);
        assert(line_text(a) + line_text(b) =~= line_text(a));
    } else {
        lemma_line_text_concat(a, b.drop_last());
        assert((a + b).drop_last() =~= a + b.drop_last());
        assert((a + b).last() == b.last());
        assert(line_text(a) + (line_text(b.drop_last()) + b.last().0) =~= (line_text(a) + line_text(
            b.drop_last(),
        )) + b.last().0);
    }
}

proof fn lemma_line_text_one(x: (Seq<char>, Tone))
    ensures
        line_text(seq![x]) == x.0,
{
    assert(seq![x].drop_last() =~= Seq::<(Seq<char>, Tone)>::empty());
    assert(seq![x].last() == x);
    assert(line_text(Seq::<(Seq<char>, Tone)>::empty()) == Seq::<char>::empty());
    assert(Seq::<char>::empty() + x.0 =~= x.0);
}

/// The chunks of a span, end to end, are its text.
proof fn lemma_span_pieces_text(s: Seq<char>, t: Tone)
    ensures
        line_text(span_pieces((s, t))) == s,
    decreases s.len(),
{
    let f = |c: Seq<char>| (c, t);
    if s.len() == 0 {
        assert(span_pieces((s, t)) =~= Seq::<(Seq<char>, Tone)>::empty());
        assert(s =~= Seq::<char>::empty());
    } else {
        let k = space_at(s);
        if k >= s.len() {
            assert(span_pieces((s, t)) =~= seq![(s, t)]);
            lemma_line_text_one((s, t));
        } else {
            let head = s.take(k + 1 as int);
            let rest = s.skip(k + 1 as int);
            lemma_span_pieces_text(rest, t);
            assert(chunks(s) == seq![head] + chunks(rest));
            assert(span_pieces((s, t)) =~= seq![(head, t)] + span_pieces((rest, t)));
            lemma_line_text_concat(seq![(head, t)], span_pieces((rest, t)));
            lemma_line_text_one((head, t));
            assert(head + rest =~= s);
        }
    }
}

/// The pieces of a line, end to end, are its text.
proof fn lemma_pieces_text(l: Seq<(Seq<char>, Tone)>)
    ensures
        line_text(pieces(l)) == line_text(l),
    decreases l.len(),
{
    if l.len() > 0 {
        lemma_pieces_text(l.drop_last());
        lemma_line_text_concat(pieces(l.drop_last()), span_pieces(l.last()));
        lemma_span_pieces_text(l.last().0, l.last().1);
    }
}

/// A flushed line differs from the line under way in spaces alone.
proof fn lemma_flush_unspaced(cur: Seq<(Seq<char>, Tone)>)
    requires
        cur.len() > 0,
    ensures
        unspaced(line_text(cur.update(cur.len() - 1, (trim_end_class(cur.last().0, CharClass::Blank), cur.last().1))))
            == unspaced(line_text(cur)),
{
    let x = (trim_end_class(cur.last().0, CharClass::Blank), cur.last().1);
    let u = cur.update(cur.len() - 1, x);
    assert(u.drop_last() =~= cur.drop_last());
    lemma_unspaced_concat(line_text(cur.drop_last()), x.0);
    lemma_unspaced_concat(line_text(cur.drop_last()), cur.last().0);
    lemma_unspaced_trim(cur.last().0);
}

/// The re-flow so far holds the text of the chunks taken, but for spaces.
proof fn lemma_fold_text(ps: Seq<(Seq<char>, Tone)>, width: nat, indent: Seq<char>)
    requires
        forall|i: int| 0 <= i < indent.len() ==> indent[i] == ' ',
    ensures
        unspaced(lines_text(wrap_fold(ps, width, indent).0) + line_text(wrap_fold(ps, width, indent).1))
            == unspaced(line_text(ps)),
    decreases ps.len(),
{
    if ps.len() == 0 {
        assert(lines_text(Seq::<Seq<(Seq<char>, Tone)>>::empty()) + line_text(
            Seq::<(Seq<char>, Tone)>::empty(),
        ) =~= Seq::<char>::empty());
    } else {
        let q = ps.drop_last();
        lemma_fold_text(q, width, indent);
        let st = wrap_fold(q, width, indent);
        let p = ps.last();
        let out = st.0;
        let cur = st.1;
        let nx = wrap_fold(ps, width, indent);
        let a = lines_text(out);
        let c = line_text(cur);
        lemma_unspaced_concat(line_text(q), p.0);
        lemma_unspaced_concat(a, c);
        if st.2 + visible(p.0) > width && cur.len() > 0 {
            let flushed = cur.update(
                cur.len() - 1,
                (trim_end_class(cur.last().0, CharClass::Blank), cur.last().1),
            );
            let fresh: Seq<(Seq<char>, Tone)> = if indent.len() > 0 {
                seq![(indent, Tone::Plain)]
            } else {
                Seq::empty()
            };
            assert(nx.0 == out.push(flushed));
            assert(nx.1 == fresh.push(p));
            lemma_lines_text_push(out, flushed);
            lemma_line_text_push(fresh, p);
            lemma_flush_unspaced(cur);
            if indent.len() > 0 {
                lemma_line_text_one((indent, Tone::Plain));
            }
            assert(line_text(Seq::<(Seq<char>, Tone)>::empty()) =~= Seq::<char>::empty());
            lemma_unspaced_blank(line_text(fresh));
            let f = line_text(flushed);
            lemma_unspaced_concat(a, f);
            lemma_unspaced_concat(line_text(fresh), p.0);
            lemma_unspaced_concat(a + f, line_text(fresh) + p.0);
            assert(unspaced(line_text(fresh)) + unspaced(p.0) =~= unspaced(p.0));
            assert(unspaced(a) + unspaced(c) + unspaced(p.0) =~= unspaced(a) + (unspaced(c) + unspaced(p.0)));
        } else {
            assert(nx.0 == out);
            assert(nx.1 == cur.push(p));
            lemma_line_text_push(cur, p);
            lemma_unspaced_concat(a, c + p.0);
            lemma_unspaced_concat(c, p.0);
            assert(unspaced(a) + (unspaced(c) + unspaced(p.0)) =~= (unspaced(a) + unspaced(c)) + unspaced(p.0));
        }
    }
}

/// Re-flowing moves only spaces: the wrapped lines, end to end and with
/// their spaces taken out, hold the same characters as the given line with
/// its spaces taken out.
pub proof fn law_wrap_keeps_text(l: Seq<(Seq<char>, Tone)>, width: nat)
    ensures
        unspaced(lines_text(wrap_spec(l, width))) == unspaced(line_text(l)),
{
    let w = wrap_spec(l, width);
    if width == 0 || line_width(l) <= width {
        lemma_lines_text_push(Seq::empty(), l);
        assert(Seq::<Seq<(Seq<char>, Tone)>>::empty().push(l) =~= w);
        assert(Seq::<char>::empty() + line_text(l) =~= line_text(l));
    } else {
        let indent = wrap_indent(l, width);
        if l.len() > 0 {
            lemma_lead_facts(l[0].0, CharClass::Blank);
        }
        assert forall|i: int| 0 <= i < indent.len() implies indent[i] == ' ' by {
            assert(indent[i] == l[0].0[i]);
            assert(crate::text::in_class(CharClass::Blank, l[0].0[i]));
        }
        lemma_fold_text(pieces(l), width, indent);
        lemma_pieces_text(l);
        let st = wrap_fold(pieces(l), width, indent);
        if st.1.len() > 0 {
            let cur = st.1;
            let flushed = cur.update(
                cur.len() - 1,
                (trim_end_class(cur.last().0, CharClass::Blank), cur.last().1),
            );
            lemma_lines_text_push(st.0, flushed);
            lemma_flush_unspaced(cur);
            lemma_unspaced_concat(lines_text(st.0), line_text(flushed));
            lemma_unspaced_concat(lines_text(st.0), line_text(cur));
        } else {
            assert(line_text(st.1) =~= Seq::<char>::empty());
            assert(lines_text(st.0) + line_text(st.1) =~= lines_text(st.0));
        }
    }
}

} // verus!
