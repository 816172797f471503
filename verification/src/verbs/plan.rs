//! `glide plan`: the day-1 packet skeleton, built from the graph's counts.

use vstd::prelude::*;

use crate::config::{push_owned, strs};
use crate::errors::GlideError;
use crate::graph::GraphStats;
use crate::text::{i64_text, int_text, owned, push_str, push_string, string_of};

verus! {

/// One titled list of the packet.
#[derive(Debug, Clone)]
pub struct PlanSection {
    pub title: String,
    pub bullets: Vec<String>,
}

/// The day-1 packet for a person.
#[derive(Debug, Clone)]
pub struct PlanResponse {
    pub person: String,
    pub role: Option<String>,
    pub sections: Vec<PlanSection>,
    pub status: &'static str,
}

/// ` (role)` when a role is given, else nothing.
pub open spec fn role_suffix(role: Option<String>) -> Seq<char> {
    match role {
        Some(r) => " ("@ + r@ + ")"@,
        None => Seq::empty(),
    }
}

/// The sentence summing up the graph.
pub open spec fn graph_summary(s: GraphStats) -> Seq<char> {
    "Graph indexed: "@ + int_text(s.people as int) + " people, "@ + int_text(s.teams as int)
        + " teams, "@ + int_text(s.ownership_rows as int) + " ownership rows across "@
        + int_text(s.paths as int) + " paths."@
}

/// The packet's sections as `(title, bullets)`.
pub open spec fn plan_sections(person: Seq<char>, role: Option<String>, s: GraphStats) -> Seq<
    (Seq<char>, Seq<Seq<char>>),
> {
    seq![
        ("Welcome"@, seq!["Day-1 packet for "@ + person + role_suffix(role) + "."@]),
        ("Repo orientation"@, seq![
            graph_summary(s),
            "Top owners and recent friction events are available via `glide who-owns` and `glide friction digest`."@,
        ]),
        ("First-week goals"@, seq![
            "Ship a one-line PR (typo fix, doc tweak) before EOW1."@,
            "Pair with each top-owner area for 30 min."@,
        ]),
    ]
}

/// A section's title and bullets as text.
pub open spec fn section_view(s: PlanSection) -> (Seq<char>, Seq<Seq<char>>) {
    (s.title@, strs(s.bullets@))
}

/// The status of a packet drafted without a language model.
pub open spec fn plan_status() -> Seq<char> {
    "draft (LLM disabled; enable [llm] in config for prose generation)"@
}

/// Builds the packet for `person` from the graph's counts: a welcome, an
/// orientation that sums up the graph, and first-week goals.
pub fn plan(stats: &GraphStats, person: &str, role: Option<String>) -> (r: Result<PlanResponse, GlideError>)
    ensures
        r matches Ok(p) && p.person@ == person@ && p.role == role
            && p.sections@.map_values(|s: PlanSection| section_view(s)) == plan_sections(
            person@,
            role,
            *stats,
        ) && p.status@ == plan_status(),
{
    let mut summary: Vec<char> = Vec::new();
    push_str(&mut summary, "Graph indexed: ");
    push_string(&mut summary, &i64_text(stats.people));
    push_str(&mut summary, " people, ");
    push_string(&mut summary, &i64_text(stats.teams));
    push_str(&mut summary, " teams, ");
    push_string(&mut summary, &i64_text(stats.ownership_rows));
    push_str(&mut summary, " ownership rows across ");
    push_string(&mut summary, &i64_text(stats.paths));
    push_str(&mut summary, " paths.");

    let mut welcome: Vec<char> = Vec::new();
    push_str(&mut welcome, "Day-1 packet for ");
    push_str(&mut welcome, person);
    match &role {
        Some(r) => {
            push_str(&mut welcome, " (");
            push_string(&mut welcome, r);
            push_str(&mut welcome, ")");
        },
        None => {},
    }
    push_str(&mut welcome, ".");
    assert(welcome@ =~= "Day-1 packet for "@ + person@ + role_suffix(role) + "."@);

    let mut b1: Vec<String> = Vec::new();
    b1.push(string_of(&welcome));
    let mut b2: Vec<String> = Vec::new();
    b2.push(string_of(&summary));
    push_owned(
        &mut b2,
        "Top owners and recent friction events are available via `glide who-owns` and `glide friction digest`.",
    );
    let mut b3: Vec<String> = Vec::new();
    push_owned(&mut b3, "Ship a one-line PR (typo fix, doc tweak) before EOW1.");
    push_owned(&mut b3, "Pair with each top-owner area for 30 min.");
    proof {
        assert(strs(Seq::<String>::empty()) =~= Seq::<Seq<char>>::empty());
        assert(strs(b1@) =~= seq!["Day-1 packet for "@ + person@ + role_suffix(role) + "."@]);
        assert(strs(b2@) =~= seq![
            graph_summary(*stats),
            "Top owners and recent friction events are available via `glide who-owns` and `glide friction digest`."@,
        ]);
        assert(strs(b3@) =~= seq![
            "Ship a one-line PR (typo fix, doc tweak) before EOW1."@,
            "Pair with each top-owner area for 30 min."@,
        ]);
    }
    let mut sections: Vec<PlanSection> = Vec::new();
    sections.push(PlanSection { title: owned("Welcome"), bullets: b1 });
    sections.push(PlanSection { title: owned("Repo orientation"), bullets: b2 });
    sections.push(PlanSection { title: owned("First-week goals"), bullets: b3 });
    assert(sections@.map_values(|s: PlanSection| section_view(s)) =~= plan_sections(
        person@,
        role,
        *stats,
    ));
    Ok(PlanResponse {
        person: owned(person),
        role,
        sections,
        status: "draft (LLM disabled; enable [llm] in config for prose generation)",
    })
}

} // verus!
