use glide::router::{route_one_shot, RouteDecision};

fn permission_of(prompt: &str) -> String {
    match route_one_shot(prompt) {
        RouteDecision::Request { permission } => permission,
        other => panic!("expected a request route for {prompt:?}, got {other:?}"),
    }
}

#[test]
fn a_request_names_the_tool_not_the_sentence() {
    assert_eq!(permission_of("i need access to pomelo"), "pomelo");
    assert_eq!(
        permission_of("request access to the staging-db"),
        "staging-db"
    );
    assert_eq!(
        permission_of("can i get permission for admin:billing?"),
        "admin:billing"
    );
}

#[test]
fn a_bare_permission_word_still_routes_to_request() {
    assert_eq!(permission_of("permission"), "permission");
}

#[test]
fn ownership_questions_still_route_to_who_owns() {
    match route_one_shot("who owns billing/charge.py?") {
        RouteDecision::WhoOwns { query } => assert_eq!(query, "billing/charge.py"),
        other => panic!("expected who-owns, got {other:?}"),
    }
}

#[test]
fn plans_digests_and_the_rest() {
    assert_eq!(
        route_one_shot("Plan for Priya"),
        RouteDecision::Plan { person: "Priya".into() }
    );
    assert_eq!(
        route_one_shot("what is my day 1 plan"),
        RouteDecision::Plan { person: "(unspecified)".into() }
    );
    assert_eq!(route_one_shot("show the friction"), RouteDecision::FrictionDigest);
    assert_eq!(
        route_one_shot("hello"),
        RouteDecision::Unrouted {
            reason: "no verb matched; v2 will route via LLM when [llm].enabled = true".into()
        }
    );
    assert_eq!(
        route_one_shot("Who is the OWNER OF api/?"),
        RouteDecision::WhoOwns { query: "Who is the OWNER OF api/?".into() }
    );
    assert_eq!(permission_of("Access To `the-vault`."), "the-vault");
    assert_eq!(permission_of("access to a "), "a");
}
