use glide::prime::{personal_for_prime, DECISIONS_IN_PRIME};

fn keys(v: &[&str]) -> Vec<String> {
    v.iter().map(|s| s.to_string()).collect()
}

#[test]
fn personal_decisions_fill_the_room_the_team_leaves_newest_last() {
    let team = keys(&["a", "b", "c", "d", "e", "f"]);
    let personal = keys(&["p1", "p2", "p3", "p4"]);
    assert_eq!(DECISIONS_IN_PRIME, 8);
    assert_eq!(personal_for_prime(&team, &personal), vec![2, 3]);
}

#[test]
fn a_fact_the_team_already_said_is_told_once() {
    let team = keys(&["use postgres"]);
    let personal = keys(&["use postgres", "tabs not spaces"]);
    assert_eq!(personal_for_prime(&team, &personal), vec![1]);
}

#[test]
fn a_full_team_list_leaves_no_room() {
    let team = keys(&["1", "2", "3", "4", "5", "6", "7", "8"]);
    assert!(personal_for_prime(&team, &keys(&["p"])).is_empty());
    let empty: Vec<String> = Vec::new();
    assert_eq!(personal_for_prime(&empty, &keys(&["p", "q"])), vec![0, 1]);
}
