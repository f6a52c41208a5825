use osu_leaderboard::leaderboard::{build, sort_desc, ScoreEntry, ScoreLookup};

/// A totally ordered integer encoding of a performance score: monotone for
/// the finite non-negative values the ranking service reports.
fn key(pp: f32) -> u64 {
    pp.to_bits() as u64
}

fn found(id: &str, pp: f32) -> ScoreLookup {
    ScoreLookup::Found(ScoreEntry {
        external_id: id.to_string(),
        score_key: key(pp),
        score_text: format!("{:?}", pp),
    })
}

#[test]
fn empty_registry_builds_empty_view() {
    let view = build(Vec::new());
    assert!(view.empty);
    assert_eq!(view.entries.len(), 0);
    assert_eq!(view.failed.len(), 0);
    assert_eq!(view.title, "osu! Leaderboard");
    assert_eq!(view.description, "Ranking of registered players");
}

#[test]
fn failed_lookup_is_surfaced_not_fatal() {
    // A(120.5), B(300.0), C's lookup fails: the view ranks B before A and
    // reports C as a failed entry.
    let lookups = vec![
        found("A", 120.5),
        found("B", 300.0),
        ScoreLookup::Failed("C".to_string()),
    ];
    let view = build(lookups);
    assert!(!view.empty);
    assert_eq!(view.entries.len(), 2);
    assert_eq!(view.entries[0].title, "#1 B");
    assert_eq!(view.entries[0].value, "score: 300.0");
    assert_eq!(view.entries[1].title, "#2 A");
    assert_eq!(view.entries[1].value, "score: 120.5");
    assert_eq!(view.failed, vec!["C"]);
}

#[test]
fn all_lookups_failed_still_builds() {
    let lookups = vec![
        ScoreLookup::Failed("A".to_string()),
        ScoreLookup::Failed("B".to_string()),
    ];
    let view = build(lookups);
    assert!(!view.empty);
    assert_eq!(view.entries.len(), 0);
    assert_eq!(view.failed, vec!["A", "B"]);
}

#[test]
fn leaderboard_is_sorted_descending() {
    let lookups = vec![
        found("low", 12.0),
        found("top", 912.25),
        found("mid", 500.5),
    ];
    let view = build(lookups);
    assert_eq!(view.entries[0].title, "#1 top");
    assert_eq!(view.entries[1].title, "#2 mid");
    assert_eq!(view.entries[2].title, "#3 low");
}

#[test]
fn leaderboard_truncates_to_top_fifteen() {
    let mut lookups = Vec::new();
    for i in 1..=17u32 {
        lookups.push(found(&format!("u{}", i), i as f32));
    }
    let view = build(lookups);
    assert_eq!(view.entries.len(), 15);
    // Best score first: u17 leads, the two smallest (u1, u2) are cut.
    assert_eq!(view.entries[0].title, "#1 u17");
    assert_eq!(view.entries[0].value, "score: 17.0");
    assert_eq!(view.entries[9].title, "#10 u8");
    assert_eq!(view.entries[14].title, "#15 u3");
}

#[test]
fn absent_score_ranks_last() {
    // A non-comparable score is encoded at the minimum key, so it sorts
    // after every real score.
    let lookups = vec![
        ScoreLookup::Found(ScoreEntry {
            external_id: "silent".to_string(),
            score_key: 0,
            score_text: "none".to_string(),
        }),
        found("active", 1.5),
    ];
    let view = build(lookups);
    assert_eq!(view.entries[0].title, "#1 active");
    assert_eq!(view.entries[1].title, "#2 silent");
    assert_eq!(view.entries[1].value, "score: none");
}

#[test]
fn sort_is_stable_for_equal_scores() {
    let entries = vec![
        ScoreEntry {
            external_id: "first".to_string(),
            score_key: 5,
            score_text: "5.0".to_string(),
        },
        ScoreEntry {
            external_id: "second".to_string(),
            score_key: 5,
            score_text: "5.0".to_string(),
        },
        ScoreEntry {
            external_id: "best".to_string(),
            score_key: 9,
            score_text: "9.0".to_string(),
        },
    ];
    let sorted = sort_desc(entries);
    assert_eq!(sorted[0].external_id, "best");
    assert_eq!(sorted[1].external_id, "first");
    assert_eq!(sorted[2].external_id, "second");
}

#[test]
fn score_key_encoding_is_monotone() {
    assert!(key(300.0) > key(120.5));
    assert!(key(120.5) > key(0.0));
    assert!(key(1.5) > 0);
}
