use slaxide::binary64::{smaller_of, Binary64};
use slaxide::collections::{TextMap, TextSet};
use slaxide::models::{TimelineItem, TimelineMode};
use slaxide::ranking::TimelineRanker;
use slaxide::sample::{sample_settings, sample_timeline};
use slaxide::settings::{AppSettings, RuleId};
use slaxide::time::Timestamp;

/// 2026-03-15 12:00:00 UTC.
fn noon() -> Timestamp {
    Timestamp { seconds: 1_773_576_000, nanos: 0 }
}

fn number(value: f64) -> Binary64 {
    Binary64 { bits: value.to_bits() }
}

fn settings() -> AppSettings {
    sample_settings(RuleId { bits: 1 }, RuleId { bits: 2 })
}

fn items() -> Vec<TimelineItem> {
    sample_timeline(noon())
}

/// A ranker that looks at the sample five minutes later.
fn ranker() -> TimelineRanker {
    TimelineRanker::new(noon().plus_seconds(300))
}

#[test]
fn direct_mentions_rank_above_participating_threads() {
    let ranker = TimelineRanker::new(noon());

    let ranked = ranker.visible_items(TimelineMode::Focus, &settings().timeline, items());

    assert!(ranked.len() >= 2);
    assert!(ranked[0].item.direct_mention);
    assert!(
        ranked[0].score.is_above(ranked[1].score),
        "top ranked item should outscore the next focus item"
    );
}

#[test]
fn recent_mode_keeps_watched_channels_even_when_below_focus_threshold() {
    let mut settings = settings();
    settings.timeline.focus_threshold = number(999.0);

    let recent = ranker().visible_items(TimelineMode::Recent, &settings.timeline, items());
    let focus = ranker().visible_items(TimelineMode::Focus, &settings.timeline, items());

    assert!(!recent.is_empty());
    assert!(focus.is_empty());
}

#[test]
fn recent_mode_falls_back_to_all_channels_when_watch_list_is_empty() {
    let mut settings = settings();
    settings.timeline.watched_channels = TextSet::new();
    settings.timeline.channel_weights = TextMap::new();

    let recent = ranker().visible_items(TimelineMode::Recent, &settings.timeline, items());

    assert!(!recent.is_empty());
    assert!(
        recent.iter().any(|item| item.item.channel_id == "C-random"),
        "recent should not go empty just because watched_channels is unset"
    );
}

#[test]
fn visible_items_are_sorted_newest_first() {
    let ranked = ranker().visible_items(TimelineMode::Recent, &settings().timeline, items());

    assert!(ranked.len() >= 2);
    assert!(ranked
        .windows(2)
        .all(|pair| !pair[0].item.last_activity_at.is_before(pair[1].item.last_activity_at)));
}

#[test]
fn muted_channels_are_left_out_of_focus() {
    let mut settings = settings();
    settings.timeline.muted_channels.insert("C-incident".into());

    let focus = ranker().visible_items(TimelineMode::Focus, &settings.timeline, items());

    assert!(focus.iter().all(|entry| entry.item.channel_id != "C-incident"));
}

#[test]
fn scores_add_points_and_fade_with_age() {
    let mut item = items().remove(3);
    item.unread = false;
    item.last_activity_at = noon();
    let mut policy = settings().timeline;
    policy.watched_channels = TextSet::new();
    policy.muted_channels = TextSet::new();

    let fresh = TimelineRanker::new(noon()).score_item(&policy, item.clone()).unwrap();
    let later = TimelineRanker::new(noon().plus_seconds(3600)).score_item(&policy, item).unwrap();

    assert_eq!(fresh.score, number(20.0 + 10.0 + 8.0));
    assert_eq!(later.score, number(20.0 + 10.0 + 240.0 / 90.0));
    assert!(fresh.score.is_above(later.score));
}

#[test]
fn the_incident_of_the_sample_has_its_score() {
    let incident = items().remove(0);

    let entry = TimelineRanker::new(noon()).score_item(&settings().timeline, incident).unwrap();

    // 100 for the mention, 25 for each of three keywords, 70 for the thread, 70 for the channel
    // and 5 for being unread; and 240 / (4 + 30) that fades.
    assert_eq!(entry.score, number(320.0 + 240.0 / 34.0));
    assert_eq!(entry.reasons.len(), 7);
}

#[test]
fn items_of_no_interest_have_no_score() {
    let lunch = items().remove(3);

    assert!(TimelineRanker::new(noon()).score_item(&settings().timeline, lunch).is_none());
}

#[test]
fn sums_are_those_of_the_machine() {
    let values = [
        0.0,
        -0.0,
        1.0,
        -1.0,
        0.1,
        -0.1,
        0.2,
        12.0,
        240.0 / 34.0,
        240.0 / 47.0,
        -1000.0,
        1e-300,
        -1e-300,
        5e-324,
        2.2250738585072014e-308,
        9007199254740991.0,
        9007199254740992.0,
        9007199254740993.0,
        -9007199254740992.0,
        4503599627370497.5,
        1e60,
        -1e60,
        1152921504606846976.0,
        63.0,
        64.0,
        65.0,
        128.0,
        -128.0,
    ];
    for a in values {
        for b in values {
            assert_eq!(number(a).plus(number(b)), number(a + b), "{a} + {b}");
            assert_eq!(number(a).is_at_least(number(b)), a >= b, "{a} >= {b}");
            assert_eq!(number(a).is_above(number(b)), a > b, "{a} > {b}");
            assert_eq!(number(a).is_after(number(b)), a.total_cmp(&b).is_gt(), "{a} after {b}");
            assert!(smaller_of(number(a), number(b)) == number(a.min(b)) || a == b);
        }
    }
}

#[test]
fn quotients_are_those_of_the_machine() {
    for n in [-240i64, -1, 0, 1, 12, 75, 240, 999, 9007199254740993] {
        assert_eq!(Binary64::of_integer(n), number(n as f64), "{n}");
    }
    for d in 1i64..2000 {
        assert_eq!(Binary64::of_fraction(240, d), number(240.0 / d as f64), "{d}");
        assert_eq!(Binary64::of_fraction(240, -d), number(240.0 / -d as f64), "-{d}");
    }
    for d in [i32::MAX as i64 + 30, i32::MIN as i64 + 30, 1_000_003, 0x7fff_ffff] {
        assert_eq!(Binary64::of_fraction(240, d), number(240.0 / d as f64), "{d}");
    }
}

#[test]
fn what_is_no_number_is_never_reached() {
    for odd in [f64::NAN, -f64::NAN] {
        assert!(!number(1.0).is_at_least(number(odd)));
        assert!(!number(odd).is_at_least(number(odd)));
        assert!(!number(odd).is_above(number(1.0)));
    }
    assert!(number(1.0).is_at_least(number(f64::NEG_INFINITY)));
    assert!(!number(1.0).is_at_least(number(f64::INFINITY)));
}

#[test]
fn thresholds_are_met_to_the_last_place() {
    let mut settings = settings();
    let ranker = TimelineRanker::new(noon());
    let score = ranker.score_item(&settings.timeline, items().remove(0)).unwrap().score;

    settings.timeline.focus_threshold = score;
    let shown = ranker.visible_items(TimelineMode::Focus, &settings.timeline, items());
    assert_eq!(shown.len(), 1);

    settings.timeline.focus_threshold = Binary64 { bits: score.bits + 1 };
    let shown = ranker.visible_items(TimelineMode::Focus, &settings.timeline, items());
    assert!(shown.is_empty());
}

#[test]
fn muted_channels_cost_a_thousand_points() {
    let mut policy = settings().timeline;
    let incident = items().remove(0);
    policy.muted_channels.insert(incident.channel_id.clone());

    let entry = TimelineRanker::new(noon()).score_item(&policy, incident).unwrap();

    assert_eq!(entry.score, number(320.0 + 240.0 / 34.0 - 1000.0));
}
