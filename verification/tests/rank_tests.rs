use scoreboard_engine::rank::Division;
use scoreboard_engine::rank::QueueKind;
use scoreboard_engine::rank::RankedEntry;
use scoreboard_engine::rank::Tier;
use scoreboard_engine::rank::compare;
use scoreboard_engine::rank::filter_eligible;
use scoreboard_engine::rank::sort_entries;
use std::cmp::Ordering;

fn entry(name: &str, tier: Tier, division: Division, points: i32) -> RankedEntry {
    RankedEntry {
        name: name.to_owned(),
        queue: QueueKind::RankedSolo,
        tier: Some(tier),
        division: Some(division),
        points,
        wins: 10,
        losses: 10,
        veteran: false,
        hot_streak: false,
    }
}

#[test]
fn higher_tier_wins_regardless_of_division_and_points() {
    let a = entry("a", Tier::Gold, Division::IV, 0);
    let b = entry("b", Tier::Silver, Division::I, 99);
    assert_eq!(compare(&a, &b), Ordering::Less);
    assert_eq!(compare(&b, &a), Ordering::Greater);
}

#[test]
fn higher_division_wins_within_equal_tier() {
    let a = entry("a", Tier::Gold, Division::II, 0);
    let b = entry("b", Tier::Gold, Division::III, 99);
    assert_eq!(compare(&a, &b), Ordering::Less);
    assert_eq!(compare(&b, &a), Ordering::Greater);
}

#[test]
fn higher_points_win_within_equal_tier_and_division() {
    let a = entry("a", Tier::Gold, Division::II, 50);
    let b = entry("b", Tier::Gold, Division::II, 30);
    assert_eq!(compare(&a, &b), Ordering::Less);
    assert_eq!(compare(&b, &a), Ordering::Greater);
}

#[test]
fn equal_standing_compares_equal() {
    let a = entry("a", Tier::Diamond, Division::I, 75);
    let b = entry("b", Tier::Diamond, Division::I, 75);
    assert_eq!(compare(&a, &b), Ordering::Equal);
}

#[test]
fn sort_orders_best_first() {
    let mut v = vec![
        entry("bronze", Tier::Bronze, Division::I, 0),
        entry("challenger", Tier::Challenger, Division::I, 700),
        entry("gold-low", Tier::Gold, Division::II, 30),
        entry("gold-high", Tier::Gold, Division::II, 50),
        entry("gold-one", Tier::Gold, Division::I, 1),
    ];
    sort_entries(&mut v);
    let names: Vec<&str> = v.iter().map(|e| e.name.as_str()).collect();
    assert_eq!(names, vec!["challenger", "gold-one", "gold-high", "gold-low", "bronze"]);
}

#[test]
fn filter_drops_ineligible_entries() {
    let unranked = RankedEntry { tier: Some(Tier::Unranked), ..entry("unranked", Tier::Gold, Division::I, 0) };
    let no_tier = RankedEntry { tier: None, ..entry("no-tier", Tier::Gold, Division::I, 0) };
    let no_division = RankedEntry { division: None, ..entry("no-div", Tier::Gold, Division::I, 0) };
    let wrong_queue = RankedEntry { queue: QueueKind::Other, ..entry("flex", Tier::Gold, Division::I, 0) };
    let keep = entry("keep", Tier::Gold, Division::I, 0);
    let v = vec![unranked, no_tier, keep, no_division, wrong_queue];
    let kept = filter_eligible(&v);
    assert_eq!(kept.len(), 1);
    assert_eq!(kept[0].name, "keep");
}
