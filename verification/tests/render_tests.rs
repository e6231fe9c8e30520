use scoreboard_engine::rank::Division;
use scoreboard_engine::rank::QueueKind;
use scoreboard_engine::rank::RankedEntry;
use scoreboard_engine::rank::Tier;
use scoreboard_engine::render::chars_of;
use scoreboard_engine::render::format_i32;
use scoreboard_engine::render::format_u64;
use scoreboard_engine::render::render_board;
use scoreboard_engine::render::render_message;
use scoreboard_engine::render::win_rate_pct;

const HEADER: &str = "`# ` `    Summoner    ` `     Rank     ` `  LP  ` `Win ` `Loss` `WL%`\n";

fn entry(name: &str, tier: Tier, division: Division, points: i32, wins: u32, losses: u32) -> RankedEntry {
    RankedEntry {
        name: name.to_owned(),
        queue: QueueKind::RankedSolo,
        tier: Some(tier),
        division: Some(division),
        points,
        wins,
        losses,
        veteran: false,
        hot_streak: false,
    }
}

fn board_string(entries: &Vec<RankedEntry>, limit: usize) -> String {
    render_board(entries, limit).into_iter().collect()
}

#[test]
fn empty_board_is_just_the_header() {
    let s = board_string(&vec![], 10);
    assert_eq!(s, HEADER);
}

#[test]
fn one_row_renders_every_fixed_width_column() {
    let e = entry("Alice", Tier::Gold, Division::II, 40, 10, 20);
    let s = board_string(&vec![e], 10);
    let expected = format!(
        "{}`1 ` `Alice           ` `GOLD        II` `  40LP` ` 10W` ` 20L` `33%`\n",
        HEADER
    );
    assert_eq!(s, expected);
}

#[test]
fn zero_games_renders_zero_percent() {
    let e = entry("Nobody", Tier::Iron, Division::IV, 0, 0, 0);
    let s = board_string(&vec![e], 10);
    assert!(s.contains("`0%`"));
    assert_eq!(win_rate_pct(0, 0), 0);
}

#[test]
fn veteran_marker_beats_streak_marker() {
    let mut e = entry("Old", Tier::Master, Division::I, 10, 1, 0);
    e.veteran = true;
    e.hot_streak = true;
    let s = board_string(&vec![e], 10);
    assert!(s.contains(" \u{1F474}\n"));
    assert!(!s.contains("\u{1F525}"));
}

#[test]
fn streak_marker_without_veteran() {
    let mut e = entry("Hot", Tier::Master, Division::I, 10, 1, 0);
    e.hot_streak = true;
    let s = board_string(&vec![e], 10);
    assert!(s.contains(" \u{1F525}\n"));
}

#[test]
fn row_count_is_min_of_len_and_limit_plus_header() {
    let entries: Vec<RankedEntry> = (0..5)
        .map(|i| entry(&format!("p{}", i), Tier::Gold, Division::I, i, 1, 1))
        .collect();
    for limit in 0..8usize {
        let s = board_string(&entries, limit);
        let rows = s.matches('\n').count();
        assert_eq!(rows, limit.min(entries.len()) + 1);
    }
}

#[test]
fn oversized_board_reduces_rows_never_cuts_one() {
    let entries: Vec<RankedEntry> = (0..4)
        .map(|i| entry(&format!("p{}", i), Tier::Gold, Division::I, i, 1, 1))
        .collect();
    let full = board_string(&entries, 4);
    let one_row = board_string(&entries, 1);
    // Budget for the header plus one full row, but not two.
    let (rows, text) = render_message(&entries, 4, one_row.chars().count());
    assert_eq!(rows, 1);
    assert_eq!(text, one_row);
    let (all_rows, all_text) = render_message(&entries, 4, full.chars().count());
    assert_eq!(all_rows, 4);
    assert_eq!(all_text, full);
}

#[test]
fn negative_points_render_with_sign() {
    let digits: String = format_i32(-42).into_iter().collect();
    assert_eq!(digits, "-42");
    let zero: String = format_i32(0).into_iter().collect();
    assert_eq!(zero, "0");
}

#[test]
fn decimal_rendering_is_exact() {
    let s: String = format_u64(90210).into_iter().collect();
    assert_eq!(s, "90210");
    let z: String = format_u64(0).into_iter().collect();
    assert_eq!(z, "0");
}

#[test]
fn chars_of_round_trips() {
    let v = chars_of("héllo \u{1F474}");
    let s: String = v.into_iter().collect();
    assert_eq!(s, "héllo \u{1F474}");
}

#[test]
fn win_rate_is_truncated() {
    assert_eq!(win_rate_pct(1, 2), 33);
    assert_eq!(win_rate_pct(2, 1), 66);
    assert_eq!(win_rate_pct(1, 0), 100);
    assert_eq!(win_rate_pct(0, 7), 0);
}
