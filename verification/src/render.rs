//! Fixed-width leaderboard renderer. The output is specified character by
//! character: a header row, then one data row per displayed entry, each row
//! newline-terminated.
use crate::rank::Division;
use crate::rank::RankedEntry;
use crate::rank::Tier;
use crate::rank::displayable;
use vstd::prelude::*;
use vstd::std_specs::iter::IteratorSpec;

verus! {

/// The decimal digit character for a value below ten.
pub open spec fn digit_char(d: nat) -> char {
    if d == 0 {
        '0'
    } else if d == 1 {
        '1'
    } else if d == 2 {
        '2'
    } else if d == 3 {
        '3'
    } else if d == 4 {
        '4'
    } else if d == 5 {
        '5'
    } else if d == 6 {
        '6'
    } else if d == 7 {
        '7'
    } else if d == 8 {
        '8'
    } else {
        '9'
    }
}

/// Decimal rendering of a non-negative integer, most significant digit first,
/// without leading zeros (zero itself renders as one digit).
pub open spec fn dec_spec(n: nat) -> Seq<char>
    decreases n,
{
    if n < 10 {
        seq![digit_char(n)]
    } else {
        dec_spec(n / 10).push(digit_char(n % 10))
    }
}

/// Decimal rendering of a signed integer: a minus sign before the digits of
/// the absolute value when negative.
pub open spec fn dec_int_spec(n: int) -> Seq<char> {
    if n < 0 {
        seq!['-'] + dec_spec((-n) as nat)
    } else {
        dec_spec(n as nat)
    }
}

/// `n` spaces.
pub open spec fn spaces(n: nat) -> Seq<char> {
    Seq::new(n, |i: int| ' ')
}

/// Left-pad with spaces to width `w`; text longer than the column is kept
/// whole, never truncated.
pub open spec fn pad_left(s: Seq<char>, w: nat) -> Seq<char> {
    if s.len() >= w {
        s
    } else {
        spaces((w - s.len()) as nat) + s
    }
}

/// Right-pad with spaces to width `w`; text longer than the column is kept
/// whole, never truncated.
pub open spec fn pad_right(s: Seq<char>, w: nat) -> Seq<char> {
    if s.len() >= w {
        s
    } else {
        s + spaces((w - s.len()) as nat)
    }
}

/// Percentage of games won, truncated to an integer; zero games played counts
/// as zero percent rather than a division by zero.
pub open spec fn win_rate(wins: nat, losses: nat) -> nat {
    if wins + losses == 0 {
        0
    } else {
        (wins * 100) / (wins + losses)
    }
}

/// Display label of a tier.
pub open spec fn tier_label(t: Tier) -> Seq<char> {
    match t {
        Tier::Unranked => "UNRANKED"@,
        Tier::Iron => "IRON"@,
        Tier::Bronze => "BRONZE"@,
        Tier::Silver => "SILVER"@,
        Tier::Gold => "GOLD"@,
        Tier::Platinum => "PLATINUM"@,
        Tier::Emerald => "EMERALD"@,
        Tier::Diamond => "DIAMOND"@,
        Tier::Master => "MASTER"@,
        Tier::Grandmaster => "GRANDMASTER"@,
        Tier::Challenger => "CHALLENGER"@,
    }
}

/// Display label of a division.
pub open spec fn division_label(d: Division) -> Seq<char> {
    match d {
        Division::I => "I"@,
        Division::II => "II"@,
        Division::III => "III"@,
        Division::IV => "IV"@,
    }
}

/// Trailing row decoration: the veteran marker, else the win-streak marker,
/// else nothing. A veteran with an active streak gets the veteran marker
/// only.
pub open spec fn marker(veteran: bool, hot_streak: bool) -> Seq<char> {
    if veteran {
        " 👴"@
    } else if hot_streak {
        " 🔥"@
    } else {
        Seq::<char>::empty()
    }
}

/// The veteran marker always takes precedence over the streak marker.
pub proof fn lemma_marker_veteran_precedence(hot_streak: bool)
    ensures
        marker(true, hot_streak) == " 👴"@,
{
}

/// With no games played the rendered win rate is zero, not an error.
pub proof fn lemma_win_rate_no_games()
    ensures
        win_rate(0, 0) == 0,
{
}

/// The fixed header row.
pub open spec fn header() -> Seq<char> {
    "`# ` `    Summoner    ` `     Rank     ` `  LP  ` `Win ` `Loss` `WL%`\n"@
}

/// One data row: 1-indexed position, name, tier and division, points, wins,
/// losses, win rate, then the marker, in fixed-width backticked columns.
pub open spec fn render_row(position: nat, e: RankedEntry) -> Seq<char> {
    "`"@ + pad_right(dec_spec(position), 2) + "` `"@ + pad_right(e.name@, 16) + "` `"@ + pad_right(
        tier_label(e.tier->0),
        10,
    ) + " "@ + pad_left(division_label(e.division->0), 3) + "` `"@ + pad_left(
        dec_int_spec(e.points as int),
        4,
    ) + "LP` `"@ + pad_left(dec_spec(e.wins as nat), 3) + "W` `"@ + pad_left(
        dec_spec(e.losses as nat),
        3,
    ) + "L` `"@ + dec_spec(win_rate(e.wins as nat, e.losses as nat)) + "%`"@ + marker(
        e.veteran,
        e.hot_streak,
    ) + "\n"@
}

/// The rendered board: the header followed by the first `k` entries as data
/// rows.
pub open spec fn render_spec(s: Seq<RankedEntry>, k: nat) -> Seq<char>
    recommends
        k <= s.len(),
    decreases k,
{
    if k == 0 {
        header()
    } else {
        render_spec(s, (k - 1) as nat) + render_row(k, s[k - 1])
    }
}

/// How many newline characters a text holds.
pub open spec fn newline_count(s: Seq<char>) -> nat
    decreases s.len(),
{
    if s.len() == 0 {
        0
    } else {
        newline_count(s.drop_last()) + (if s.last() == '\n' {
            1nat
        } else {
            0nat
        })
    }
}

proof fn lemma_newline_count_add(a: Seq<char>, b: Seq<char>)
    ensures
        newline_count(a + b) == newline_count(a) + newline_count(b),
    decreases b.len(),
{
    if b.len() == 0 {
        assert(a + b == a);
    } else {
        lemma_newline_count_add(a, b.drop_last());
        assert((a + b).drop_last() == a + b.drop_last());
        assert((a + b).last() == b.last());
    }
}

/// A text without any newline character.
pub open spec fn newline_free(s: Seq<char>) -> bool {
    forall|i: int| 0 <= i < s.len() ==> s[i] != '\n'
}

proof fn lemma_newline_free_count(s: Seq<char>)
    requires
        newline_free(s),
    ensures
        newline_count(s) == 0,
    decreases s.len(),
{
    if s.len() > 0 {
        lemma_newline_free_count(s.drop_last());
    }
}

proof fn lemma_dec_newline_free(n: nat)
    ensures
        newline_free(dec_spec(n)),
    decreases n,
{
    if n >= 10 {
        lemma_dec_newline_free(n / 10);
    }
}

proof fn lemma_dec_int_newline_free(n: int)
    ensures
        newline_free(dec_int_spec(n)),
{
    if n < 0 {
        lemma_dec_newline_free((-n) as nat);
    } else {
        lemma_dec_newline_free(n as nat);
    }
}

proof fn lemma_pad_newline_free(s: Seq<char>, w: nat)
    requires
        newline_free(s),
    ensures
        newline_free(pad_left(s, w)),
        newline_free(pad_right(s, w)),
{
}

proof fn lemma_tier_label_newline_free(t: Tier)
    ensures
        newline_free(tier_label(t)),
{
    reveal_strlit("UNRANKED");
    reveal_strlit("IRON");
    reveal_strlit("BRONZE");
    reveal_strlit("SILVER");
    reveal_strlit("GOLD");
    reveal_strlit("PLATINUM");
    reveal_strlit("EMERALD");
    reveal_strlit("DIAMOND");
    reveal_strlit("MASTER");
    reveal_strlit("GRANDMASTER");
    reveal_strlit("CHALLENGER");
}

proof fn lemma_division_label_newline_free(d: Division)
    ensures
        newline_free(division_label(d)),
{
    reveal_strlit("I");
    reveal_strlit("II");
    reveal_strlit("III");
    reveal_strlit("IV");
}

proof fn lemma_marker_newline_free(veteran: bool, hot_streak: bool)
    ensures
        newline_free(marker(veteran, hot_streak)),
{
    reveal_strlit(" 👴");
    reveal_strlit(" 🔥");
}

/// Every data row whose name holds no newline ends with its single newline
/// character.
#[verifier::rlimit(60)]
pub proof fn lemma_row_newline_count(position: nat, e: RankedEntry)
    requires
        newline_free(e.name@),
    ensures
        newline_count(render_row(position, e)) == 1,
{
    reveal_strlit("`");
    reveal_strlit("` `");
    reveal_strlit(" ");
    reveal_strlit("LP` `");
    reveal_strlit("W` `");
    reveal_strlit("L` `");
    reveal_strlit("%`");
    reveal_strlit("\n");
    lemma_dec_newline_free(position);
    lemma_pad_newline_free(dec_spec(position), 2);
    lemma_pad_newline_free(e.name@, 16);
    lemma_tier_label_newline_free(e.tier->0);
    lemma_pad_newline_free(tier_label(e.tier->0), 10);
    lemma_division_label_newline_free(e.division->0);
    lemma_pad_newline_free(division_label(e.division->0), 3);
    lemma_dec_int_newline_free(e.points as int);
    lemma_pad_newline_free(dec_int_spec(e.points as int), 4);
    lemma_dec_newline_free(e.wins as nat);
    lemma_pad_newline_free(dec_spec(e.wins as nat), 3);
    lemma_dec_newline_free(e.losses as nat);
    lemma_pad_newline_free(dec_spec(e.losses as nat), 3);
    lemma_dec_newline_free(win_rate(e.wins as nat, e.losses as nat));
    lemma_marker_newline_free(e.veteran, e.hot_streak);
    let body = "`"@ + pad_right(dec_spec(position), 2) + "` `"@ + pad_right(e.name@, 16) + "` `"@
        + pad_right(tier_label(e.tier->0), 10) + " "@ + pad_left(division_label(e.division->0), 3)
        + "` `"@ + pad_left(dec_int_spec(e.points as int), 4) + "LP` `"@ + pad_left(
        dec_spec(e.wins as nat),
        3,
    ) + "W` `"@ + pad_left(dec_spec(e.losses as nat), 3) + "L` `"@ + dec_spec(
        win_rate(e.wins as nat, e.losses as nat),
    ) + "%`"@ + marker(e.veteran, e.hot_streak);
    assert(newline_free(body));
    lemma_newline_free_count(body);
    lemma_newline_count_add(body, "\n"@);
    assert(newline_count("\n"@) == 1) by {
        reveal_with_fuel(newline_count, 3);
        assert("\n"@.len() == 1);
        assert("\n"@.drop_last().len() == 0);
        assert("\n"@.last() == '\n');
    }
    assert(render_row(position, e) == body + "\n"@);
}

/// The header row ends with its single newline character.
pub proof fn lemma_header_newline_count()
    ensures
        newline_count(header()) == 1,
{
    reveal_strlit("`# ` `    Summoner    ` `     Rank     ` `  LP  ` `Win ` `Loss` `WL%`\n");
    reveal_strlit("`# ` `    Summoner    ` `     Rank     ` `  LP  ` `Win ` `Loss` `WL%`");
    reveal_strlit("\n");
    let body = "`# ` `    Summoner    ` `     Rank     ` `  LP  ` `Win ` `Loss` `WL%`"@;
    assert(header() =~= body + "\n"@);
    assert(newline_free(body));
    lemma_newline_free_count(body);
    lemma_newline_count_add(body, "\n"@);
    assert(newline_count("\n"@) == 1) by {
        reveal_with_fuel(newline_count, 3);
        assert("\n"@.len() == 1);
        assert("\n"@.drop_last().len() == 0);
        assert("\n"@.last() == '\n');
    }
}

/// The rendered board holds exactly one header row and `k` data rows: with
/// every displayed name newline-free, its newline count is `k + 1`.
pub proof fn lemma_render_row_count(s: Seq<RankedEntry>, k: nat)
    requires
        k <= s.len(),
        forall|i: int| 0 <= i < k ==> newline_free(#[trigger] s[i].name@),
    ensures
        newline_count(render_spec(s, k)) == k + 1,
    decreases k,
{
    if k == 0 {
        lemma_header_newline_count();
    } else {
        lemma_render_row_count(s, (k - 1) as nat);
        lemma_row_newline_count(k, s[k - 1]);
        lemma_newline_count_add(render_spec(s, (k - 1) as nat), render_row(k, s[k - 1]));
    }
}

fn digit_to_char(d: u64) -> (c: char)
    requires
        d < 10,
    ensures
        c == digit_char(d as nat),
{
    match d {
        0 => '0',
        1 => '1',
        2 => '2',
        3 => '3',
        4 => '4',
        5 => '5',
        6 => '6',
        7 => '7',
        8 => '8',
        _ => '9',
    }
}

/// Decimal digits of `n`, most significant first.
pub fn format_u64(n: u64) -> (r: Vec<char>)
    ensures
        r@ == dec_spec(n as nat),
    decreases n,
{
    if n < 10 {
        let mut r: Vec<char> = Vec::new();
        r.push(digit_to_char(n));
        proof {
            assert(r@ =~= seq![digit_char(n as nat)]);
        }
        r
    } else {
        let mut r = format_u64(n / 10);
        r.push(digit_to_char(n % 10));
        r
    }
}

/// Decimal rendering of a signed 32-bit value.
pub fn format_i32(n: i32) -> (r: Vec<char>)
    ensures
        r@ == dec_int_spec(n as int),
{
    if n < 0 {
        let mut r: Vec<char> = Vec::new();
        r.push('-');
        let m: u64 = if n == i32::MIN {
            2147483648u64
        } else {
            (-n) as u64
        };
        let digits = format_u64(m);
        push_all(&mut r, &digits);
        proof {
            assert(r@ =~= seq!['-'] + dec_spec(m as nat));
        }
        r
    } else {
        format_u64(n as u64)
    }
}

/// Append every character of `s` to `out`.
fn push_all(out: &mut Vec<char>, s: &Vec<char>)
    ensures
        final(out)@ == old(out)@ + s@,
{
    let n = s.len();
    let mut i: usize = 0;
    while i < n
        invariant
            n == s@.len(),
            0 <= i <= n,
            out@ == old(out)@ + s@.take(i as int),
        decreases n - i,
    {
        out.push(s[i]);
        proof {
            assert(old(out)@ + s@.take(i as int + 1) =~= (old(out)@ + s@.take(i as int)).push(
                s@[i as int],
            ));
        }
        i += 1;
    }
    proof {
        assert(s@.take(n as int) == s@);
    }
}

/// Append `k` spaces to `out`.
fn push_spaces(out: &mut Vec<char>, k: usize)
    ensures
        final(out)@ == old(out)@ + spaces(k as nat),
{
    let mut i: usize = 0;
    while i < k
        invariant
            0 <= i <= k,
            out@ == old(out)@ + spaces(i as nat),
        decreases k - i,
    {
        out.push(' ');
        proof {
            assert(old(out)@ + spaces(i as nat + 1) =~= (old(out)@ + spaces(i as nat)).push(' '));
        }
        i += 1;
    }
}

/// Append every character of the string slice to `out`.
fn push_str_chars(out: &mut Vec<char>, s: &str)
    ensures
        final(out)@ == old(out)@ + s@,
{
    broadcast use vstd::string::next_postcondition;
    broadcast use vstd::string::axiom_spec_iter;

    let mut it = s.chars();
    let ghost mut k: int = 0;
    loop
        invariant
            0 <= k <= s@.len(),
            it.remaining() == s@.skip(k),
            out@ == old(out)@ + s@.take(k),
        ensures
            out@ == old(out)@ + s@,
        decreases s@.len() - k,
    {
        let ghost pre_remaining = it.remaining();
        match it.next() {
            Some(c) => {
                proof {
                    assert(pre_remaining[0] == s@[k]);
                    assert(it.remaining() =~= s@.skip(k + 1));
                }
                out.push(c);
                proof {
                    assert(old(out)@ + s@.take(k + 1) =~= (old(out)@ + s@.take(k)).push(s@[k]));
                    k = k + 1;
                }
            },
            None => {
                proof {
                    assert(s@.skip(k).len() == 0);
                    assert(s@.take(k) =~= s@);
                }
                break ;
            },
        }
    }
}

/// Append `s` left-padded with spaces to width `w`.
fn push_pad_left(out: &mut Vec<char>, s: &Vec<char>, w: usize)
    ensures
        final(out)@ == old(out)@ + pad_left(s@, w as nat),
{
    if s.len() < w {
        push_spaces(out, w - s.len());
    }
    push_all(out, s);
    proof {
        if s@.len() < w {
            assert(old(out)@ + pad_left(s@, w as nat) =~= old(out)@ + spaces((w - s@.len()) as nat)
                + s@);
        }
    }
}

/// Append `s` right-padded with spaces to width `w`.
fn push_pad_right(out: &mut Vec<char>, s: &Vec<char>, w: usize)
    ensures
        final(out)@ == old(out)@ + pad_right(s@, w as nat),
{
    push_all(out, s);
    if s.len() < w {
        push_spaces(out, w - s.len());
        proof {
            assert(old(out)@ + pad_right(s@, w as nat) =~= old(out)@ + s@ + spaces(
                (w - s@.len()) as nat,
            ));
        }
    }
}

/// The games-won percentage, truncated; zero when no games were played.
pub fn win_rate_pct(wins: u32, losses: u32) -> (r: u32)
    ensures
        r as nat == win_rate(wins as nat, losses as nat),
        r <= 100,
{
    if wins == 0 && losses == 0 {
        0
    } else {
        let total: u64 = wins as u64 + losses as u64;
        let scaled: u64 = wins as u64 * 100;
        let pct = scaled / total;
        proof {
            assert(pct <= 100) by (nonlinear_arith)
                requires
                    total > 0,
                    scaled == wins * 100,
                    wins <= total,
                    pct == scaled / total,
            ;
        }
        pct as u32
    }
}

/// The display label of a tier.
pub fn tier_label_str(t: &Tier) -> (r: &'static str)
    ensures
        r@ == tier_label(*t),
{
    match *t {
        Tier::Unranked => "UNRANKED",
        Tier::Iron => "IRON",
        Tier::Bronze => "BRONZE",
        Tier::Silver => "SILVER",
        Tier::Gold => "GOLD",
        Tier::Platinum => "PLATINUM",
        Tier::Emerald => "EMERALD",
        Tier::Diamond => "DIAMOND",
        Tier::Master => "MASTER",
        Tier::Grandmaster => "GRANDMASTER",
        Tier::Challenger => "CHALLENGER",
    }
}

/// The display label of a division.
pub fn division_label_str(d: &Division) -> (r: &'static str)
    ensures
        r@ == division_label(*d),
{
    match *d {
        Division::I => "I",
        Division::II => "II",
        Division::III => "III",
        Division::IV => "IV",
    }
}

/// Append one data row for `e` at the given 1-indexed position.
#[verifier::rlimit(60)]
fn push_row(out: &mut Vec<char>, position: u64, e: &RankedEntry)
    requires
        displayable(*e),
    ensures
        final(out)@ == old(out)@ + render_row(position as nat, *e),
{
    let ghost start = out@;
    push_str_chars(out, "`");
    let position_digits = format_u64(position);
    push_pad_right(out, &position_digits, 2);
    push_str_chars(out, "` `");
    let name_chars = chars_of(e.name.as_str());
    push_pad_right(out, &name_chars, 16);
    push_str_chars(out, "` `");
    let tier_chars = chars_of(tier_label_str(&e.tier.unwrap()));
    push_pad_right(out, &tier_chars, 10);
    push_str_chars(out, " ");
    let division_chars = chars_of(division_label_str(&e.division.unwrap()));
    push_pad_left(out, &division_chars, 3);
    push_str_chars(out, "` `");
    let points_digits = format_i32(e.points);
    push_pad_left(out, &points_digits, 4);
    push_str_chars(out, "LP` `");
    let wins_digits = format_u64(e.wins as u64);
    push_pad_left(out, &wins_digits, 3);
    push_str_chars(out, "W` `");
    let losses_digits = format_u64(e.losses as u64);
    push_pad_left(out, &losses_digits, 3);
    push_str_chars(out, "L` `");
    let rate_digits = format_u64(win_rate_pct(e.wins, e.losses) as u64);
    push_all(out, &rate_digits);
    push_str_chars(out, "%`");
    let ghost before_marker = out@;
    if e.veteran {
        push_str_chars(out, " 👴");
    } else if e.hot_streak {
        push_str_chars(out, " 🔥");
    }
    proof {
        if !e.veteran && !e.hot_streak {
            assert(out@ =~= before_marker + marker(e.veteran, e.hot_streak));
        }
    }
    push_str_chars(out, "\n");
    proof {
        let pos = position as nat;
        let p1 = "`"@;
        let p2 = pad_right(dec_spec(pos), 2);
        let p3 = "` `"@;
        let p4 = pad_right(e.name@, 16);
        let p5 = "` `"@;
        let p6 = pad_right(tier_label(e.tier->0), 10);
        let p7 = " "@;
        let p8 = pad_left(division_label(e.division->0), 3);
        let p9 = "` `"@;
        let p10 = pad_left(dec_int_spec(e.points as int), 4);
        let p11 = "LP` `"@;
        let p12 = pad_left(dec_spec(e.wins as nat), 3);
        let p13 = "W` `"@;
        let p14 = pad_left(dec_spec(e.losses as nat), 3);
        let p15 = "L` `"@;
        let p16 = dec_spec(win_rate(e.wins as nat, e.losses as nat));
        let p17 = "%`"@;
        let p18 = marker(e.veteran, e.hot_streak);
        let p19 = "\n"@;
        let q2 = p1 + p2;
        let q3 = q2 + p3;
        let q4 = q3 + p4;
        let q5 = q4 + p5;
        let q6 = q5 + p6;
        let q7 = q6 + p7;
        let q8 = q7 + p8;
        let q9 = q8 + p9;
        let q10 = q9 + p10;
        let q11 = q10 + p11;
        let q12 = q11 + p12;
        let q13 = q12 + p13;
        let q14 = q13 + p14;
        let q15 = q14 + p15;
        let q16 = q15 + p16;
        let q17 = q16 + p17;
        let q18 = q17 + p18;
        let q19 = q18 + p19;
        vstd::seq_lib::lemma_concat_associative(start, p1, p2);
        vstd::seq_lib::lemma_concat_associative(start, q2, p3);
        vstd::seq_lib::lemma_concat_associative(start, q3, p4);
        vstd::seq_lib::lemma_concat_associative(start, q4, p5);
        vstd::seq_lib::lemma_concat_associative(start, q5, p6);
        vstd::seq_lib::lemma_concat_associative(start, q6, p7);
        vstd::seq_lib::lemma_concat_associative(start, q7, p8);
        vstd::seq_lib::lemma_concat_associative(start, q8, p9);
        vstd::seq_lib::lemma_concat_associative(start, q9, p10);
        vstd::seq_lib::lemma_concat_associative(start, q10, p11);
        vstd::seq_lib::lemma_concat_associative(start, q11, p12);
        vstd::seq_lib::lemma_concat_associative(start, q12, p13);
        vstd::seq_lib::lemma_concat_associative(start, q13, p14);
        vstd::seq_lib::lemma_concat_associative(start, q14, p15);
        vstd::seq_lib::lemma_concat_associative(start, q15, p16);
        vstd::seq_lib::lemma_concat_associative(start, q16, p17);
        vstd::seq_lib::lemma_concat_associative(start, q17, p18);
        vstd::seq_lib::lemma_concat_associative(start, q18, p19);
        assert(out@ == start + q19);
        assert(q19 == render_row(pos, *e));
    }
}

/// The characters of a string slice, in order.
pub fn chars_of(s: &str) -> (r: Vec<char>)
    ensures
        r@ == s@,
{
    let mut r: Vec<char> = Vec::new();
    push_str_chars(&mut r, s);
    proof {
        assert(Seq::<char>::empty() + s@ =~= s@);
    }
    r
}

/// Render the header and the first `min(limit, len)` entries.
pub fn render_board(entries: &Vec<RankedEntry>, limit: usize) -> (out: Vec<char>)
    requires
        forall|k: int| 0 <= k < entries@.len() ==> displayable(#[trigger] entries@[k]),
    ensures
        out@ == render_spec(
            entries@,
            if limit <= entries@.len() {
                limit as nat
            } else {
                entries@.len()
            },
        ),
{
    let mut out: Vec<char> = Vec::new();
    push_str_chars(
        &mut out,
        "`# ` `    Summoner    ` `     Rank     ` `  LP  ` `Win ` `Loss` `WL%`\n",
    );
    proof {
        assert(out@ =~= header());
    }
    let n = entries.len();
    let count = if limit < n {
        limit
    } else {
        n
    };
    let mut i: usize = 0;
    while i < count
        invariant
            count <= n == entries@.len(),
            forall|k: int| 0 <= k < entries@.len() ==> displayable(#[trigger] entries@[k]),
            0 <= i <= count,
            out@ == render_spec(entries@, i as nat),
        decreases count - i,
    {
        push_row(&mut out, (i as u64) + 1, &entries[i]);
        i += 1;
    }
    out
}

/// Render at most `limit` rows, but reduce the row count — never cut a row in
/// half — until the whole text fits within `max_len` characters. Returns the
/// row count actually used and the text; only a header that itself exceeds
/// the bound can leave an oversized result, at row count zero.
pub fn render_fitting(entries: &Vec<RankedEntry>, limit: usize, max_len: usize) -> (r: (
    usize,
    Vec<char>,
))
    requires
        forall|k: int| 0 <= k < entries@.len() ==> displayable(#[trigger] entries@[k]),
    ensures
        r.0 <= limit && r.0 <= entries@.len(),
        r.1@ == render_spec(entries@, r.0 as nat),
        r.1@.len() <= max_len || r.0 == 0,
        forall|j: nat|
            r.0 < j <= limit && j <= entries@.len() ==> #[trigger] render_spec(entries@,
                j,
            ).len() > max_len,
{
    let n = entries.len();
    let mut k: usize = if limit < n {
        limit
    } else {
        n
    };
    let mut out = render_board(entries, k);
    while out.len() > max_len && k > 0
        invariant
            n == entries@.len(),
            forall|j: int| 0 <= j < entries@.len() ==> displayable(#[trigger] entries@[j]),
            k <= limit,
            k <= n,
            out@ == render_spec(entries@, k as nat),
            forall|j: nat|
                k < j <= limit && j <= entries@.len() ==> #[trigger] render_spec(entries@,
                    j,
                ).len() > max_len,
        decreases k,
    {
        k -= 1;
        out = render_board(entries, k);
    }
    (k, out)
}

/// Relies on `String::from_iter` (via `Iterator::collect`): the resulting
/// string consists of exactly the iterated characters, in order.
#[verifier::external_body]
fn chars_to_string(v: &Vec<char>) -> (s: String)
    ensures
        s@ == v@,
{
    v.iter().collect()
}

/// Render at most `limit` rows within `max_len` characters, as a string.
/// Returns the row count used and the text.
pub fn render_message(entries: &Vec<RankedEntry>, limit: usize, max_len: usize) -> (r: (
    usize,
    String,
))
    requires
        forall|k: int| 0 <= k < entries@.len() ==> displayable(#[trigger] entries@[k]),
    ensures
        r.0 <= limit && r.0 <= entries@.len(),
        r.1@ == render_spec(entries@, r.0 as nat),
        r.1@.len() <= max_len || r.0 == 0,
        forall|j: nat|
            r.0 < j <= limit && j <= entries@.len() ==> #[trigger] render_spec(entries@,
                j,
            ).len() > max_len,
{
    let (k, chars) = render_fitting(entries, limit, max_len);
    let s = chars_to_string(&chars);
    (k, s)
}

} // verus!
