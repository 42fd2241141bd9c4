//! What stands on the screen: texts, their colours, and when it is drawn.

use vstd::arithmetic::power2::*;
use vstd::prelude::*;
use vstd::string::*;

use crate::outside::{occurs, occurs_at, text_contains};
use crate::rounding::{
    half_even, is_above, lemma_half_even, lemma_half_even_above, lemma_half_even_at_most,
    lemma_powers_apart, lemma_quotient_is_monotone, lemma_rounded, lemma_rounded_is_monotone, lemma_scale, quotient,
    round_quotient, round_whole, rounded, scale_of, Ratio, LEAST_FULL, TOO_LONG,
};
use crate::text::{decimal, decimal_text, push_decimal};
use crate::tui::{TuiModel, TuiState};

verus! {

/// How often the screen is drawn when no key is pressed, in nanoseconds.
pub const TICK: u128 = 250_000_000;

/// The colour of a text.
#[derive(Clone, Copy, Debug, PartialEq, Eq, Structural)]
pub enum Color {
    White,
    Green,
    Yellow,
    Red,
    Cyan,
}

/// A piece of a line.
#[derive(Debug)]
pub struct Piece {
    pub text: String,
    pub color: Color,
    pub bold: bool,
}

/// The mathematical value of a [`Piece`].
#[verifier::ext_equal]
pub struct PieceModel {
    pub text: Seq<char>,
    pub color: Color,
    pub bold: bool,
}

impl View for Piece {
    type V = PieceModel;

    open spec fn view(&self) -> PieceModel {
        PieceModel { text: self.text@, color: self.color, bold: self.bold }
    }
}

/// The models of the pieces of these lines.
pub open spec fn line_models(lines: Seq<Vec<Piece>>) -> Seq<Seq<PieceModel>> {
    lines.map_values(|line: Vec<Piece>| line@.map_values(|piece: Piece| piece@))
}

/// A piece in plain type.
pub open spec fn plain(text: Seq<char>, color: Color) -> PieceModel {
    PieceModel { text, color, bold: false }
}

/// What is counted: shares in a pool, blocks alone.
pub open spec fn item_text(is_pool: bool) -> Seq<char> {
    if is_pool {
        "Shares"@
    } else {
        "Blocks"@
    }
}

/// The title of the screen.
pub open spec fn header_text(is_pool: bool) -> Seq<char> {
    "SnapCoin Miner - "@ + (if is_pool {
        "POOL"@
    } else {
        "SOLO"@
    }) + " Mode - Press 'q' to quit"@
}

/// The acceptance rate in percent, in double precision: the counts, their quotient and a hundred
/// times that are rounded, one after the other. It is zero while nothing has been accepted.
pub open spec fn accept_rate(accepted: int, rejected: int) -> Ratio {
    if accepted <= 0 {
        Ratio { num: 0, den: 1 }
    } else {
        let share = quotient(rounded(accepted), rounded(accepted + rejected));
        quotient(share.num * 100, share.den)
    }
}

/// The colour of a rate in percent: green above 95, yellow above 80, red otherwise.
pub open spec fn rate_band(rate: Ratio) -> Color {
    if is_above(rate, 95) {
        Color::Green
    } else if is_above(rate, 80) {
        Color::Yellow
    } else {
        Color::Red
    }
}

/// The colour of the acceptance rate.
pub open spec fn accept_band(accepted: int, rejected: int) -> Color {
    rate_band(accept_rate(accepted, rejected))
}

/// The colour of a message in the log, by the words that it holds; the first that fits counts.
pub open spec fn event_band(event: Seq<char>) -> Color {
    if occurs(event, "accepted"@) || occurs(event, "Connected"@) {
        Color::Green
    } else if occurs(event, "rejected"@) || occurs(event, "error"@) || occurs(event, "Error"@) {
        Color::Red
    } else if occurs(event, "New job"@) {
        Color::Yellow
    } else {
        Color::White
    }
}

/// The lines of the statistics, given the texts of the hash rate, of the acceptance rate and of
/// the estimate per hour.
pub open spec fn stats_text<R>(
    state: TuiModel<R>,
    hashrate: Seq<char>,
    accept_rate: Seq<char>,
    per_hour: Seq<char>,
) -> Seq<Seq<PieceModel>> {
    let item = item_text(state.is_pool);
    seq![
        seq![
            plain("Hashrate: "@, Color::White),
            PieceModel { text: hashrate, color: Color::Green, bold: true },
        ],
        seq![
            plain(item + ": "@, Color::White),
            plain(decimal(state.accepted_count as nat), Color::Green),
            plain(" accepted, "@, Color::White),
            plain(decimal(state.rejected_count as nat), Color::Red),
            plain(" rejected"@, Color::White),
        ],
        seq![
            plain("Accept Rate: "@, Color::White),
            plain(
                accept_rate,
                accept_band(state.accepted_count as int, state.rejected_count as int),
            ),
        ],
        seq![
            plain("Est. "@, Color::White),
            plain(item + "/hour: "@, Color::White),
            plain(per_hour, Color::Cyan),
        ],
        seq![
            plain("Current Job: "@, Color::White),
            plain(decimal(state.current_job_id as nat), Color::Yellow),
        ],
    ]
}

/// A piece in plain type.
fn piece(text: String, color: Color) -> (r: Piece)
    ensures
        r@ == plain(text@, color),
{
    Piece { text, color, bold: false }
}

/// What is counted.
pub fn item_name(is_pool: bool) -> (r: &'static str)
    ensures
        r@ == item_text(is_pool),
{
    if is_pool {
        "Shares"
    } else {
        "Blocks"
    }
}

/// The title of the screen.
pub fn header_title(is_pool: bool) -> (r: String)
    ensures
        r@ == header_text(is_pool),
{
    let mut text = String::from_str("SnapCoin Miner - ");
    if is_pool {
        text.append("POOL");
    } else {
        text.append("SOLO");
    }
    text.append(" Mode - Press 'q' to quit");
    text
}

/// The colour of the acceptance rate.
pub fn accept_color(accepted: u64, rejected: u64) -> (r: Color)
    requires
        accepted + rejected <= u64::MAX,
    ensures
        r == accept_band(accepted as int, rejected as int),
{
    if accepted == 0 {
        return Color::Red;
    }
    let part: u128 = round_whole(accepted);
    let whole: u128 = round_whole(accepted + rejected);
    proof {
        lemma_rounded(accepted as int);
        lemma_rounded(accepted + rejected);
    }
    if 2 * part < whole {
        proof {
            lemma_less_than_half(part as int, whole as int);
        }
        return Color::Red;
    }
    let (share, scale) = round_quotient(part, whole);
    proof {
        lemma_share(part as int, whole as int);
    }
    let (rate, unit) = round_quotient(share * 100, scale);
    proof {
        lemma_scale(share * 100, scale as int);
        let full = TOO_LONG as int;
        assert(unit <= scale * full) by (nonlinear_arith)
            requires
                unit > 1 ==> (share * 100) * unit < scale * full,
                share > 0,
                unit >= 1,
                scale >= 1,
                full == TOO_LONG,
        ;
        assert(scale * full < 0x80_0000_0000_0000 * full) by (nonlinear_arith)
            requires
                scale < 0x80_0000_0000_0000,
                full > 0,
        ;
    }
    if rate > 95 * unit {
        Color::Green
    } else if rate > 80 * unit {
        Color::Yellow
    } else {
        Color::Red
    }
}

/// A share of a half or more fits a narrow fraction.
proof fn lemma_share(part: int, whole: int)
    requires
        0 < part,
        0 < whole <= 2 * part,
        part < 0x4_0000_0000_0000_0000,
    ensures
        0 < quotient(part, whole).num <= 0x8_0000_0000_0000_0000,
        1 <= quotient(part, whole).den < 0x80_0000_0000_0000,
{
    lemma_scale(part, whole);
    let s = scale_of(part, whole);
    let m = half_even(part * s, whole);
    let full = LEAST_FULL as int;
    assert(s < 0x80_0000_0000_0000) by (nonlinear_arith)
        requires
            s > 1 ==> part * s < whole * TOO_LONG,
            whole <= 2 * part,
            part > 0,
            s >= 1,
    ;
    assert(2 * (part * s) > (2 * (full - 1) + 1) * whole) by (nonlinear_arith)
        requires
            part * s >= whole * full,
            whole > 0,
    ;
    lemma_half_even_above(part * s, whole, full - 1);
    lemma_half_even(part * s, whole);
    if s > 1 {
        assert(m <= TOO_LONG + 1) by (nonlinear_arith)
            requires
                2 * (m * whole) <= 2 * (part * s) + whole,
                part * s < whole * TOO_LONG,
                whole > 0,
        ;
    } else {
        assert(part * s == part) by (nonlinear_arith)
            requires
                s == 1,
        ;
        assert(m <= part + 1) by (nonlinear_arith)
            requires
                2 * (m * whole) <= 2 * part + whole,
                whole >= 1,
                part > 0,
        ;
    }
}

/// A share of less than a half is red.
proof fn lemma_less_than_half(part: int, whole: int)
    requires
        0 < part,
        2 * part < whole,
    ensures
        rate_band(quotient(quotient(part, whole).num * 100, quotient(part, whole).den))
            == Color::Red,
{
    lemma_scale(part, whole);
    let s = scale_of(part, whole);
    let m = half_even(part * s, whole);
    let full = LEAST_FULL as int;
    assert(2 * (part * s) > (2 * (full - 1) + 1) * whole) by (nonlinear_arith)
        requires
            part * s >= whole * full,
            whole > 0,
    ;
    lemma_half_even_above(part * s, whole, full - 1);
    lemma_half_even(part * s, whole);
    // the rounded share is little more than a half
    assert(2 * m <= s + 1) by (nonlinear_arith)
        requires
            2 * (m * whole) <= 2 * (part * s) + whole,
            2 * part < whole,
            s >= 1,
            whole > 0,
    ;
    assert(s >= full) by (nonlinear_arith)
        requires
            part * s >= whole * full,
            2 * part < whole,
            part > 0,
            full > 0,
    ;
    lemma_scale(m * 100, s);
    let u = scale_of(m * 100, s);
    assert(2 * ((m * 100) * u) < (2 * (80 * u) + 1) * s) by (nonlinear_arith)
        requires
            m * 100 <= 80 * s,
            u >= 1,
            s > 0,
    ;
    lemma_half_even_at_most((m * 100) * u, s, 80 * u);
}

/// The colour of a message in the log.
pub fn event_color(event: &str) -> (r: Color)
    ensures
        r == event_band(event@),
{
    if text_contains(event, "accepted") || text_contains(event, "Connected") {
        Color::Green
    } else if text_contains(event, "rejected") || text_contains(event, "error") || text_contains(
        event,
        "Error",
    ) {
        Color::Red
    } else if text_contains(event, "New job") {
        Color::Yellow
    } else {
        Color::White
    }
}

/// The title of the gauge of the thread at `index`.
pub fn thread_title(index: usize) -> (r: String)
    requires
        index < usize::MAX,
    ensures
        r@ == "T"@ + decimal(index as nat + 1),
{
    let mut text = String::from_str("T");
    push_decimal(&mut text, (index + 1) as u64);
    text
}

/// The name of the graph, in the unit that its largest value is shown in.
pub fn graph_name(unit: &str) -> (r: String)
    ensures
        r@ == "Hashrate ("@ + unit@ + ")"@,
{
    let mut text = String::from_str("Hashrate (");
    text.append(unit);
    text.append(")");
    text
}

/// The title of the rate axis.
pub fn rate_axis_title(unit: &str) -> (r: String)
    ensures
        r@ == "Rate ("@ + unit@ + ")"@,
{
    let mut text = String::from_str("Rate (");
    text.append(unit);
    text.append(")");
    text
}

/// The title of the graph, which says how far back it goes once there is anything to show.
pub fn graph_title(is_empty: bool) -> (r: &'static str)
    ensures
        r@ == (if is_empty {
            "Hashrate History"@
        } else {
            "Hashrate History (60s)"@
        }),
{
    if is_empty {
        "Hashrate History"
    } else {
        "Hashrate History (60s)"
    }
}

/// What is left of a tick after `elapsed` nanoseconds.
pub open spec fn rest_of_tick(elapsed: int) -> int {
    if elapsed <= TICK {
        TICK - elapsed
    } else {
        0
    }
}

/// How long to wait for a key when the last tick was `elapsed` nanoseconds ago.
pub fn poll_timeout(elapsed: u128) -> (r: u128)
    ensures
        r == rest_of_tick(elapsed as int),
{
    if elapsed <= TICK {
        TICK - elapsed
    } else {
        0
    }
}

/// Whether a new tick begins when the last was `elapsed` nanoseconds ago.
pub fn tick_is_over(elapsed: u128) -> (r: bool)
    ensures
        r == (elapsed >= TICK),
{
    elapsed >= TICK
}

/// Whether a key ends the miner.
pub fn is_quit_key(key: char) -> (r: bool)
    ensures
        r == (key == 'q'),
{
    key == 'q'
}

impl<R: Copy> TuiState<R> {
    /// The lines of the statistics, given the texts of the hash rate, of the acceptance rate and
    /// of the estimate per hour.
    pub fn stats_lines(&self, hashrate: &str, accept_rate: &str, per_hour: &str) -> (r: Vec<
        Vec<Piece>,
    >)
        requires
            self.accepted_count + self.rejected_count <= u64::MAX,
        ensures
            line_models(r@) == stats_text(self@, hashrate@, accept_rate@, per_hour@),
    {
        let mut rate_line: Vec<Piece> = Vec::new();
        rate_line.push(piece(String::from_str("Hashrate: "), Color::White));
        rate_line.push(
            Piece { text: String::from_str(hashrate), color: Color::Green, bold: true },
        );

        let mut counted = String::from_str(item_name(self.is_pool));
        counted.append(": ");
        let mut count_line: Vec<Piece> = Vec::new();
        count_line.push(piece(counted, Color::White));
        count_line.push(piece(decimal_text(self.accepted_count), Color::Green));
        count_line.push(piece(String::from_str(" accepted, "), Color::White));
        count_line.push(piece(decimal_text(self.rejected_count), Color::Red));
        count_line.push(piece(String::from_str(" rejected"), Color::White));

        let mut accept_line: Vec<Piece> = Vec::new();
        accept_line.push(piece(String::from_str("Accept Rate: "), Color::White));
        accept_line.push(
            piece(
                String::from_str(accept_rate),
                accept_color(self.accepted_count, self.rejected_count),
            ),
        );

        let mut hourly = String::from_str(item_name(self.is_pool));
        hourly.append("/hour: ");
        let mut hour_line: Vec<Piece> = Vec::new();
        hour_line.push(piece(String::from_str("Est. "), Color::White));
        hour_line.push(piece(hourly, Color::White));
        hour_line.push(piece(String::from_str(per_hour), Color::Cyan));

        let mut job_line: Vec<Piece> = Vec::new();
        job_line.push(piece(String::from_str("Current Job: "), Color::White));
        job_line.push(piece(decimal_text(self.current_job_id), Color::Yellow));

        let mut r: Vec<Vec<Piece>> = Vec::new();
        r.push(rate_line);
        r.push(count_line);
        r.push(accept_line);
        r.push(hour_line);
        r.push(job_line);
        proof {
            let shown = stats_text(self@, hashrate@, accept_rate@, per_hour@);
            let got = line_models(r@);
            assert(got[0] =~= shown[0]);
            assert(got[1] =~= shown[1]);
            assert(got[2] =~= shown[2]);
            assert(got[3] =~= shown[3]);
            assert(got[4] =~= shown[4]);
            assert(got =~= shown);
        }
        r
    }
}

/// One more refusal never makes the acceptance rate look better: a rate that is green with it is
/// green without it, and one that is not red with it is not red without it.
pub proof fn law_refusals_do_not_help(accepted: int, rejected: int)
    requires
        accepted >= 0,
        rejected >= 0,
    ensures
        accept_band(accepted, rejected + 1) == Color::Green ==> accept_band(accepted, rejected)
            == Color::Green,
        accept_band(accepted, rejected + 1) != Color::Red ==> accept_band(accepted, rejected)
            != Color::Red,
{
    if accepted > 0 {
        let part = rounded(accepted);
        let less = rounded(accepted + rejected);
        let more = rounded(accepted + rejected + 1);
        lemma_rounded(accepted);
        lemma_rounded(accepted + rejected);
        lemma_rounded_is_monotone(accepted + rejected, accepted + rejected + 1);
        assert(part * less <= part * more) by (nonlinear_arith)
            requires
                less <= more,
                part > 0,
        ;
        lemma_quotient_is_monotone(part, more, part, less);
        lemma_positive_quotient(part, less);
        lemma_positive_quotient(part, more);
        let high = quotient(part, less);
        let low = quotient(part, more);
        assert((low.num * 100) * high.den <= (high.num * 100) * low.den) by (nonlinear_arith)
            requires
                low.num * high.den <= high.num * low.den,
        ;
        lemma_quotient_is_monotone(low.num * 100, low.den, high.num * 100, high.den);
        lemma_positive_quotient(low.num * 100, low.den);
        lemma_positive_quotient(high.num * 100, high.den);
        let better = quotient(high.num * 100, high.den);
        let worse = quotient(low.num * 100, low.den);
        lemma_above_carries_over(worse, better, 95);
        lemma_above_carries_over(worse, better, 80);
    }
}

/// A positive quotient stays positive.
proof fn lemma_positive_quotient(num: int, den: int)
    requires
        num > 0,
        den > 0,
    ensures
        quotient(num, den).num > 0,
        quotient(num, den).den > 0,
{
    let s = scale_of(num, den);
    let full = LEAST_FULL as int;
    lemma_scale(num, den);
    assert(2 * (num * s) > (2 * (full - 1) + 1) * den) by (nonlinear_arith)
        requires
            num * s >= den * full,
            den > 0,
    ;
    lemma_half_even_above(num * s, den, full - 1);
}

/// What a fraction is above, a fraction that is no smaller is above too.
proof fn lemma_above_carries_over(low: Ratio, high: Ratio, bound: int)
    requires
        low.den > 0,
        high.den > 0,
        low.num * high.den <= high.num * low.den,
    ensures
        is_above(low, bound) ==> is_above(high, bound),
{
    if is_above(low, bound) {
        let (a, b, c, d) = (low.num, low.den, high.num, high.den);
        assert(c > bound * d) by (nonlinear_arith)
            requires
                a > bound * b,
                a * d <= c * b,
                b > 0,
                d > 0,
        {
            assert(a * d > (bound * b) * d);
            assert((bound * b) * d == (bound * d) * b);
            assert(c * b > (bound * d) * b);
        }
    }
}

/// Below a million million shares or blocks, rounding does not change the colour: it is green where
/// more than 95 percent were accepted, yellow where more than 80 percent were, and red otherwise.
pub proof fn law_usual_counts_have_the_exact_colour(accepted: int, rejected: int)
    requires
        accepted >= 0,
        rejected >= 0,
        accepted + rejected < 1_000_000_000_000,
    ensures
        accept_band(accepted, rejected) == (if accepted * 100 > (accepted + rejected) * 95 {
            Color::Green
        } else if accepted * 100 > (accepted + rejected) * 80 {
            Color::Yellow
        } else {
            Color::Red
        }),
{
    if accepted > 0 {
        lemma_rounded(accepted);
        lemma_rounded(accepted + rejected);
        lemma_usual_rate(accepted, accepted + rejected, 95);
        lemma_usual_rate(accepted, accepted + rejected, 80);
    }
}

/// Rounding does not carry a rate of usual counts across a bound.
proof fn lemma_usual_rate(part: int, whole: int, bound: int)
    requires
        0 < part <= whole < 1_000_000_000_000,
        64 <= bound < 100,
    ensures
        is_above(
            quotient(quotient(part, whole).num * 100, quotient(part, whole).den),
            bound,
        ) <==> part * 100 > whole * bound,
{
    let full = LEAST_FULL as int;
    let s = scale_of(part, whole);
    let m = half_even(part * s, whole);
    lemma_scale(part, whole);
    lemma_positive_quotient(part, whole);
    lemma_half_even(part * s, whole);
    lemma2_to64();
    lemma2_to64_rest();
    assert(full == pow2(52));
    assert(s >= full) by (nonlinear_arith)
        requires
            part * s >= whole * full,
            0 < part <= whole,
            full > 0,
    ;
    assert(m <= s) by (nonlinear_arith)
        requires
            2 * (m * whole) <= 2 * (part * s) + whole,
            0 < part <= whole,
            s >= 1,
    ;
    let u = scale_of(m * 100, s);
    let rate = half_even((m * 100) * u, s);
    lemma_scale(m * 100, s);
    // `excess` is twice the distance from the bound, in units of one over the scale
    let excess = 200 * m - 2 * (bound * s);
    assert(u > 0x2000_0000_0000) by (nonlinear_arith)
        requires
            (m * 100) * u >= s * full,
            0 < m <= s,
            full == 0x10_0000_0000_0000,
            u >= 1,
    ;
    assert((2 * (bound * u) + 1) * s == u * (2 * (bound * s)) + s) by (nonlinear_arith);
    assert(2 * ((m * 100) * u) == u * (200 * m)) by (nonlinear_arith);
    assert(u * excess == u * (200 * m) - u * (2 * (bound * s))) by (nonlinear_arith)
        requires
            excess == 200 * m - 2 * (bound * s),
    ;
    assert(excess * whole == 100 * (2 * (m * whole)) - 2 * ((bound * whole) * s))
        by (nonlinear_arith)
        requires
            excess == 200 * m - 2 * (bound * s),
    ;
    assert(bound * whole == whole * bound) by (nonlinear_arith);
    if part * 100 > whole * bound {
        assert(100 * (2 * (part * s)) >= 2 * ((bound * whole) * s) + 2 * s) by (nonlinear_arith)
            requires
                part * 100 >= bound * whole + 1,
                s >= 1,
        ;
        assert(excess * whole >= s);
        assert(u * excess > s) by (nonlinear_arith)
            requires
                excess * whole >= s,
                u > whole,
                whole > 0,
                s > 0,
        {
            assert(excess > 0);
            assert(u * excess > whole * excess);
        }
        lemma_half_even_above((m * 100) * u, s, bound * u);
    } else {
        assert(100 * (2 * (part * s)) <= 2 * ((bound * whole) * s)) by (nonlinear_arith)
            requires
                part * 100 <= bound * whole,
                s >= 1,
        ;
        assert(excess * whole <= 100 * whole);
        assert(excess <= 100) by (nonlinear_arith)
            requires
                excess * whole <= 100 * whole,
                whole > 0,
        ;
        if excess <= 0 {
            assert(u * excess <= 0) by (nonlinear_arith)
                requires
                    excess <= 0,
                    u >= 1,
            ;
        } else {
            assert(part < whole) by (nonlinear_arith)
                requires
                    part * 100 <= whole * bound,
                    bound < 100,
                    whole > 0,
            ;
            assert(s > full) by (nonlinear_arith)
                requires
                    part * s >= whole * full,
                    0 < part < whole,
                    full > 0,
            ;
            if s < 2 * full {
                lemma_powers_apart(s, full);
            }
            assert(m * 100 > 64 * s) by (nonlinear_arith)
                requires
                    200 * m > 2 * (bound * s),
                    bound >= 64,
                    s > 0,
            ;
            assert(u < 0x8000_0000_0000) by (nonlinear_arith)
                requires
                    (m * 100) * u < s * TOO_LONG,
                    m * 100 > 64 * s,
                    s > 0,
                    u >= 1,
            ;
            assert(pow2(46) == 0x4000_0000_0000);
            lemma_powers_apart(u, 0x4000_0000_0000);
            assert(u * excess <= 0x4000_0000_0000 * 100) by (nonlinear_arith)
                requires
                    0 < u <= 0x4000_0000_0000,
                    0 < excess <= 100,
            ;
        }
        lemma_half_even_at_most((m * 100) * u, s, bound * u);
    }
}

/// The wait for a key brings the tick to its end, and no further: after it, a new tick begins.
pub proof fn law_wait_completes_the_tick(elapsed: int)
    requires
        elapsed >= 0,
    ensures
        rest_of_tick(elapsed) >= 0,
        elapsed + rest_of_tick(elapsed) >= TICK,
        elapsed <= TICK ==> elapsed + rest_of_tick(elapsed) == TICK,
{
}

/// The lines of the statistics, word for word and with their colours.
pub proof fn law_statistics_word_for_word<R>(
    state: TuiModel<R>,
    hashrate: Seq<char>,
    rate: Seq<char>,
    per_hour: Seq<char>,
)
    ensures
        ({
            let lines = stats_text(state, hashrate, rate, per_hour);
            let item = if state.is_pool {
                "Shares"@
            } else {
                "Blocks"@
            };
            &&& lines.len() == 5
            &&& lines[0] == seq![
                (PieceModel { text: "Hashrate: "@, color: Color::White, bold: false }),
                (PieceModel { text: hashrate, color: Color::Green, bold: true }),
            ]
            &&& lines[1] == seq![
                (PieceModel { text: item + ": "@, color: Color::White, bold: false }),
                (PieceModel {
                    text: decimal(state.accepted_count as nat),
                    color: Color::Green,
                    bold: false,
                }),
                (PieceModel { text: " accepted, "@, color: Color::White, bold: false }),
                (PieceModel {
                    text: decimal(state.rejected_count as nat),
                    color: Color::Red,
                    bold: false,
                }),
                (PieceModel { text: " rejected"@, color: Color::White, bold: false }),
            ]
            &&& lines[2].len() == 2
            &&& lines[2][0] == (PieceModel {
                text: "Accept Rate: "@,
                color: Color::White,
                bold: false,
            })
            &&& lines[2][1].text == rate
            &&& !lines[2][1].bold
            &&& lines[2][1].color == accept_band(
                state.accepted_count as int,
                state.rejected_count as int,
            )
            &&& lines[3] == seq![
                (PieceModel { text: "Est. "@, color: Color::White, bold: false }),
                (PieceModel { text: item + "/hour: "@, color: Color::White, bold: false }),
                (PieceModel { text: per_hour, color: Color::Cyan, bold: false }),
            ]
            &&& lines[4] == seq![
                (PieceModel { text: "Current Job: "@, color: Color::White, bold: false }),
                (PieceModel {
                    text: decimal(state.current_job_id as nat),
                    color: Color::Yellow,
                    bold: false,
                }),
            ]
        }),
{
}

/// The values of lines are those of each of their pieces, in their order.
pub proof fn law_lines_are_shown_piece_by_piece(lines: Seq<Vec<Piece>>, i: int, k: int)
    requires
        0 <= i < lines.len(),
        0 <= k < lines[i]@.len(),
    ensures
        line_models(lines).len() == lines.len(),
        line_models(lines)[i].len() == lines[i]@.len(),
        line_models(lines)[i][k].text == lines[i]@[k].text@,
        line_models(lines)[i][k].color == lines[i]@[k].color,
        line_models(lines)[i][k].bold == lines[i]@[k].bold,
{
}

/// The titles, word for word.
pub proof fn law_titles_word_for_word()
    ensures
        header_text(true) == "SnapCoin Miner - "@ + "POOL"@ + " Mode - Press 'q' to quit"@,
        header_text(false) == "SnapCoin Miner - "@ + "SOLO"@ + " Mode - Press 'q' to quit"@,
        item_text(true) == "Shares"@,
        item_text(false) == "Blocks"@,
{
}

/// The colour of a message, by the words that stand anywhere in it.
pub proof fn law_colours_of_messages(event: Seq<char>)
    ensures
        ({
            let holds = |word: Seq<char>|
                exists|at: int|
                    0 <= at && at + word.len() <= event.len() && #[trigger] event.subrange(
                        at,
                        at + word.len(),
                    ) == word;
            let good = holds("accepted"@) || holds("Connected"@);
            let bad = holds("rejected"@) || holds("error"@) || holds("Error"@);
            &&& good ==> event_band(event) == Color::Green
            &&& !good && bad ==> event_band(event) == Color::Red
            &&& !good && !bad && holds("New job"@) ==> event_band(event) == Color::Yellow
            &&& !good && !bad && !holds("New job"@) ==> event_band(event) == Color::White
        }),
{
    lemma_holds(event, "accepted"@);
    lemma_holds(event, "Connected"@);
    lemma_holds(event, "rejected"@);
    lemma_holds(event, "error"@);
    lemma_holds(event, "Error"@);
    lemma_holds(event, "New job"@);
}

proof fn lemma_holds(event: Seq<char>, word: Seq<char>)
    ensures
        occurs(event, word) <==> exists|at: int|
            0 <= at && at + word.len() <= event.len() && #[trigger] event.subrange(
                at,
                at + word.len(),
            ) == word,
{
    if occurs(event, word) {
        let at = choose|at: int| occurs_at(event, word, at);
        assert(event.subrange(at, at + word.len()) == word);
    }
    if exists|at: int|
        0 <= at && at + word.len() <= event.len() && #[trigger] event.subrange(
            at,
            at + word.len(),
        ) == word {
        let at = choose|at: int|
            0 <= at && at + word.len() <= event.len() && #[trigger] event.subrange(
                at,
                at + word.len(),
            ) == word;
        assert(occurs_at(event, word, at));
    }
}

/// The wait for a key, in numbers: what is left of 250 milliseconds, and nothing when they are over.
pub proof fn law_wait_in_numbers(elapsed: int)
    requires
        elapsed >= 0,
    ensures
        elapsed <= 250_000_000 ==> elapsed + rest_of_tick(elapsed) == 250_000_000,
        elapsed > 250_000_000 ==> rest_of_tick(elapsed) == 0,
{
}

/// The acceptance rate is a hundred times the share of the accepted, each step rounded to the
/// nearest number of 53 significant bits; it is zero while nothing has been accepted.
pub proof fn law_acceptance_rate_step_by_step(accepted: int, rejected: int)
    requires
        accepted > 0,
        rejected >= 0,
    ensures
        ({
            let share = quotient(rounded(accepted), rounded(accepted + rejected));
            let rate = quotient(100 * share.num, share.den);
            &&& accept_band(accepted, rejected) == (if rate.num > 95 * rate.den {
                Color::Green
            } else if rate.num > 80 * rate.den {
                Color::Yellow
            } else {
                Color::Red
            })
        }),
        accept_band(0, rejected) == Color::Red,
{
}

} // verus!
