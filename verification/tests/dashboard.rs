use snap_coin_miner::rounding::{round_quotient, round_whole};
use snap_coin_miner::screen::{
    accept_color, event_color, graph_name, graph_title, header_title, is_quit_key, item_name,
    poll_timeout, rate_axis_title, thread_title, tick_is_over, Color,
};
use snap_coin_miner::stats::StatEvent;
use snap_coin_miner::tui::{log_line, Applied, RateQuery, Reading, TuiState};

const SECOND: u128 = 1_000_000_000;

fn float_color(accepted: u64, rejected: u64) -> Color {
    let total = accepted + rejected;
    let rate = if total > 0 { (accepted as f64 / total as f64) * 100.0 } else { 0.0 };
    if rate > 95.0 {
        Color::Green
    } else if rate > 80.0 {
        Color::Yellow
    } else {
        Color::Red
    }
}

fn dashboard() -> TuiState<f64> {
    TuiState::new(2, true, 0.0)
}

fn reading(elapsed: f64, instant: u128, millis: u64) -> Reading<f64> {
    Reading { elapsed, instant, millis, label: String::from("12:34:56") }
}

#[test]
fn a_new_dashboard_is_empty() {
    let state: TuiState<f64> = TuiState::new(3, true, 0.0);
    assert_eq!(state.current_hashrate, 0.0);
    assert!(state.hashrate_history.is_empty());
    assert_eq!(state.accepted_count, 0);
    assert_eq!(state.rejected_count, 0);
    assert_eq!(state.thread_hashes, vec![0.0, 0.0, 0.0]);
    assert_eq!(state.thread_hashes_last_update, vec![0, 0, 0]);
    assert!(state.events.is_empty());
    assert_eq!(state.current_job_id, 0);
    assert!(state.is_pool);
    assert!(state.share_timestamps.is_empty());
}

#[test]
fn messages_are_stamped_and_the_newest_is_on_top() {
    let mut state = dashboard();
    state.add_event_at("10:00:00", "first");
    state.add_event_at("10:00:01", "second");
    assert_eq!(state.events[0], "[10:00:01] second");
    assert_eq!(state.events[1], "[10:00:00] first");
    assert_eq!(log_line("a", "b"), "[a] b");
}

#[test]
fn messages_are_stamped_with_the_time_of_day() {
    let mut state = dashboard();
    state.add_event("hello");
    let line = &state.events[0];
    assert_eq!(line.len(), "[00:00:00] hello".len());
    assert!(line.ends_with("] hello"));
    assert_eq!(&line[3..4], ":");
    assert_eq!(&line[6..7], ":");
    assert!(line[1..3].parse::<u32>().unwrap() < 24);
    assert!(line[4..6].parse::<u32>().unwrap() < 60);
    assert!(line[7..9].parse::<u32>().unwrap() <= 60);
}

#[test]
fn the_log_keeps_a_hundred_messages() {
    let mut state = dashboard();
    for i in 0..150 {
        state.add_event_at("t", &format!("{}", i));
    }
    assert_eq!(state.events.len(), 100);
    assert_eq!(state.events[0], "[t] 149");
    assert_eq!(state.events[99], "[t] 50");
}

#[test]
fn the_graph_keeps_sixty_points() {
    let mut state = dashboard();
    assert_eq!(state.graph_span(), None);
    for i in 0..75 {
        state.update_hashrate(i as f64 * 10.0, i as f64);
    }
    assert_eq!(state.hashrate_history.len(), 60);
    assert_eq!(state.hashrate_history[0], (15.0, 150.0));
    assert_eq!(state.hashrate_history[59], (74.0, 740.0));
    assert_eq!(state.current_hashrate, 740.0);
    assert_eq!(state.graph_span(), Some((15.0, 74.0)));
}

#[test]
fn shares_of_the_last_ten_minutes_count() {
    let mut state = dashboard();
    state.record_share(0);
    state.record_share(100 * SECOND);
    state.record_share(600 * SECOND);
    assert_eq!(state.share_timestamps.len(), 3);
    state.record_share(600 * SECOND + 1);
    assert_eq!(state.share_timestamps.len(), 3);
    assert_eq!(state.share_timestamps[0], 100 * SECOND);
    state.record_share(5000 * SECOND);
    assert_eq!(state.share_timestamps.len(), 1);
}

#[test]
fn the_span_of_the_shares() {
    let mut state = dashboard();
    assert_eq!(state.share_span(), None);
    state.record_share(10 * SECOND);
    assert_eq!(state.share_span(), None);
    state.record_share(10 * SECOND);
    assert_eq!(state.share_span(), None);
    state.record_share(40 * SECOND);
    assert_eq!(state.share_span(), Some((3, 30 * SECOND)));
}

#[test]
fn hash_rates_are_taken_in() {
    let mut state = dashboard();
    let left = state.apply_at(StatEvent::HashRate(1234.5), &reading(3.0, 0, 0));
    assert_eq!(left, None);
    assert_eq!(state.current_hashrate, 1234.5);
    assert_eq!(state.hashrate_history[0], (3.0, 1234.5));
}

#[test]
fn thread_reports_ask_for_a_rate() {
    let mut state = dashboard();
    state.thread_hashes_last_update[1] = 500;
    let left = state.apply_at(StatEvent::ThreadHash(1, 100), &reading(0.0, 0, 2500));
    assert_eq!(left, Some(RateQuery { thread_id: 1, hashes: 100, elapsed_millis: 2000 }));
    assert_eq!(state.thread_hashes_last_update, vec![0, 2500]);
    state.set_thread_rate(1, 50.0);
    assert_eq!(state.thread_hashes, vec![0.0, 50.0]);
}

#[test]
fn reports_of_unknown_threads_are_passed_over() {
    let mut state = dashboard();
    assert_eq!(state.apply_at(StatEvent::ThreadHash(2, 100), &reading(0.0, 0, 9)), None);
    assert_eq!(state.thread_hashes_last_update, vec![0, 0]);
}

#[test]
fn accepted_and_refused_are_counted() {
    let mut state = dashboard();
    state.apply_at(StatEvent::ShareAccepted, &reading(0.0, SECOND, 0));
    state.apply_at(StatEvent::BlockAccepted, &reading(0.0, 2 * SECOND, 0));
    state.apply_at(StatEvent::ShareRejected, &reading(0.0, 3 * SECOND, 0));
    state.apply_at(StatEvent::BlockRejected, &reading(0.0, 4 * SECOND, 0));
    state.apply_at(StatEvent::BlockRejected, &reading(0.0, 5 * SECOND, 0));
    assert_eq!(state.accepted_count, 2);
    assert_eq!(state.rejected_count, 3);
    assert_eq!(state.share_span(), Some((2, SECOND)));
}

#[test]
fn new_jobs_are_logged() {
    let mut state = dashboard();
    state.apply_at(StatEvent::NewJob(17), &reading(0.0, 0, 0));
    assert_eq!(state.current_job_id, 17);
    assert_eq!(state.events[0], "[12:34:56] New job received (ID: 17)");
}

#[test]
fn messages_are_logged() {
    let mut state = dashboard();
    state.apply_at(StatEvent::Event(String::from("hi")), &reading(0.0, 0, 0));
    assert_eq!(state.events[0], "[12:34:56] hi");
}

#[test]
fn events_are_taken_in_by_the_clock() {
    let mut state = dashboard();
    match state.apply(StatEvent::ThreadHash(0, 100), 0.0, 0) {
        Applied::Rate(query) => {
            assert_eq!(query.thread_id, 0);
            assert_eq!(query.hashes, 100);
            assert!(query.elapsed_millis > 1_600_000_000_000);
            assert_eq!(query.elapsed_millis, state.thread_hashes_last_update[0]);
        }
        _ => panic!("a report asks for a rate"),
    }
    assert_eq!(state.apply(StatEvent::ShareAccepted, 0.0, 5), Applied::Done);
    assert_eq!(state.share_timestamps[0], 5);
    assert_eq!(state.apply(StatEvent::HashRate(2.0), 1.0, 5), Applied::Done);
    assert_eq!(state.hashrate_history[0], (1.0, 2.0));
    assert_eq!(state.apply(StatEvent::Event(String::from("hi")), 0.0, 5), Applied::Done);
    assert!(state.events[0].ends_with("] hi"));
}

#[test]
fn what_cannot_be_taken_in_is_refused() {
    let mut state = dashboard();
    state.thread_hashes_last_update[0] = u64::MAX;
    assert_eq!(state.apply(StatEvent::ThreadHash(0, 100), 0.0, 0), Applied::Refused);
    state.accepted_count = u64::MAX;
    assert_eq!(state.apply(StatEvent::ShareAccepted, 0.0, 0), Applied::Refused);
    assert_eq!(state.apply(StatEvent::BlockAccepted, 0.0, 0), Applied::Refused);
    state.rejected_count = u64::MAX;
    assert_eq!(state.apply(StatEvent::ShareRejected, 0.0, 0), Applied::Refused);
    assert_eq!(state.apply(StatEvent::BlockRejected, 0.0, 0), Applied::Refused);
    assert!(state.share_timestamps.is_empty());
}

#[test]
fn the_title_names_the_mode() {
    assert_eq!(header_title(true), "SnapCoin Miner - POOL Mode - Press 'q' to quit");
    assert_eq!(header_title(false), "SnapCoin Miner - SOLO Mode - Press 'q' to quit");
    assert_eq!(item_name(true), "Shares");
    assert_eq!(item_name(false), "Blocks");
}

#[test]
fn the_acceptance_rate_has_three_colours() {
    assert_eq!(accept_color(0, 0), Color::Red);
    assert_eq!(accept_color(1, 0), Color::Green);
    assert_eq!(accept_color(95, 5), Color::Yellow);
    assert_eq!(accept_color(96, 4), Color::Green);
    assert_eq!(accept_color(80, 20), Color::Red);
    assert_eq!(accept_color(81, 19), Color::Yellow);
    assert_eq!(accept_color(u64::MAX, 0), Color::Green);
    assert_eq!(accept_color(0, u64::MAX), Color::Red);
    assert_eq!(accept_color(1, u64::MAX - 1), Color::Red);
}

#[test]
fn the_acceptance_rate_is_rounded_before_it_is_coloured() {
    assert_eq!(accept_color(950_000_000_000_000_001, 49_999_999_999_999_999), Color::Yellow);
    assert_eq!(accept_color(800_000_000_000_000_001, 199_999_999_999_999_999), Color::Red);
    assert_eq!(accept_color(950_000_000_001, 49_999_999_998), Color::Green);
    assert_eq!(accept_color(950_000_000_000, 50_000_000_000), Color::Yellow);
}

#[test]
fn integers_are_rounded_to_53_bits() {
    assert_eq!(round_whole(0), 0);
    assert_eq!(round_whole((1 << 53) - 1), (1 << 53) - 1);
    assert_eq!(round_whole((1 << 53) + 1), 1 << 53);
    assert_eq!(round_whole((1 << 53) + 3), (1 << 53) + 4);
    assert_eq!(round_whole(u64::MAX), 1 << 64);
    let mut n: u64 = 88172645463325252;
    for _ in 0..2000 {
        n ^= n << 13;
        n ^= n >> 7;
        n ^= n << 17;
        for shift in [0, 5, 9, 11, 20] {
            assert_eq!(round_whole(n >> shift), (n >> shift) as f64 as u128);
        }
    }
}

#[test]
fn quotients_are_rounded_to_53_bits() {
    let (num, den) = round_quotient(1, 3);
    assert_eq!((num, den), (6004799503160661, 1 << 54));
    assert_eq!(num as f64 / den as f64, 1.0 / 3.0);
    assert_eq!(round_quotient(1, 1), (1 << 52, 1 << 52));
}

#[test]
fn the_acceptance_colours_agree_with_the_rate_in_floating_point() {
    for accepted in 0..300u64 {
        for rejected in 0..100u64 {
            assert_eq!(accept_color(accepted, rejected), float_color(accepted, rejected));
        }
    }
}

#[test]
fn the_acceptance_colours_agree_with_floating_point_near_the_bounds() {
    let mut n: u64 = 88172645463325252;
    for round in 0..4000 {
        n ^= n << 13;
        n ^= n >> 7;
        n ^= n << 17;
        let total = n >> (round % 60);
        for percent in [95u128, 80] {
            let bound = (total as u128 * percent / 100) as u64;
            for step in [0u64, 1, 2, 3, 17, 200, 4000] {
                for accepted in [bound.saturating_sub(step), bound.saturating_add(step)] {
                    if accepted <= total {
                        let rejected = total - accepted;
                        assert_eq!(
                            accept_color(accepted, rejected),
                            float_color(accepted, rejected)
                        );
                    }
                }
            }
        }
    }
}

#[test]
fn messages_are_coloured_by_their_words() {
    assert_eq!(event_color("[1] Share accepted"), Color::Green);
    assert_eq!(event_color("Connected to node"), Color::Green);
    assert_eq!(event_color("Share rejected"), Color::Red);
    assert_eq!(event_color("Job error: x"), Color::Red);
    assert_eq!(event_color("Error"), Color::Red);
    assert_eq!(event_color("New job received (ID: 1)"), Color::Yellow);
    assert_eq!(event_color("ERROR"), Color::White);
    assert_eq!(event_color(""), Color::White);
    assert_eq!(event_color("accepted, then rejected"), Color::Green);
    assert_eq!(event_color("New job error"), Color::Red);
}

#[test]
fn labels_of_the_graph_and_the_gauges() {
    assert_eq!(thread_title(0), "T1");
    assert_eq!(thread_title(11), "T12");
    assert_eq!(graph_name("kH/s"), "Hashrate (kH/s)");
    assert_eq!(rate_axis_title("kH/s"), "Rate (kH/s)");
    assert_eq!(graph_title(true), "Hashrate History");
    assert_eq!(graph_title(false), "Hashrate History (60s)");
}

#[test]
fn the_screen_ticks_four_times_a_second() {
    assert_eq!(poll_timeout(0), 250_000_000);
    assert_eq!(poll_timeout(100_000_000), 150_000_000);
    assert_eq!(poll_timeout(250_000_000), 0);
    assert_eq!(poll_timeout(300_000_000), 0);
    assert!(!tick_is_over(249_999_999));
    assert!(tick_is_over(250_000_000));
}

#[test]
fn the_quit_key() {
    assert!(is_quit_key('q'));
    assert!(!is_quit_key('Q'));
    assert!(!is_quit_key('x'));
}

#[test]
fn the_lines_of_the_statistics() {
    let mut state = dashboard();
    state.accepted_count = 90;
    state.rejected_count = 10;
    state.current_job_id = 12;
    let lines = state.stats_lines("1.50 kH/s", "90.0%", "3.25");
    let texts: Vec<String> =
        lines.iter().map(|l| l.iter().map(|p| p.text.as_str()).collect::<String>()).collect();
    assert_eq!(
        texts,
        vec![
            "Hashrate: 1.50 kH/s",
            "Shares: 90 accepted, 10 rejected",
            "Accept Rate: 90.0%",
            "Est. Shares/hour: 3.25",
            "Current Job: 12",
        ]
    );
    assert_eq!(lines[0][1].color, Color::Green);
    assert!(lines[0][1].bold);
    assert!(!lines[0][0].bold);
    assert_eq!(lines[1][3].color, Color::Red);
    assert_eq!(lines[2][1].color, Color::Yellow);
    assert_eq!(lines[3][2].color, Color::Cyan);
    assert_eq!(lines[4][1].color, Color::Yellow);
}

#[test]
fn a_refusal_never_improves_the_colour() {
    let rank = |color: Color| match color {
        Color::Green => 2,
        Color::Yellow => 1,
        _ => 0,
    };
    for accepted in 0..120u64 {
        for rejected in 0..40u64 {
            let before = rank(accept_color(accepted, rejected));
            assert!(rank(accept_color(accepted, rejected + 1)) <= before);
        }
    }
}

#[test]
fn waiting_for_a_key_completes_the_tick() {
    for elapsed in [0u128, 1, 100_000_000, 249_999_999, 250_000_000, 900_000_000] {
        assert!(tick_is_over(elapsed + poll_timeout(elapsed)));
    }
}
