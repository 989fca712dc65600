use radio_pipeline::pcm::PcmChunk;
use radio_pipeline::rate_limited_stream::{
    Pull, RateLimitedStream, Rated, BURST_SECONDS, WAKE_SLACK_MS,
};

fn limiter(rate: u64, burst: u64, now: u64) -> RateLimitedStream<()> {
    RateLimitedStream::new((), rate, burst, now)
}

#[test]
fn rates_of_the_two_kinds() {
    assert_eq!(<Vec<u8> as Rated>::RATE, 100_000);
    assert_eq!(<PcmChunk as Rated>::RATE, 44_100);
    assert_eq!(WAKE_SLACK_MS, 100);
    assert_eq!(BURST_SECONDS, 1_000);
}

#[test]
fn quantity_of_bytes_is_their_count() {
    assert_eq!(vec![0u8; 417].quantity(), 417);
    assert_eq!(Vec::<u8>::new().quantity(), 0);
}

#[test]
fn quantity_of_a_chunk_is_its_frames() {
    let chunk = PcmChunk::from_planes(vec![0; 1152], vec![0; 1152]);
    assert_eq!(chunk.quantity(), 1152);
    assert_eq!(PcmChunk::from_planes(Vec::new(), Vec::new()).quantity(), 0);
}

#[test]
fn budget_starts_full() {
    let s = limiter(100_000, 200_000, 77);
    assert_eq!(s.tokens(), 200_000);
    let s: RateLimitedStream<()> = RateLimitedStream::for_items::<Vec<u8>>((), 0);
    assert_eq!(s.tokens(), 100_000_000);
    let s: RateLimitedStream<()> = RateLimitedStream::for_items::<PcmChunk>((), 0);
    assert_eq!(s.tokens(), 44_100_000);
}

#[test]
fn burst_passes_without_delay() {
    let mut s = limiter(100_000, 200_000, 1_000);
    assert_eq!(s.on_item(100_000, 1_000), None);
    assert_eq!(s.tokens(), 100_000);
    assert_eq!(s.on_item(100_000, 1_000), None);
    assert_eq!(s.tokens(), 0);
    assert_eq!(s.poll_gate(1_000), None);
}

#[test]
fn deficit_schedules_a_delay_and_still_lets_the_item_pass() {
    let mut s = limiter(100_000, 200_000, 0);
    s.on_item(100_000, 0);
    s.on_item(100_000, 0);
    assert_eq!(s.on_item(100_000, 0), Some(900));
    assert_eq!(s.tokens(), -100_000);
    assert_eq!(s.poll_gate(0), Some(900));
    assert_eq!(s.poll_gate(899), Some(1));
    assert_eq!(s.poll_gate(900), None);
    assert_eq!(s.poll_gate(900), None);
}

#[test]
fn ten_items_at_the_rate_take_about_eight_seconds_beyond_the_burst() {
    let mut s = limiter(100_000, 200_000, 0);
    let mut now = 0u64;
    let mut delays = Vec::new();
    for _ in 0..10 {
        // The stage before is always ready: only the limiter holds pulls back.
        if let Some(remaining) = s.poll_gate(now) {
            now += remaining;
            assert_eq!(s.poll_gate(now), None);
        }
        delays.push(s.on_item(100_000, now));
    }
    assert_eq!(delays[0], None);
    assert_eq!(delays[1], None);
    assert_eq!(delays[2], Some(900));
    for d in &delays[3..] {
        assert_eq!(*d, Some(1_000));
    }
    // The eighth delay is still to be waited for when the tenth item passes.
    assert_eq!(now, 900 + 6 * 1_000);
    assert_eq!(now + delays[9].unwrap(), 7_900);
    assert_eq!(s.tokens(), -110_000);
}

#[test]
fn delay_is_the_deficit_over_the_rate_less_the_slack() {
    let mut s = limiter(100_000, 0, 0);
    assert_eq!(s.on_item(99_999, 0), Some(899));
    let mut s = limiter(100_000, 0, 0);
    assert_eq!(s.on_item(100_000, 0), Some(900));
    let mut s = limiter(100_000, 0, 0);
    assert_eq!(s.on_item(250_000, 0), Some(2_400));
    let mut s = limiter(100_000, 0, 0);
    assert_eq!(s.on_item(199_999, 0), Some(1_899));
    let mut s = limiter(44_100, 0, 0);
    assert_eq!(s.on_item(44_100 * 3 + 1, 0), Some(2_900));
    let mut s = limiter(44_100, 0, 0);
    assert_eq!(s.on_item(1_152, 0), Some(0));
    let mut s = limiter(44_100, 0, 0);
    assert_eq!(s.on_item(22_050, 0), Some(400));
    let mut s = limiter(1, 0, 0);
    assert_eq!(s.on_item(7, 0), Some(6_900));
}

#[test]
fn half_a_second_of_deficit_is_waited_for() {
    let mut s = limiter(100_000, 200_000, 0);
    assert_eq!(s.on_item(250_000, 0), Some(400));
    assert_eq!(s.tokens(), -50_000);
    assert_eq!(s.poll_gate(0), Some(400));
    assert_eq!(s.poll_gate(399), Some(1));
    assert_eq!(s.poll_gate(400), None);
}

#[test]
fn deficit_within_the_slack_is_not_waited_for() {
    let mut s = limiter(100_000, 0, 0);
    assert_eq!(s.on_item(10_000, 0), Some(0));
    assert_eq!(s.poll_gate(0), None);
    let mut s = limiter(100_000, 0, 0);
    assert_eq!(s.on_item(10_100, 0), Some(1));
    assert_eq!(s.poll_gate(0), Some(1));
}

#[test]
fn delay_is_cut_short_at_the_most_it_can_hold() {
    let mut s = limiter(1, 0, 0);
    assert_eq!(s.on_item(u64::MAX, 0), Some(u64::MAX - 100));
    let mut s = limiter(1_000, 0, 0);
    assert_eq!(s.on_item(u64::MAX, 0), Some(u64::MAX - 100));
    let mut s = limiter(1_001, 0, 0);
    assert_eq!(s.on_item(u64::MAX, 0), Some(18_428_315_757_951_600_014 - 100));
}

#[test]
fn waiting_out_the_delay_and_the_slack_makes_up_the_deficit() {
    for (rate, quantity) in [(100_000u64, 250_000u64), (44_100, 1_152), (44_100, 99_999), (7, 1_000), (1, 3)] {
        let mut s = limiter(rate, 0, 0);
        let delay = s.on_item(quantity, 0).unwrap();
        assert!(s.tokens() < 0);
        // Nothing more passes: the budget is only credited.
        s.on_item(0, delay + 100 + 1);
        assert!(s.tokens() >= 0, "rate {} quantity {}", rate, quantity);
    }
}

#[test]
fn no_delay_while_the_budget_is_not_negative() {
    let mut s = limiter(10, 100, 0);
    assert_eq!(s.on_item(100, 0), None);
    assert_eq!(s.tokens(), 0);
    assert_eq!(s.on_item(1, 0), Some(0));
    assert_eq!(s.tokens(), -1);
}

#[test]
fn time_credits_the_budget_at_the_rate() {
    let mut s = limiter(44_100, 1_000_000, 0);
    s.on_item(500_000, 0);
    assert_eq!(s.tokens(), 500_000);
    s.on_item(0, 1_000);
    assert_eq!(s.tokens(), 544_100);
    s.on_item(100, 1_500);
    assert_eq!(s.tokens(), 544_100 + 22_050 - 100);
    // 7 ms at 44,100 per second are 308.7 units: the fraction is dropped.
    s.on_item(0, 1_507);
    assert_eq!(s.tokens(), 544_100 + 22_050 - 100 + 308);
}

#[test]
fn idle_time_never_credits_beyond_the_burst() {
    let mut s = limiter(100_000, 200_000, 0);
    s.on_item(150_000, 0);
    assert_eq!(s.tokens(), 50_000);
    assert_eq!(s.on_item(10, 3_600_000), None);
    assert_eq!(s.tokens(), 200_000 - 10);
    assert_eq!(s.on_item(0, u64::MAX), None);
    assert_eq!(s.tokens(), 200_000);
}

#[test]
fn huge_rate_and_time_do_not_overflow() {
    let mut s = limiter(u64::MAX, u64::MAX, 0);
    assert_eq!(s.on_item(u64::MAX, 0), None);
    assert_eq!(s.tokens(), 0);
    assert_eq!(s.on_item(u64::MAX, u64::MAX), None);
    assert_eq!(s.tokens(), 0);
    assert_eq!(s.on_item(u64::MAX, u64::MAX), Some(900));
    assert_eq!(s.tokens(), -(u64::MAX as i128));
}

#[test]
fn clock_that_goes_back_credits_nothing() {
    let mut s = limiter(100_000, 200_000, 10_000);
    s.on_item(200_000, 10_000);
    assert_eq!(s.on_item(0, 5_000), None);
    assert_eq!(s.tokens(), 0);
    // Time is counted from the last item on.
    s.on_item(0, 6_000);
    assert_eq!(s.tokens(), 100_000);
}

#[test]
fn rate_of_zero_never_makes_up_a_deficit() {
    let mut s = limiter(0, 10, 0);
    assert_eq!(s.on_item(10, 0), None);
    assert_eq!(s.on_item(1, 1_000_000), Some(u64::MAX - 100));
    assert_eq!(s.tokens(), -1);
}

#[test]
fn wake_moment_does_not_overflow() {
    let mut s = limiter(0, 0, u64::MAX - 5);
    assert_eq!(s.on_item(1, u64::MAX - 5), Some(u64::MAX - 100));
    assert_eq!(s.poll_gate(u64::MAX - 5), Some(5));
    assert_eq!(s.poll_gate(u64::MAX), None);
}

#[test]
fn item_without_deficit_clears_the_delay() {
    let mut s = limiter(1_000, 0, 0);
    assert_eq!(s.on_item(2_000, 0), Some(1_900));
    // Pulled early all the same: the time that passed is credited.
    assert_eq!(s.on_item(0, 2_000), None);
    assert_eq!(s.poll_gate(2_000), None);
}

#[test]
fn rated_items_debit_their_quantity() {
    let mut s: RateLimitedStream<()> = RateLimitedStream::for_items::<Vec<u8>>((), 0);
    assert_eq!(s.on_rated(&vec![0u8; 400], 0), None);
    assert_eq!(s.tokens(), 100_000_000 - 400);
    let mut p: RateLimitedStream<()> = RateLimitedStream::new((), PcmChunk::RATE, 44_100, 0);
    let chunk = PcmChunk::from_planes(vec![0; 44_100], vec![0; 44_100]);
    assert_eq!(p.on_rated(&chunk, 0), None);
    assert_eq!(p.on_rated(&chunk, 0), Some(900));
    assert_eq!(p.on_rated(&chunk, 1_000), Some(900));
    assert_eq!(p.tokens(), -44_100);
}

#[test]
fn limiter_keeps_its_stream() {
    let mut s = RateLimitedStream::new(vec![1, 2, 3], 10, 10, 0);
    assert_eq!(s.stream_mut().pop(), Some(3));
    s.on_item(5, 0);
    s.poll_gate(0);
    assert_eq!(s.stream_mut().len(), 2);
    assert_eq!(s.tokens(), 5);
}

#[test]
fn passed_quantity_stays_within_burst_and_rate_times_window() {
    let rate = 44_100u64;
    let burst = 88_200u64;
    let mut s = limiter(rate, burst, 0);
    let mut now = 0u64;
    let mut passed: u128 = 0;
    let mut x: u64 = 99;
    for _ in 0..2_000 {
        if let Some(remaining) = s.poll_gate(now) {
            now += remaining;
        }
        x = x.wrapping_mul(6364136223846793005).wrapping_add(1442695040888963407);
        now += (x >> 60) % 40;
        let quantity = 500 + (x >> 40) % 4_000;
        s.on_item(quantity, now);
        passed += quantity as u128;
        let granted = burst as i128 + (now as i128 * rate as i128) / 1000;
        // What has passed and what is left of the budget never exceed what
        // was granted.
        assert!(passed as i128 + s.tokens() <= granted);
        if s.tokens() >= 0 {
            assert!(passed as i128 <= granted);
        }
    }
    // Over the long run the throughput is close to the rate.
    let mean = passed * 1000 / now as u128;
    assert!(mean >= rate as u128 * 9 / 10 && mean <= rate as u128 * 12 / 10, "mean {}", mean);
}

#[test]
fn pulled_item_is_handed_on_in_the_same_call() {
    let mut s = limiter(100_000, 200_000, 0);
    match s.on_pull(Pull::Item(vec![7u8; 150_000]), 0) {
        (Pull::Item(bytes), None) => assert_eq!(bytes, vec![7u8; 150_000]),
        _ => panic!("the item was due, and no delay"),
    }
    assert_eq!(s.tokens(), 50_000);
    // The item that brings the deficit passes all the same; the delay is
    // for the pull after it.
    match s.on_pull(Pull::Item(vec![9u8; 150_000]), 0) {
        (Pull::Item(bytes), Some(900)) => assert_eq!(bytes, vec![9u8; 150_000]),
        _ => panic!("the item was due, and a delay"),
    }
    assert_eq!(s.tokens(), -100_000);
    assert_eq!(s.poll_gate(0), Some(900));
}

#[test]
fn pending_and_ended_pulls_leave_the_budget_alone() {
    let mut s = limiter(100_000, 200_000, 0);
    s.on_item(250_000, 0);
    assert!(matches!(s.on_pull(Pull::<Vec<u8>>::Pending, 5_000), (Pull::Pending, None)));
    assert_eq!(s.tokens(), -50_000);
    assert!(matches!(s.on_pull(Pull::<Vec<u8>>::End, 9_000), (Pull::End, None)));
    assert_eq!(s.tokens(), -50_000);
    // The time that passed is credited with the next item.
    assert_eq!(s.on_item(0, 9_000), None);
    assert_eq!(s.tokens(), 200_000);
}
