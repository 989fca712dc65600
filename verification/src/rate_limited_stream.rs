//! The rate limiter: a budget that grows with time up to a bounded burst,
//! shrinks with every item that passes, and schedules a delay before the
//! next pull whenever it has fallen below zero.

use crate::pcm::PcmChunk;
use vstd::prelude::*;

verus! {

/// An item that the rate limiter can pace: it has a quantity, and its kind
/// has a nominal rate in units of quantity per second.
pub trait Rated {
    /// The nominal rate of items of this kind, in units per second.
    const RATE: u64;

    /// The quantity of this item.
    spec fn quantity_spec(&self) -> u64;

    /// The quantity of this item.
    fn quantity(&self) -> (q: u64)
        ensures
            q == self.quantity_spec(),
    ;
}

/// Compressed output is paced by its bytes.
impl Rated for Vec<u8> {
    const RATE: u64 = 100_000;

    open spec fn quantity_spec(&self) -> u64 {
        self@.len() as u64
    }

    fn quantity(&self) -> (q: u64) {
        self.len() as u64
    }
}

/// Canonical chunks are paced by their frames.
impl Rated for PcmChunk {
    const RATE: u64 = 44_100;

    open spec fn quantity_spec(&self) -> u64 {
        self@.len() as u64
    }

    fn quantity(&self) -> (q: u64) {
        self.frames() as u64
    }
}

/// How much earlier than the budget asks the limiter wakes, in milliseconds,
/// to leave time for the stages after it.
pub const WAKE_SLACK_MS: u64 = 100;

/// For how many seconds of its nominal rate a sequence of rated items may
/// run ahead of real time.
pub const BURST_SECONDS: u64 = 1_000;

/// The burst that goes with a nominal rate: what the rate grants in
/// `BURST_SECONDS`, or the most that a burst can be.
pub open spec fn burst_for(rate: u64) -> u64 {
    if rate * BURST_SECONDS > u64::MAX {
        u64::MAX
    } else {
        (rate * BURST_SECONDS) as u64
    }
}

/// The lowest value that the budget takes.
pub open spec fn budget_floor() -> int {
    i128::MIN as int
}

/// What a rate limiter holds.
pub struct PacingView {
    /// Units of quantity per second.
    pub rate: u64,
    /// The most that the budget holds before an item is debited.
    pub burst: u64,
    /// The budget, in units of quantity.
    pub tokens: int,
    /// When the budget was last credited, in milliseconds.
    pub last_checked: u64,
    /// Until when the limiter stays suspended, in milliseconds.
    pub wake_at: Option<u64>,
}

impl PacingView {
    /// What holds of every rate limiter: the budget is within its bounds.
    pub open spec fn valid(self) -> bool {
        budget_floor() <= self.tokens <= self.burst
    }
}

/// The time that has passed from `last` to `now`, in milliseconds; none
/// where the clock has gone back.
pub open spec fn elapsed_ms(last: u64, now: u64) -> int {
    if now >= last {
        now - last
    } else {
        0
    }
}

/// The budget after `elapsed` milliseconds have been credited at `rate`,
/// never above `burst`.
pub open spec fn credited(tokens: int, rate: u64, burst: u64, elapsed: int) -> int {
    let gained = elapsed * rate / 1000;
    if tokens + gained >= burst {
        burst as int
    } else {
        tokens + gained
    }
}

/// The budget after an item of `quantity` has been debited, never below the
/// floor.
pub open spec fn debited(budget: int, quantity: u64) -> int {
    if budget - quantity >= budget_floor() {
        budget - quantity
    } else {
        budget_floor()
    }
}

/// The time that `rate` needs to make up `deficit`, in milliseconds: the
/// deficit divided by the rate, and no more than a delay can hold. A rate
/// of zero never makes it up.
pub open spec fn recovery_ms(deficit: int, rate: u64) -> int {
    if rate == 0 || deficit * 1000 / (rate as int) > u64::MAX {
        u64::MAX as int
    } else {
        deficit * 1000 / (rate as int)
    }
}

/// The delay before the next pull that a budget of `tokens` calls for, in
/// milliseconds: none where the budget is not negative; else the time that
/// the rate needs to make up the deficit, less the slack, and never less
/// than zero.
pub open spec fn wake_delay(tokens: int, rate: u64) -> Option<u64> {
    if tokens >= 0 {
        None
    } else {
        let capped = recovery_ms(-tokens, rate);
        Some(
            if capped > WAKE_SLACK_MS {
                (capped - WAKE_SLACK_MS) as u64
            } else {
                0u64
            },
        )
    }
}

/// The moment that lies `delay` milliseconds after `now`, or the last
/// moment there is.
pub open spec fn moment_after(now: u64, delay: u64) -> u64 {
    if now + delay > u64::MAX {
        u64::MAX
    } else {
        (now + delay) as u64
    }
}

/// The limiter after an item of `quantity` has passed at the moment `now`.
pub open spec fn item_step(pacing: PacingView, quantity: u64, now: u64) -> PacingView {
    let tokens = debited(
        credited(pacing.tokens, pacing.rate, pacing.burst, elapsed_ms(pacing.last_checked, now)),
        quantity,
    );
    PacingView {
        rate: pacing.rate,
        burst: pacing.burst,
        tokens,
        last_checked: now,
        wake_at: match wake_delay(tokens, pacing.rate) {
            None => None,
            Some(delay) => Some(moment_after(now, delay)),
        },
    }
}

/// The limiter after a pull was asked for at the moment `now`, and for how
/// many milliseconds it stays suspended: none where no delay is scheduled
/// or the scheduled one has passed.
pub open spec fn gate_step(pacing: PacingView, now: u64) -> (PacingView, Option<u64>) {
    match pacing.wake_at {
        Some(wake) if now < wake => (pacing, Some((wake - now) as u64)),
        _ => (
            PacingView {
                rate: pacing.rate,
                burst: pacing.burst,
                tokens: pacing.tokens,
                last_checked: pacing.last_checked,
                wake_at: None,
            },
            None,
        ),
    }
}

/// What a pull on a sequence gives.
pub enum Pull<T> {
    /// Nothing is ready yet.
    Pending,
    /// The next item.
    Item(T),
    /// The sequence has ended.
    End,
}

/// The limiter after a pull on the wrapped sequence gave `upstream` at the
/// moment `now`: an item passes, anything else leaves the limiter as it is.
pub open spec fn after_pull<I: Rated>(pacing: PacingView, upstream: Pull<I>, now: u64) -> PacingView {
    match upstream {
        Pull::Item(item) => item_step(pacing, item.quantity_spec(), now),
        _ => pacing,
    }
}

/// The delay that is scheduled after a pull on the wrapped sequence gave
/// `upstream`: the one that the budget calls for once an item has passed,
/// and none where no item came.
pub open spec fn delay_after_pull<I: Rated>(pacing: PacingView, upstream: Pull<I>, now: u64) -> Option<
    u64,
> {
    match upstream {
        Pull::Item(item) => wake_delay(
            item_step(pacing, item.quantity_spec(), now).tokens,
            pacing.rate,
        ),
        _ => None,
    }
}

/// A sequence paced to a rate: the wrapped sequence and the state of its
/// budget.
pub struct RateLimitedStream<S> {
    stream: S,
    rate: u64,
    burst: u64,
    tokens: i128,
    last_checked: u64,
    wake_at: Option<u64>,
}

impl<S> View for RateLimitedStream<S> {
    type V = PacingView;

    closed spec fn view(&self) -> PacingView {
        PacingView {
            rate: self.rate,
            burst: self.burst,
            tokens: self.tokens as int,
            last_checked: self.last_checked,
            wake_at: self.wake_at,
        }
    }
}

impl<S> RateLimitedStream<S> {
    /// The wrapped sequence.
    pub closed spec fn stream(&self) -> S {
        self.stream
    }

    /// Paces `stream` to `rate` units per second, letting bursts of up to
    /// `burst` units pass, from the moment `now_ms` on. The budget starts
    /// full.
    pub fn new(stream: S, rate: u64, burst: u64, now_ms: u64) -> (limited: RateLimitedStream<S>)
        ensures
            limited@ == (PacingView {
                rate,
                burst,
                tokens: burst as int,
                last_checked: now_ms,
                wake_at: None,
            }),
            limited@.valid(),
            limited.stream() == stream,
    {
        RateLimitedStream {
            stream,
            rate,
            burst,
            tokens: burst as i128,
            last_checked: now_ms,
            wake_at: None,
        }
    }

    /// Paces a sequence of items of the kind `I` to the rate of that kind,
    /// with the burst that goes with that rate.
    pub fn for_items<I: Rated>(stream: S, now_ms: u64) -> (limited: RateLimitedStream<S>)
        ensures
            limited@ == (PacingView {
                rate: I::RATE,
                burst: burst_for(I::RATE),
                tokens: burst_for(I::RATE) as int,
                last_checked: now_ms,
                wake_at: None,
            }),
            limited@.valid(),
            limited.stream() == stream,
    {
        let burst: u64 = if I::RATE > u64::MAX / BURST_SECONDS {
            u64::MAX
        } else {
            I::RATE * BURST_SECONDS
        };
        RateLimitedStream::new(stream, I::RATE, burst, now_ms)
    }

    /// The budget, in units of quantity.
    pub fn tokens(&self) -> (tokens: i128)
        ensures
            tokens == self@.tokens,
    {
        self.tokens
    }

    /// The wrapped sequence, to make a pull on.
    pub fn stream_mut(&mut self) -> (stream: &mut S)
        ensures
            *stream == old(self).stream(),
            final(self).stream() == *final(stream),
            final(self)@ == old(self)@,
    {
        &mut self.stream
    }

    /// Asks for a pull at the moment `now_ms`. Returns for how many
    /// milliseconds the limiter stays suspended, or nothing where the pull
    /// may go on.
    pub fn poll_gate(&mut self, now_ms: u64) -> (remaining: Option<u64>)
        ensures
            (final(self)@, remaining) == gate_step(old(self)@, now_ms),
            final(self).stream() == old(self).stream(),
    {
        match self.wake_at {
            Some(wake) => {
                if now_ms < wake {
                    return Some(wake - now_ms);
                }
            },
            None => {},
        }
        self.wake_at = None;
        None
    }

    /// Lets an item of `quantity` pass at the moment `now_ms`: credits the
    /// budget for the time since the last item, debits the item, and returns
    /// the delay that is now scheduled before the next pull, if any. The item
    /// itself is not held back.
    pub fn on_item(&mut self, quantity: u64, now_ms: u64) -> (delay: Option<u64>)
        ensures
            final(self)@ == item_step(old(self)@, quantity, now_ms),
            delay == wake_delay(final(self)@.tokens, old(self)@.rate),
            old(self)@.valid() ==> final(self)@.valid(),
            final(self).stream() == old(self).stream(),
    {
        let elapsed: u64 = if now_ms >= self.last_checked {
            now_ms - self.last_checked
        } else {
            0
        };
        assert(elapsed as u128 * self.rate as u128 <= u128::MAX) by (nonlinear_arith)
            requires
                elapsed <= u64::MAX,
                self.rate <= u64::MAX,
        ;
        let gained: u128 = (elapsed as u128 * self.rate as u128) / 1000;
        let burst = self.burst as i128;
        let budget: i128 = if self.tokens >= burst {
            burst
        } else if self.tokens + gained as i128 >= burst {
            burst
        } else {
            self.tokens + gained as i128
        };
        let tokens: i128 = if budget >= i128::MIN + quantity as i128 {
            budget - quantity as i128
        } else {
            i128::MIN
        };
        self.tokens = tokens;
        self.last_checked = now_ms;
        if tokens >= 0 {
            self.wake_at = None;
            return None;
        }
        let ms: u64 = if self.rate == 0 {
            u64::MAX
        } else {
            let deficit: u128 = if tokens == i128::MIN {
                170141183460469231731687303715884105728u128
            } else {
                (-tokens) as u128
            };
            if deficit > u128::MAX / 1000 {
                proof {
                    lemma_recovery_beyond_any_delay(deficit as int, self.rate);
                }
                u64::MAX
            } else {
                let recovery: u128 = deficit * 1000 / self.rate as u128;
                if recovery > u64::MAX as u128 {
                    u64::MAX
                } else {
                    recovery as u64
                }
            }
        };
        let delay: u64 = if ms > WAKE_SLACK_MS {
            ms - WAKE_SLACK_MS
        } else {
            0
        };
        let wake: u64 = if delay > u64::MAX - now_ms {
            u64::MAX
        } else {
            now_ms + delay
        };
        self.wake_at = Some(wake);
        Some(delay)
    }

    /// Takes what a pull on the wrapped sequence gave at the moment
    /// `now_ms`, and gives what the pull on the paced sequence gives: the
    /// same, in this very call. An item is debited on its way, and the delay
    /// that this schedules holds back the next pull, not this item.
    pub fn on_pull<I: Rated>(&mut self, upstream: Pull<I>, now_ms: u64) -> (result: (
        Pull<I>,
        Option<u64>,
    ))
        ensures
            result.0 == upstream,
            result.1 == delay_after_pull(old(self)@, upstream, now_ms),
            final(self)@ == after_pull(old(self)@, upstream, now_ms),
            old(self)@.valid() ==> final(self)@.valid(),
            final(self).stream() == old(self).stream(),
    {
        match upstream {
            Pull::Item(item) => {
                let delay = self.on_rated(&item, now_ms);
                (Pull::Item(item), delay)
            },
            Pull::Pending => (Pull::Pending, None),
            Pull::End => (Pull::End, None),
        }
    }

    /// Lets `item` pass at the moment `now_ms`, debiting its quantity.
    pub fn on_rated<I: Rated>(&mut self, item: &I, now_ms: u64) -> (delay: Option<u64>)
        ensures
            final(self)@ == item_step(old(self)@, item.quantity_spec(), now_ms),
            delay == wake_delay(final(self)@.tokens, old(self)@.rate),
            old(self)@.valid() ==> final(self)@.valid(),
            final(self).stream() == old(self).stream(),
    {
        let quantity = item.quantity();
        self.on_item(quantity, now_ms)
    }
}

/// One item passing the limiter: the moment, in milliseconds, and the
/// quantity of the item.
pub struct Passage {
    pub now: u64,
    pub quantity: u64,
}

/// The limiter after `items` have passed in turn.
pub open spec fn run(pacing: PacingView, items: Seq<Passage>) -> PacingView
    decreases items.len(),
{
    if items.len() == 0 {
        pacing
    } else {
        run(item_step(pacing, items[0].quantity, items[0].now), items.skip(1))
    }
}

/// The quantity of all of `items` together.
pub open spec fn total_quantity(items: Seq<Passage>) -> int
    decreases items.len(),
{
    if items.len() == 0 {
        0
    } else {
        items[0].quantity + total_quantity(items.skip(1))
    }
}

/// The time that the limiter sees pass while `items` pass, in milliseconds,
/// counted from the moment `last`.
pub open spec fn total_elapsed(last: u64, items: Seq<Passage>) -> int
    decreases items.len(),
{
    if items.len() == 0 {
        0
    } else {
        elapsed_ms(last, items[0].now) + total_elapsed(items[0].now, items.skip(1))
    }
}

/// Whether the budget stays above its floor while `items` pass.
pub open spec fn never_floored(pacing: PacingView, items: Seq<Passage>) -> bool
    decreases items.len(),
{
    if items.len() == 0 {
        true
    } else {
        &&& credited(
            pacing.tokens,
            pacing.rate,
            pacing.burst,
            elapsed_ms(pacing.last_checked, items[0].now),
        ) - items[0].quantity >= budget_floor()
        &&& never_floored(item_step(pacing, items[0].quantity, items[0].now), items.skip(1))
    }
}

/// Whether the clock never goes back while `items` pass, from the moment
/// `last` on.
pub open spec fn clock_advances(last: u64, items: Seq<Passage>) -> bool
    decreases items.len(),
{
    if items.len() == 0 {
        true
    } else {
        last <= items[0].now && clock_advances(items[0].now, items.skip(1))
    }
}

/// The time that passes in two stretches is credited no more than if it had
/// passed in one.
proof fn lemma_credit_adds(rate: int, first: int, rest: int)
    requires
        rate >= 0,
        first >= 0,
        rest >= 0,
    ensures
        first * rate / 1000 + rest * rate / 1000 <= (first + rest) * rate / 1000,
{
    assert((first + rest) * rate == first * rate + rest * rate) by (nonlinear_arith);
    assert(first * rate >= 0) by (nonlinear_arith)
        requires
            first >= 0,
            rate >= 0,
    ;
    assert(rest * rate >= 0) by (nonlinear_arith)
        requires
            rest >= 0,
            rate >= 0,
    ;
}

/// The time that the limiter sees pass is never negative.
proof fn lemma_elapsed_nonnegative(last: u64, items: Seq<Passage>)
    ensures
        total_elapsed(last, items) >= 0,
    decreases items.len(),
{
    if items.len() > 0 {
        lemma_elapsed_nonnegative(items[0].now, items.skip(1));
    }
}

/// The law of the leaky bucket. Over any stretch of items, what has passed
/// and what is left of the budget together are no more than the budget at
/// the start and what the rate grants for the time that passed: so no more
/// than the burst and the rate times the length of the stretch. It holds as
/// long as the budget stays above its floor.
pub proof fn lemma_leaky_bucket(pacing: PacingView, items: Seq<Passage>)
    requires
        pacing.valid(),
        never_floored(pacing, items),
    ensures
        run(pacing, items).valid(),
        total_quantity(items) + run(pacing, items).tokens <= pacing.tokens + total_elapsed(
            pacing.last_checked,
            items,
        ) * pacing.rate / 1000,
        total_quantity(items) + run(pacing, items).tokens <= pacing.burst + total_elapsed(
            pacing.last_checked,
            items,
        ) * pacing.rate / 1000,
    decreases items.len(),
{
    if items.len() > 0 {
        let first = elapsed_ms(pacing.last_checked, items[0].now);
        let next = item_step(pacing, items[0].quantity, items[0].now);
        let rest = total_elapsed(items[0].now, items.skip(1));
        lemma_elapsed_nonnegative(items[0].now, items.skip(1));
        assert(first * pacing.rate >= 0) by (nonlinear_arith)
            requires
                first >= 0,
                pacing.rate >= 0,
        ;
        assert(next.tokens <= pacing.tokens + first * pacing.rate / 1000 - items[0].quantity);
        lemma_leaky_bucket(next, items.skip(1));
        lemma_credit_adds(pacing.rate as int, first, rest);
    }
}

/// Whenever the budget is not in deficit at the end of a stretch, what has
/// passed in the stretch is no more than the burst and the rate times the
/// length of the stretch.
pub proof fn lemma_bounded_burst(pacing: PacingView, items: Seq<Passage>)
    requires
        pacing.valid(),
        never_floored(pacing, items),
        run(pacing, items).tokens >= 0,
    ensures
        total_quantity(items) <= pacing.burst + total_elapsed(pacing.last_checked, items)
            * pacing.rate / 1000,
{
    lemma_leaky_bucket(pacing, items);
}

/// A deficit too large to be counted in thousandths takes any rate longer
/// to make up than a delay can hold.
proof fn lemma_recovery_beyond_any_delay(deficit: int, rate: u64)
    requires
        rate > 0,
        deficit > u128::MAX / 1000,
    ensures
        deficit * 1000 / (rate as int) > u64::MAX,
{
    let bound = (u64::MAX + 1) * (rate as int);
    assert(bound <= (u64::MAX + 1) * u64::MAX) by (nonlinear_arith)
        requires
            bound == (u64::MAX + 1) * (rate as int),
            rate <= u64::MAX,
    ;
    assert(deficit * 1000 >= bound);
    assert(deficit * 1000 / (rate as int) >= u64::MAX + 1) by (nonlinear_arith)
        requires
            deficit * 1000 >= (u64::MAX + 1) * (rate as int),
            rate > 0,
    ;
}

/// A limiter whose budget is not negative after an item schedules no
/// delay; one whose budget is negative schedules one.
pub proof fn lemma_delay_only_in_deficit(pacing: PacingView, quantity: u64, now: u64)
    ensures
        item_step(pacing, quantity, now).tokens >= 0 <==> wake_delay(
            item_step(pacing, quantity, now).tokens,
            pacing.rate,
        ) is None,
        item_step(pacing, quantity, now).tokens >= 0 <==> item_step(pacing, quantity, now).wake_at
            is None,
{
}

/// The limiter never holds the sequence back for longer than the rate needs
/// to make up the deficit: a scheduled delay, credited at the rate, is at
/// most the deficit. So a sequence that is always ready is not slowed below
/// the rate.
pub proof fn lemma_delay_within_deficit(tokens: int, rate: u64)
    requires
        tokens < 0,
    ensures
        wake_delay(tokens, rate) matches Some(delay) && delay * rate <= (-tokens) * 1000,
{
    let deficit = -tokens;
    if rate > 0 {
        let ms = deficit * 1000 / (rate as int);
        assert(ms * rate <= deficit * 1000 && ms >= 0) by (nonlinear_arith)
            requires
                ms == deficit * 1000 / (rate as int),
                rate > 0,
                deficit > 0,
        ;
        let delay = wake_delay(tokens, rate)->Some_0;
        assert(delay <= ms);
        assert(delay * rate <= ms * rate) by (nonlinear_arith)
            requires
                delay <= ms,
                rate > 0,
        ;
    }
}

/// The limiter holds the sequence back for long enough: once the scheduled
/// delay, the slack and one millisecond more have passed, the rate has made
/// up the deficit, and the budget is no longer negative. So a sequence that
/// waits out its delays does not pass more than the rate grants, but for
/// what the slack lets through. This holds wherever the delay is not cut
/// short at the most that a delay can hold.
pub proof fn lemma_delay_makes_up_deficit(tokens: int, rate: u64)
    requires
        tokens < 0,
        rate > 0,
        (-tokens) * 1000 / (rate as int) <= u64::MAX,
    ensures
        wake_delay(tokens, rate) matches Some(delay) && tokens + (delay + WAKE_SLACK_MS + 1) * rate
            / 1000 >= 0,
{
    let deficit = -tokens;
    let ms = deficit * 1000 / (rate as int);
    let delay = wake_delay(tokens, rate)->Some_0;
    let waited = delay + WAKE_SLACK_MS + 1;
    assert(waited >= ms + 1);
    assert((ms + 1) * rate > deficit * 1000) by (nonlinear_arith)
        requires
            ms == deficit * 1000 / (rate as int),
            rate > 0,
            deficit > 0,
    ;
    assert(waited * rate >= (ms + 1) * rate) by (nonlinear_arith)
        requires
            waited >= ms + 1,
            rate > 0,
    ;
    assert(waited * rate / 1000 >= deficit) by (nonlinear_arith)
        requires
            waited * rate > deficit * 1000,
    ;
}

/// Where the clock never goes back, the time that the limiter sees pass is
/// the time from the start of the stretch to its last item.
pub proof fn lemma_window_length(last: u64, items: Seq<Passage>)
    requires
        clock_advances(last, items),
        items.len() > 0,
    ensures
        total_elapsed(last, items) == items.last().now - last,
    decreases items.len(),
{
    let rest = items.skip(1);
    if rest.len() > 0 {
        lemma_window_length(items[0].now, rest);
        assert(rest.last() == items.last());
    } else {
        assert(total_elapsed(items[0].now, rest) == 0);
    }
}

} // verus!
