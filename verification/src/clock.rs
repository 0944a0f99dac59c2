//! Moments in time, the pause between games and the daily reward.

use vstd::arithmetic::div_mod::lemma_div_denominator;
use vstd::prelude::*;

verus! {

/// The first second that a moment can lie in, counted from 1970.
pub const FIRST_SECOND: i64 = -8334601228800;

/// The last second that a moment can lie in, counted from 1970.
pub const LAST_SECOND: i64 = 8210266876799;

/// How many seconds a player has to wait between two games.
pub const GLOBAL_COOLDOWN_SECS: i64 = 3;

/// The tokens that a player can claim once a day.
pub const DAILY_REWARD: i32 = 1000;

/// A moment in UTC: whole seconds since 1970 and the nanoseconds after them.
#[derive(Clone, Copy, Debug, PartialEq, Eq, Structural)]
pub struct Timestamp {
    pub secs: i64,
    pub nanos: u32,
}

impl Timestamp {
    /// The moments that the calendar covers, outside leap seconds.
    pub open spec fn wf(self) -> bool {
        FIRST_SECOND <= self.secs <= LAST_SECOND && self.nanos < 1_000_000_000
    }

    /// The nanoseconds since 1970.
    pub open spec fn total(self) -> int {
        self.secs * 1_000_000_000 + self.nanos
    }

    /// Whether the calendar covers the moment.
    pub fn is_valid(self) -> (yes: bool)
        ensures
            yes == self.wf(),
    {
        FIRST_SECOND <= self.secs && self.secs <= LAST_SECOND && self.nanos < 1_000_000_000
    }
}

/// The nanoseconds in a second.
pub open spec fn a_second() -> int {
    1_000_000_000
}

/// The nanoseconds in a minute.
pub open spec fn a_minute() -> int {
    60 * a_second()
}

/// The nanoseconds in an hour.
pub open spec fn an_hour() -> int {
    60 * a_minute()
}

/// The nanoseconds in a day.
pub open spec fn a_day() -> int {
    24 * an_hour()
}

/// A stretch of time: whole seconds and the nanoseconds beyond them, both with the
/// sign of the stretch.
#[derive(Clone, Copy)]
struct Elapsed {
    secs: i64,
    nanos: i32,
}

/// `DateTime::signed_duration_since` of `chrono`, between two moments in UTC: the
/// time from `earlier` to `later`, to the nanosecond, negative when `later` comes
/// first. It comes out as whole seconds, rounded toward zero, and the rest.
#[verifier::external_body]
fn signed_duration_since(later: Timestamp, earlier: Timestamp) -> (d: Elapsed)
    requires
        later.wf(),
        earlier.wf(),
    ensures
        d.secs * 1_000_000_000 + d.nanos == later.total() - earlier.total(),
        -1_000_000_000 < d.nanos < 1_000_000_000,
        d.secs > 0 ==> d.nanos >= 0,
        d.secs < 0 ==> d.nanos <= 0,
{
    let to = chrono::DateTime::from_timestamp(later.secs, later.nanos).unwrap();
    let from = chrono::DateTime::from_timestamp(earlier.secs, earlier.nanos).unwrap();
    let d = to.signed_duration_since(from);
    Elapsed { secs: d.num_seconds(), nanos: d.subsec_nanos() }
}

/// Less than the pause between games has passed since the last one.
pub open spec fn on_cooldown(now: Timestamp, last: Option<Timestamp>) -> bool {
    match last {
        Some(t) => now.total() - t.total() < GLOBAL_COOLDOWN_SECS * a_second(),
        None => false,
    }
}

/// Whether a player still has to wait before the next game.
pub fn must_wait(now: Timestamp, last: Option<Timestamp>) -> (wait: bool)
    requires
        now.wf(),
        last is Some ==> last->0.wf(),
    ensures
        wait == on_cooldown(now, last),
{
    match last {
        Some(t) => signed_duration_since(now, t).secs < GLOBAL_COOLDOWN_SECS,
        None => false,
    }
}

/// The answer to a request for the daily reward.
#[derive(Clone, Copy, Debug, PartialEq, Eq, Structural)]
pub enum DailyAnswer {
    Claim,
    Wait { hours: i64, mins: i64 },
}

/// The nanoseconds that are left of the day that began with the last claim.
pub open spec fn left_of_day(now: Timestamp, last: Timestamp) -> int {
    a_day() - (now.total() - last.total())
}

/// The reward can be claimed when it never was, or when a day has passed since;
/// otherwise the whole hours, and the whole minutes beyond them, are still to wait.
pub open spec fn daily_answer(now: Timestamp, last: Option<Timestamp>) -> DailyAnswer {
    match last {
        Some(t) => {
            let left = left_of_day(now, t);
            if left <= 0 {
                DailyAnswer::Claim
            } else {
                DailyAnswer::Wait {
                    hours: (left / an_hour()) as i64,
                    mins: ((left / a_minute()) % 60) as i64,
                }
            }
        },
        None => DailyAnswer::Claim,
    }
}

/// Decides on a request for the daily reward.
pub fn daily(now: Timestamp, last: Option<Timestamp>) -> (answer: DailyAnswer)
    requires
        now.wf(),
        last is Some ==> last->0.wf(),
    ensures
        answer == daily_answer(now, last),
{
    match last {
        Some(t) => {
            let d = signed_duration_since(now, t);
            if d.secs / 3600 >= 24 {
                DailyAnswer::Claim
            } else {
                let left: i64 = if d.nanos > 0 {
                    24 * 3600 - d.secs - 1
                } else {
                    24 * 3600 - d.secs
                };
                proof {
                    let nanos = left_of_day(now, t);
                    assert(nanos / 1_000_000_000 == left);
                    lemma_div_denominator(nanos, a_second(), 3600);
                    lemma_div_denominator(nanos, a_second(), 60);
                }
                DailyAnswer::Wait { hours: left / 3600, mins: (left / 60) % 60 }
            }
        },
        None => DailyAnswer::Claim,
    }
}

/// After a game at `first`, a game at `second` is refused exactly when it comes
/// before the pause is over.
pub proof fn games_keep_their_distance(first: Timestamp, second: Timestamp)
    ensures
        on_cooldown(second, Some(first)) <==> second.total() < first.total()
            + GLOBAL_COOLDOWN_SECS * a_second(),
{
}

/// After a claim at `claimed`, the next claim is granted exactly when a day has
/// passed; before that the wait is stated in hours and minutes, short of the true
/// wait by less than a minute.
pub proof fn one_reward_a_day(claimed: Timestamp, now: Timestamp)
    requires
        claimed.wf(),
        now.wf(),
    ensures
        daily_answer(now, Some(claimed)) is Claim <==> now.total() >= claimed.total() + a_day(),
        daily_answer(now, Some(claimed)) matches DailyAnswer::Wait { hours, mins } ==> {
            let stated = (hours * 60 + mins) * a_minute();
            &&& hours >= 0
            &&& 0 <= mins < 60
            &&& stated <= left_of_day(now, claimed) < stated + a_minute()
        },
{
    let left = left_of_day(now, claimed);
    if left > 0 {
        let minutes = left / 60_000_000_000;
        assert(a_minute() == 60_000_000_000);
        assert(an_hour() == 3_600_000_000_000);
        assert(left / 3_600_000_000_000 == minutes / 60);
        let stated = (minutes / 60) * 60 + minutes % 60;
        assert(stated * a_minute() == stated * 60_000_000_000);
        assert(0 <= minutes <= i64::MAX);
    }
}

/// A player may play when no game is known of, or when three seconds have passed since
/// the last one, counted to the nanosecond.
pub proof fn three_seconds_between_games(now: Timestamp, last: Timestamp)
    ensures
        !on_cooldown(now, None),
        on_cooldown(now, Some(last)) <==> (now.secs - last.secs) * 1_000_000_000 + now.nanos
            - last.nanos < 3_000_000_000,
{
}

/// The reward is granted when it never was before, or when twenty-four hours have
/// passed since, counted to the nanosecond; otherwise whole hours and minutes are
/// named that fall short of the time left by less than a minute.
pub proof fn a_day_between_rewards(now: Timestamp, last: Timestamp)
    requires
        now.wf(),
        last.wf(),
    ensures
        daily_answer(now, None) is Claim,
        ({
            let passed = (now.secs - last.secs) * 1_000_000_000 + now.nanos - last.nanos;
            match daily_answer(now, Some(last)) {
                DailyAnswer::Claim => passed >= 86_400_000_000_000,
                DailyAnswer::Wait { hours, mins } => {
                    let named = hours * 3_600_000_000_000 + mins * 60_000_000_000;
                    &&& passed < 86_400_000_000_000
                    &&& hours >= 0
                    &&& 0 <= mins < 60
                    &&& named <= 86_400_000_000_000 - passed < named + 60_000_000_000
                },
            }
        }),
{
    one_reward_a_day(last, now);
    assert(a_minute() == 60_000_000_000);
    assert(a_day() == 86_400_000_000_000);
    if let DailyAnswer::Wait { hours, mins } = daily_answer(now, Some(last)) {
        let minutes = hours * 60 + mins;
        assert(minutes * a_minute() == minutes * 60_000_000_000);
    }
}

} // verus!
