//! What holds of a [`Bucket`] over several requests.
use vstd::prelude::*;

use super::gcra::{lemma_watched_bucket, Bucket, Cost, GcraLimiter, GcraObserver, FARTHEST};
use super::level::loaded;
use super::Decision;
use crate::clock::{Nanos, MAX_DURATION};

verus! {

/// A request that was served: when, and how many units it consumed.
pub struct Grant {
    /// Time of the grant.
    pub at: int,
    /// Units consumed.
    pub units: int,
}

impl Bucket {
    /// The bucket after `grants`, in order.
    pub open spec fn consume_all(self, grants: Seq<Grant>) -> Bucket
        decreases grants.len(),
    {
        if grants.len() == 0 {
            self
        } else {
            self.consume_all(grants.drop_last()).consume(grants.last().at, grants.last().units)
        }
    }

    /// Whether each of `grants`, in order, was allowed when it was made.
    pub open spec fn admits(self, grants: Seq<Grant>) -> bool
        decreases grants.len(),
    {
        grants.len() > 0 ==> {
            let before = self.consume_all(grants.drop_last());
            let grant = grants.last();
            &&& self.admits(grants.drop_last())
            &&& 0 <= grant.at <= MAX_DURATION
            &&& grant.units >= 0
            &&& before.allows(grant.at, grant.units)
        }
    }

    /// Time that `grants` take together.
    pub open spec fn total_time(self, grants: Seq<Grant>) -> int
        decreases grants.len(),
    {
        if grants.len() == 0 {
            0
        } else {
            self.total_time(grants.drop_last()) + self.increment(grants.last().units)
        }
    }

    /// Whether `n` units take no longer than the longest duration.
    pub open spec fn measures(self, n: int) -> bool {
        self.per_unit * n <= MAX_DURATION
    }
}

/// Units that `grants` consumed together.
pub open spec fn total_units(grants: Seq<Grant>) -> int
    decreases grants.len(),
{
    if grants.len() == 0 {
        0
    } else {
        total_units(grants.drop_last()) + grants.last().units
    }
}

pub(crate) proof fn lemma_increment(bucket: Bucket, units: int)
    requires
        bucket.valid(),
        units >= 0,
    ensures
        0 <= bucket.increment(units) <= MAX_DURATION,
        bucket.increment(units) <= bucket.per_unit * units,
        bucket.measures(units) ==> bucket.increment(units) == bucket.per_unit * units,
        0 <= bucket.tolerance <= MAX_DURATION,
        bucket.tolerance <= bucket.per_unit * bucket.burst,
{
    assert(0 <= bucket.per_unit * units) by (nonlinear_arith)
        requires
            0 <= bucket.per_unit,
            0 <= units,
    ;
    assert(0 <= bucket.per_unit * bucket.burst) by (nonlinear_arith)
        requires
            0 <= bucket.per_unit,
            0 <= bucket.burst,
    ;
}

/// Consuming keeps the bucket valid and its parameters as they are.
pub proof fn law_consume_keeps_bucket(bucket: Bucket, now: int, units: int)
    requires
        bucket.valid(),
        units >= 0,
    ensures
        bucket.consume(now, units).valid(),
        bucket.consume(now, units) == bucket.with_tat(bucket.consume(now, units).tat),
{
    lemma_increment(bucket, units);
}

/// A grant moves the arrival time forward by the cost of the request, counted from now if
/// the bucket had already drained.
pub proof fn law_consume_advances_arrival(bucket: Bucket, now: int, units: int)
    requires
        bucket.next_tat(now, units) <= FARTHEST,
    ensures
        bucket.consume(now, units).arrival() == bucket.increment(units) + if bucket.arrival()
            >= now {
            bucket.arrival()
        } else {
            now
        },
{
}

/// A grant is recorded in full, whatever it costs: no request that is allowed, and none
/// that comes while the arrival time has passed or is itself a duration, moves the arrival
/// time farther than it is kept.
pub proof fn law_grant_is_recorded_in_full(bucket: Bucket, now: int, units: int)
    requires
        bucket.valid(),
        units >= 0,
        0 <= now <= MAX_DURATION,
        bucket.allows(now, units) || bucket.arrival() <= now || bucket.arrival() <= MAX_DURATION,
    ensures
        bucket.next_tat(now, units) <= FARTHEST,
        bucket.consume(now, units).tat == bucket.next_tat(now, units),
{
    lemma_increment(bucket, units);
}

/// A grant is not forgotten: where two requests alike take longer together than the
/// tolerance, granting one blocks the other at that moment.
pub proof fn law_grant_is_not_forgotten(bucket: Bucket, now: int, units: int)
    requires
        bucket.valid(),
        units >= 0,
        0 <= now <= MAX_DURATION,
        bucket.allows(now, units),
        bucket.increment(units) + bucket.increment(units) > bucket.tolerance,
    ensures
        bucket.consume(now, units).decide(now, units) is Blocked,
{
    law_grant_is_recorded_in_full(bucket, now, units);
}

/// The wakeup of a blocked request comes exactly when the request becomes allowed: at
/// that moment the check says so, and at no moment before.
pub proof fn law_wakeup_is_exact(bucket: Bucket, now: int, units: int, elapsed: int)
    requires
        bucket.valid(),
        units >= 0,
        0 <= now,
        0 <= elapsed,
        bucket.decide(now, units) is Blocked,
    ensures
        bucket.decide(now, units) matches Decision::Blocked(wakeup) && (bucket.decide(
            now + elapsed,
            units,
        ) is Ready <==> wakeup.due(elapsed)),
{
    lemma_increment(bucket, units);
}

/// A request that is allowed stays allowed as time passes, as long as nothing is served.
pub proof fn law_allowed_stays_allowed(bucket: Bucket, now: int, later: int, units: int)
    requires
        bucket.allows(now, units),
        now <= later,
    ensures
        bucket.allows(later, units),
{
}

proof fn lemma_arrival_bounds(bucket: Bucket, grants: Seq<Grant>)
    requires
        bucket.valid(),
        bucket.admits(grants),
        grants.len() > 0,
    ensures
        bucket.consume_all(grants).valid(),
        bucket.consume_all(grants) == bucket.with_tat(bucket.consume_all(grants).tat),
        bucket.consume_all(grants).arrival() >= grants[0].at + bucket.total_time(grants),
        bucket.consume_all(grants).arrival() <= grants.last().at + bucket.tolerance
            || bucket.consume_all(grants).arrival() == grants.last().at + bucket.increment(
            grants.last().units,
        ),
    decreases grants.len(),
{
    let rest = grants.drop_last();
    let grant = grants.last();
    if rest.len() > 0 {
        lemma_arrival_bounds(bucket, rest);
        assert(rest[0] == grants[0]);
    } else {
        assert(bucket.consume_all(rest) == bucket);
        assert(bucket.total_time(rest) == 0);
    }
    let before = bucket.consume_all(rest);
    law_consume_keeps_bucket(before, grant.at, grant.units);
    law_grant_is_recorded_in_full(before, grant.at, grant.units);
}

/// The sustained rate: from any state on, what is granted in a window takes no longer to
/// emit than the window lasts plus the burst tolerance, or plus the last request where
/// that alone takes longer than the tolerance.
pub proof fn law_sustained_rate(bucket: Bucket, grants: Seq<Grant>)
    requires
        bucket.valid(),
        bucket.admits(grants),
        grants.len() > 0,
    ensures
        ({
            let last = bucket.increment(grants.last().units);
            bucket.total_time(grants) <= grants.last().at - grants[0].at + if last
                > bucket.tolerance {
                last
            } else {
                bucket.tolerance
            }
        }),
{
    lemma_arrival_bounds(bucket, grants);
}

/// Requests none of which takes longer than the longest duration take together what their
/// units take.
pub proof fn law_total_time_counts_units(bucket: Bucket, grants: Seq<Grant>)
    requires
        bucket.valid(),
        forall|i: int|
            0 <= i < grants.len() ==> (#[trigger] grants[i]).units >= 0 && bucket.measures(
                grants[i].units,
            ),
    ensures
        bucket.total_time(grants) == bucket.per_unit * total_units(grants),
    decreases grants.len(),
{
    if grants.len() == 0 {
        assert(bucket.per_unit * total_units(grants) == 0) by (nonlinear_arith)
            requires
                total_units(grants) == 0,
        ;
    } else {
        let rest = grants.drop_last();
        let grant = grants.last();
        assert forall|i: int| 0 <= i < rest.len() implies (#[trigger] rest[i]).units >= 0
            && bucket.measures(rest[i].units) by {
            assert(rest[i] == grants[i]);
        }
        law_total_time_counts_units(bucket, rest);
        assert(grants[grants.len() - 1] == grant);
        lemma_increment(bucket, grant.units);
        assert(bucket.per_unit * total_units(grants) == bucket.per_unit * total_units(rest)
            + bucket.per_unit * grant.units) by (nonlinear_arith)
            requires
                total_units(grants) == total_units(rest) + grant.units,
        ;
    }
}

/// Back-to-back no more than the burst is granted: requests that are granted at one
/// moment, the last of them no larger than the burst, are together no larger either.
pub proof fn law_burst_is_the_most(bucket: Bucket, grants: Seq<Grant>)
    requires
        bucket.valid(),
        bucket.per_unit > 0,
        bucket.admits(grants),
        grants.len() > 0,
        forall|i: int|
            0 <= i < grants.len() ==> (#[trigger] grants[i]).units >= 0 && bucket.measures(
                grants[i].units,
            ),
        grants[0].at == grants.last().at,
        grants.last().units <= bucket.burst,
    ensures
        total_units(grants) <= bucket.burst,
{
    law_sustained_rate(bucket, grants);
    law_total_time_counts_units(bucket, grants);
    let total = total_units(grants);
    let last = grants.last().units;
    assert(grants[grants.len() - 1].units == last);
    lemma_increment(bucket, last);
    assert(bucket.per_unit * last <= bucket.per_unit * bucket.burst) by (nonlinear_arith)
        requires
            bucket.per_unit > 0,
            last <= bucket.burst,
    ;
    assert(total <= bucket.burst) by (nonlinear_arith)
        requires
            bucket.per_unit > 0,
            bucket.per_unit * total <= bucket.per_unit * bucket.burst,
    ;
}

/// The burst: a bucket that has drained grants any requests back-to-back whose units
/// together take no longer than the tolerance.
pub proof fn law_burst_is_granted(bucket: Bucket, now: int, grants: Seq<Grant>)
    requires
        bucket.valid(),
        bucket.arrival() <= now <= MAX_DURATION,
        forall|i: int|
            0 <= i < grants.len() ==> (#[trigger] grants[i]).at == now && grants[i].units >= 0,
        bucket.per_unit * total_units(grants) <= bucket.tolerance,
    ensures
        bucket.admits(grants),
        grants.len() > 0 ==> bucket.consume_all(grants).arrival() == now + bucket.per_unit
            * total_units(grants),
    decreases grants.len(),
{
    if grants.len() > 0 {
        let rest = grants.drop_last();
        let grant = grants.last();
        assert(grants[grants.len() - 1].at == now);
        assert forall|i: int| 0 <= i < rest.len() implies (#[trigger] rest[i]).at == now
            && rest[i].units >= 0 by {
            assert(rest[i] == grants[i]);
            assert(grants[i].at == now);
        }
        lemma_total_units_nonnegative(rest);
        assert(bucket.per_unit * total_units(grants) == bucket.per_unit * total_units(rest)
            + bucket.per_unit * grant.units) by (nonlinear_arith)
            requires
                total_units(grants) == total_units(rest) + grant.units,
        ;
        assert(0 <= bucket.per_unit * total_units(rest)) by (nonlinear_arith)
            requires
                0 <= bucket.per_unit,
                0 <= total_units(rest),
        ;
        lemma_increment(bucket, grant.units);
        law_burst_is_granted(bucket, now, rest);
        if rest.len() == 0 {
            assert(bucket.consume_all(rest) == bucket);
            assert(bucket.per_unit * total_units(rest) == 0) by (nonlinear_arith)
                requires
                    total_units(rest) == 0,
            ;
        }
        lemma_consume_all_keeps_bucket(bucket, rest);
        law_grant_is_recorded_in_full(bucket.consume_all(rest), now, grant.units);
    }
}

/// The whole burst is granted to a drained bucket, as single units or in any other parts.
pub proof fn law_configured_burst_is_granted(bucket: Bucket, now: int, grants: Seq<Grant>)
    requires
        bucket.valid(),
        bucket.measures(bucket.burst),
        bucket.arrival() <= now <= MAX_DURATION,
        forall|i: int|
            0 <= i < grants.len() ==> (#[trigger] grants[i]).at == now && grants[i].units >= 0,
        total_units(grants) <= bucket.burst,
    ensures
        bucket.admits(grants),
{
    let total = total_units(grants);
    assert(bucket.per_unit * total <= bucket.per_unit * bucket.burst) by (nonlinear_arith)
        requires
            bucket.per_unit >= 0,
            total <= bucket.burst,
    ;
    law_burst_is_granted(bucket, now, grants);
}

proof fn lemma_total_units_nonnegative(grants: Seq<Grant>)
    requires
        forall|i: int| 0 <= i < grants.len() ==> (#[trigger] grants[i]).units >= 0,
    ensures
        total_units(grants) >= 0,
    decreases grants.len(),
{
    if grants.len() > 0 {
        let rest = grants.drop_last();
        assert forall|i: int| 0 <= i < rest.len() implies (#[trigger] rest[i]).units >= 0 by {
            assert(rest[i] == grants[i]);
        }
        lemma_total_units_nonnegative(rest);
        assert(grants[grants.len() - 1].units >= 0);
    }
}

proof fn lemma_consume_all_keeps_bucket(bucket: Bucket, grants: Seq<Grant>)
    requires
        bucket.valid(),
        forall|i: int| 0 <= i < grants.len() ==> (#[trigger] grants[i]).units >= 0,
    ensures
        bucket.consume_all(grants).valid(),
        bucket.consume_all(grants) == bucket.with_tat(bucket.consume_all(grants).tat),
    decreases grants.len(),
{
    if grants.len() > 0 {
        let rest = grants.drop_last();
        assert forall|i: int| 0 <= i < rest.len() implies (#[trigger] rest[i]).units >= 0 by {
            assert(rest[i] == grants[i]);
        }
        lemma_consume_all_keeps_bucket(bucket, rest);
        assert(grants[grants.len() - 1].units >= 0);
        law_consume_keeps_bucket(
            bucket.consume_all(rest),
            grants.last().at,
            grants.last().units,
        );
    }
}

proof fn lemma_quotient(n: int, d: int)
    by (nonlinear_arith)
    requires
        0 <= n,
        0 < d,
    ensures
        n / d >= 0,
        (n / d) * d <= n,
        n < (n / d + 1) * d,
{
}

/// What `remaining` counts in a bucket in use: the units that fit the free part of the
/// tolerance, and not one more.
pub proof fn law_remaining_is_whole_units(bucket: Bucket, now: int, units: int)
    requires
        bucket.valid(),
        bucket.per_unit > 0,
        bucket.arrival() > now || bucket.measures(bucket.burst),
        units >= 0,
    ensures
        units <= bucket.remaining(now) <==> bucket.per_unit * units <= bucket.free(now),
{
    let free = bucket.free(now);
    let left = bucket.remaining(now);
    lemma_increment(bucket, units);
    if bucket.arrival() > now {
        lemma_quotient(free, bucket.per_unit);
    }
    assert(units <= left ==> bucket.per_unit * units <= left * bucket.per_unit)
        by (nonlinear_arith)
        requires
            bucket.per_unit > 0,
    ;
    assert(units > left ==> bucket.per_unit * units >= (left + 1) * bucket.per_unit)
        by (nonlinear_arith)
        requires
            bucket.per_unit > 0,
    ;
    assert(left * bucket.per_unit == bucket.per_unit * left && (left + 1) * bucket.per_unit
        > bucket.per_unit * left) by (nonlinear_arith)
        requires
            bucket.per_unit > 0,
    ;
}

/// A full bucket holds the configured burst, and no bucket holds more.
pub proof fn law_full_bucket_equals_burst(bucket: Bucket, now: int)
    requires
        bucket.valid(),
    ensures
        0 <= bucket.remaining(now) <= bucket.burst,
        bucket.arrival() <= now ==> bucket.remaining(now) == bucket.burst,
{
    if bucket.arrival() > now && bucket.per_unit > 0 {
        let left = bucket.remaining(now);
        lemma_increment(bucket, 0);
        lemma_quotient(bucket.free(now), bucket.per_unit);
        assert(left <= bucket.burst) by (nonlinear_arith)
            requires
                bucket.per_unit > 0,
                left * bucket.per_unit <= bucket.per_unit * bucket.burst,
        ;
    }
}

/// The observer and the limiter agree: a request for something, and for no more than the
/// remaining units, is allowed; and where the bucket is in use no larger one is.
pub proof fn law_remaining_agrees_with_check(bucket: Bucket, now: int, units: int)
    requires
        bucket.valid(),
        units >= 0,
    ensures
        0 < units <= bucket.remaining(now) ==> bucket.allows(now, units),
        bucket.per_unit > 0 && bucket.arrival() >= now && bucket.measures(units) && bucket.allows(
            now,
            units,
        ) ==> units <= bucket.remaining(now),
{
    lemma_increment(bucket, units);
    if bucket.arrival() > now && bucket.per_unit > 0 {
        law_remaining_is_whole_units(bucket, now, units);
        assert(units > 0 ==> bucket.per_unit * units > 0) by (nonlinear_arith)
            requires
                bucket.per_unit > 0,
        ;
    } else {
        assert(units <= bucket.burst ==> bucket.per_unit * units <= bucket.per_unit
            * bucket.burst) by (nonlinear_arith)
            requires
                bucket.per_unit >= 0,
        ;
        assert(bucket.per_unit > 0 && units > bucket.burst ==> bucket.per_unit * units
            > bucket.per_unit * bucket.burst) by (nonlinear_arith);
    }
}

/// As time passes the bucket drains: the remaining capacity never falls, as long as
/// nothing is served.
pub proof fn law_remaining_recovers(bucket: Bucket, now: int, later: int)
    requires
        bucket.valid(),
        now <= later,
    ensures
        0 <= bucket.remaining(now) <= bucket.remaining(later),
{
    law_full_bucket_equals_burst(bucket, now);
    if bucket.per_unit > 0 && bucket.arrival() > later {
        law_remaining_is_whole_units(bucket, later, bucket.remaining(now));
        law_remaining_is_whole_units(bucket, now, bucket.remaining(now));
    }
}

/// A grant uses up what it costs: where the bucket held the request, the remaining units
/// fall by exactly the request's units.
pub proof fn law_grant_lowers_remaining(bucket: Bucket, now: int, units: int)
    requires
        bucket.valid(),
        bucket.per_unit > 0,
        bucket.measures(bucket.burst),
        0 <= units <= bucket.remaining(now),
        0 <= now <= MAX_DURATION,
    ensures
        bucket.consume(now, units).remaining(now) == bucket.remaining(now) - units,
{
    let after = bucket.consume(now, units);
    let left = bucket.remaining(now) - units;
    law_full_bucket_equals_burst(bucket, now);
    law_remaining_is_whole_units(bucket, now, units);
    lemma_increment(bucket, units);
    assert(bucket.per_unit * units >= 0 && (units == 0 ==> bucket.per_unit * units == 0))
        by (nonlinear_arith)
        requires
            bucket.per_unit > 0,
            units >= 0,
    ;
    if units > 0 {
        law_remaining_agrees_with_check(bucket, now, units);
        law_grant_is_recorded_in_full(bucket, now, units);
    }
    law_consume_keeps_bucket(bucket, now, units);
    law_consume_advances_arrival(bucket, now, units);
    assert(after.free(now) == bucket.free(now) - bucket.per_unit * units);
    law_full_bucket_equals_burst(after, now);
    law_remaining_is_whole_units(bucket, now, left + units);
    law_remaining_is_whole_units(bucket, now, left + units + 1);
    law_remaining_is_whole_units(after, now, left);
    law_remaining_is_whole_units(after, now, left + 1);
    assert(bucket.per_unit * (left + units) == bucket.per_unit * left + bucket.per_unit * units)
        by (nonlinear_arith);
    assert(bucket.per_unit * (left + units + 1) == bucket.per_unit * (left + 1) + bucket.per_unit
        * units) by (nonlinear_arith);
}

/// While an arrival time fits the atomic, what observers read of it gives the bucket as it
/// is.
pub proof fn law_published_level_is_exact(bucket: Bucket, now: int)
    requires
        bucket.tat <= i64::MAX,
    ensures
        bucket.with_tat(bucket.published_tat()).remaining(now) == bucket.remaining(now),
{
}

/// An observer reports what is left of the limiter that it watches: where every load of
/// the atomic gives what the limiter published last, the units that remain are those at
/// that arrival time, and where the arrival time fits the atomic, they are the limiter's.
pub proof fn law_observer_reports_the_limiter<C: Cost>(
    observer: GcraObserver,
    limiter: GcraLimiter<C>,
    now: Nanos,
    r: u64,
)
    requires
        limiter.wf(),
        observer.watches(&limiter),
        forall|tat: i64| #[trigger]
            loaded(observer.atomic(), tat) ==> tat == limiter.published(),
        GcraObserver::remaining.ensures((&observer, now), r),
    ensures
        r == limiter@.with_tat(limiter@.published_tat()).remaining(now as int),
        limiter@.tat <= i64::MAX ==> r == limiter@.remaining(now as int),
{
    let tat = choose|tat: i64| #[trigger]
        loaded(observer.atomic(), tat) && r == observer.bucket(tat as int).remaining(now as int);
    lemma_watched_bucket(&observer, tat);
}

/// What an observer reports was loaded from the atomic in full: it is what remains at an
/// arrival time that a load gave, counted from the limiter's origin.
pub proof fn law_observer_reports_a_loaded_level<C: Cost>(
    observer: GcraObserver,
    limiter: GcraLimiter<C>,
    now: Nanos,
    r: u64,
)
    requires
        observer.watches(&limiter),
        GcraObserver::remaining.ensures((&observer, now), r),
    ensures
        exists|tat: i64| #[trigger]
            loaded(observer.atomic(), tat) && r == limiter@.with_tat(
                if tat >= 0 {
                    tat as int
                } else {
                    0
                },
            ).remaining(now as int),
{
    let tat = choose|tat: i64| #[trigger]
        loaded(observer.atomic(), tat) && r == observer.bucket(tat as int).remaining(now as int);
    lemma_watched_bucket(&observer, tat);
}

} // verus!
