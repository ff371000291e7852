//! Fuel accounting for one sandbox instance: the per-instance budget, the
//! meter a worker keeps across sequential invocations, and the decision the
//! worker takes for each guest outcome.

use vstd::prelude::*;

verus! {

/// Fuel budget seeded into every fresh sandbox instance.
pub const FUEL_CEILING: u64 = 100_000_000;

/// Fuel consumed by an invocation, measured as `before - after` with
/// saturating subtraction: never negative, zero when the counter did not
/// move down.
pub fn fuel_consumed(before: u64, after: u64) -> (r: u64)
    ensures
        after <= before ==> r == before - after,
        after > before ==> r == 0,
{
    if after <= before {
        before - after
    } else {
        0
    }
}

/// What the sandbox reported for one invocation, as handed back to the
/// worker's decision step by the task that drives the guest.
#[derive(Clone, Copy, PartialEq, Eq, Structural, Debug)]
pub enum GuestOutcome {
    /// The handler ran and the guest delivered a response; `fuel_after` is
    /// the instance's fuel counter read after the call.
    Response { fuel_after: u64 },
    /// The handler ran but the guest delivered a structured error.
    GuestError,
    /// The handler ran but dropped its response channel without answering.
    NoResponse,
    /// The handler call itself failed with a trap; `out_of_fuel` marks the
    /// fuel-exhaustion trap.
    Trap { out_of_fuel: bool },
}

/// What the worker does with the caller's response channel for one
/// invocation.
#[derive(Clone, Copy, PartialEq, Eq, Structural, Debug)]
pub enum WorkerReply {
    /// Forward the guest response, stamped with the two fuel headers.
    Respond { fuel_remaining: u64, fuel_consumed: u64 },
    /// Forward the guest's structured error unchanged.
    ForwardError,
    /// Drop the caller's channel without answering.
    Silent,
    /// Reply with the configuration-error code; `fuel_warning` asks for a
    /// fuel-exhaustion warning in the log.
    ConfigError { fuel_warning: bool },
}

/// The fuel meter of one live sandbox instance. It starts at the ceiling and
/// only ever moves down, mirroring the instance's fuel counter.
#[derive(Clone, Copy, PartialEq, Eq, Structural, Debug)]
pub struct FuelMeter {
    remaining: u64,
}

impl FuelMeter {
    /// Fuel still available in the instance.
    pub closed spec fn fuel_remaining(&self) -> u64 {
        self.remaining
    }

    /// The meter never exceeds the budget the instance was seeded with.
    pub open spec fn wf(&self) -> bool {
        self.fuel_remaining() <= FUEL_CEILING
    }

    /// Total fuel consumed by all invocations served so far.
    pub open spec fn consumed_total(&self) -> int {
        FUEL_CEILING - self.fuel_remaining()
    }

    /// Fuel still available, as the worker reads it between invocations.
    pub fn remaining(&self) -> (r: u64)
        ensures
            r == self.fuel_remaining(),
    {
        self.remaining
    }

    /// A meter for a freshly created instance, seeded with the full budget.
    pub fn new() -> (r: FuelMeter)
        ensures
            r.wf(),
            r.fuel_remaining() == FUEL_CEILING,
            r.consumed_total() == 0,
    {
        FuelMeter { remaining: FUEL_CEILING }
    }

    /// Settle the meter to the instance's fuel counter as read from the
    /// store. The worker calls this after every invocation that `serve` did
    /// not already settle — traps and errors burn fuel too — so the meter
    /// holds each message's fuel-before when the next one is served.
    pub fn settle(&mut self, fuel_after: u64)
        requires
            old(self).wf(),
            fuel_after <= old(self).fuel_remaining(),
        ensures
            final(self).wf(),
            final(self).fuel_remaining() == fuel_after,
            final(self).consumed_total() == old(self).consumed_total() + (old(
                self,
            ).fuel_remaining() - fuel_after),
    {
        self.remaining = fuel_after;
    }

    /// One turn of the worker's request-service loop: decide the reply for
    /// one invocation and settle the meter.
    ///
    /// On a successful response the two fuel headers satisfy
    /// `consumed == before - after` and the meter moves down to `after`;
    /// every failure leaves the meter where it was and maps a trap to the
    /// configuration-error reply, flagging fuel exhaustion for the log.
    pub fn serve(&mut self, outcome: &GuestOutcome) -> (r: WorkerReply)
        requires
            old(self).wf(),
            outcome matches GuestOutcome::Response { fuel_after } ==> fuel_after
                <= old(self).fuel_remaining(),
        ensures
            final(self).wf(),
            match *outcome {
                GuestOutcome::Response { fuel_after } => {
                    &&& final(self).fuel_remaining() == fuel_after
                    &&& r == (WorkerReply::Respond {
                        fuel_remaining: fuel_after,
                        fuel_consumed: (old(self).fuel_remaining() - fuel_after) as u64,
                    })
                    &&& final(self).consumed_total() == old(self).consumed_total() + (old(
                        self,
                    ).fuel_remaining() - fuel_after)
                },
                GuestOutcome::GuestError => {
                    &&& r == WorkerReply::ForwardError
                    &&& *final(self) == *old(self)
                },
                GuestOutcome::NoResponse => {
                    &&& r == WorkerReply::Silent
                    &&& *final(self) == *old(self)
                },
                GuestOutcome::Trap { out_of_fuel } => {
                    &&& r == (WorkerReply::ConfigError { fuel_warning: out_of_fuel })
                    &&& *final(self) == *old(self)
                },
            },
    {
        match outcome {
            GuestOutcome::Response { fuel_after } => {
                let consumed = fuel_consumed(self.remaining, *fuel_after);
                self.remaining = *fuel_after;
                WorkerReply::Respond { fuel_remaining: *fuel_after, fuel_consumed: consumed }
            },
            GuestOutcome::GuestError => WorkerReply::ForwardError,
            GuestOutcome::NoResponse => WorkerReply::Silent,
            GuestOutcome::Trap { out_of_fuel } => WorkerReply::ConfigError {
                fuel_warning: *out_of_fuel,
            },
        }
    }
}

/// Whether a run of fuel readings, one per successful invocation, only ever
/// moves down from the starting counter — what the sandbox guarantees of its
/// fuel meter.
pub open spec fn run_is_monotone(start: u64, readings: Seq<u64>) -> bool {
    forall|i: int|
        0 <= i < readings.len() ==> #[trigger] readings[i] <= (if i == 0 {
            start
        } else {
            readings[i - 1]
        })
}

/// Sum of the consumed amounts stamped on the responses of a run: each
/// invocation consumes the distance its reading moved down from the one
/// before.
pub open spec fn consumed_sum(start: u64, readings: Seq<u64>) -> int
    decreases readings.len(),
{
    if readings.len() == 0 {
        0
    } else {
        (start - readings[0]) + consumed_sum(readings[0], readings.skip(1))
    }
}

/// Fuel law: over any run of successful invocations on one instance, the
/// consumed amounts sum to exactly the distance from the starting counter to
/// the last reading. Started at the ceiling, the sum never exceeds the
/// ceiling and monotonically approaches it as the run extends.
pub proof fn lemma_run_consumed_sum(start: u64, readings: Seq<u64>)
    requires
        run_is_monotone(start, readings),
    ensures
        consumed_sum(start, readings) == start - (if readings.len() == 0 {
            start as int
        } else {
            readings.last() as int
        }),
        0 <= consumed_sum(start, readings) <= start,
    decreases readings.len(),
{
    if readings.len() > 0 {
        let rest = readings.skip(1);
        assert(readings[0] <= start);
        assert forall|i: int|
            0 <= i < rest.len() implies #[trigger] rest[i] <= (if i == 0 {
            readings[0]
        } else {
            rest[i - 1]
        }) by {
            assert(readings[i + 1] <= readings[i]);
        }
        lemma_run_consumed_sum(readings[0], rest);
        if rest.len() > 0 {
            assert(rest.last() == readings.last());
        }
    }
}

/// Fuel law: across sequential invocations on one instance the running total
/// of consumed fuel only grows and never exceeds the ceiling, so the totals
/// monotonically approach the budget the instance was seeded with.
pub proof fn lemma_consumed_monotone(before: FuelMeter, after: FuelMeter)
    requires
        before.wf(),
        after.wf(),
        after.fuel_remaining() <= before.fuel_remaining(),
    ensures
        0 <= before.consumed_total(),
        before.consumed_total() <= after.consumed_total(),
        after.consumed_total() <= FUEL_CEILING,
{
}

} // verus!
