//! Whole runs of the driver: what it asks of the host over a sequence of
//! events, and where it ends.
//!
//! The theorems here are about a host that answers each request with an
//! event that can come of it ([`faithful`]). They say how many status reads a
//! wait takes before it gives up, that it stops at the first status byte that
//! satisfies it, and that a bus fault ends everything at once.

use crate::driver::{Command, Event, Phase, Request};
use crate::error::InternalError;
use crate::sample::RawSensorData;
use linux_embedded_hal::I2CError;
use vstd::prelude::*;

verus! {

/// The phase reached from `phase` once the host has reported `events`, one
/// after the other.
pub open spec fn run(phase: Phase, events: Seq<Event>) -> Phase
    decreases events.len(),
{
    if events.len() == 0 {
        phase
    } else {
        run(phase.next(events[0]), events.drop_first())
    }
}

/// The requests that were handed to the host on the way: the one pending
/// before each event, as long as there was one.
pub open spec fn issued(phase: Phase, events: Seq<Event>) -> Seq<Request>
    decreases events.len(),
{
    if events.len() == 0 {
        Seq::empty()
    } else {
        let rest = issued(phase.next(events[0]), events.drop_first());
        match phase.pending() {
            Some(request) => seq![request] + rest,
            None => rest,
        }
    }
}

/// Every event answers the request that was pending when it came, and none
/// came when nothing was pending.
pub open spec fn faithful(phase: Phase, events: Seq<Event>) -> bool
    decreases events.len(),
{
    events.len() == 0 || (match phase.pending() {
        Some(request) => events[0].answers(request) && faithful(
            phase.next(events[0]),
            events.drop_first(),
        ),
        None => false,
    })
}

/// No event is a bus fault.
pub open spec fn fault_free(events: Seq<Event>) -> bool {
    forall|i: int| 0 <= i < events.len() ==> !(#[trigger] events[i] is Fault)
}

/// No status byte among the events shows the calibrated flag.
pub open spec fn never_calibrated(events: Seq<Event>) -> bool {
    forall|i: int|
        0 <= i < events.len() ==> (#[trigger] events[i] matches Event::Status(status)
            ==> !status.calibrated())
}

/// Every status byte among the events shows the busy flag.
pub open spec fn always_busy(events: Seq<Event>) -> bool {
    forall|i: int|
        0 <= i < events.len() ==> (#[trigger] events[i] matches Event::Status(status)
            ==> status.busy())
}

/// How many of the requests are status reads.
pub open spec fn status_reads(requests: Seq<Request>) -> nat
    decreases requests.len(),
{
    if requests.len() == 0 {
        0
    } else {
        (if requests[0] is ReadStatus {
            1nat
        } else {
            0nat
        }) + status_reads(requests.drop_first())
    }
}

/// How many of the requests are writes.
pub open spec fn writes(requests: Seq<Request>) -> nat
    decreases requests.len(),
{
    if requests.len() == 0 {
        0
    } else {
        (if requests[0] is Write {
            1nat
        } else {
            0nat
        }) + writes(requests.drop_first())
    }
}

/// `rounds` unsuccessful polls: each a status read and the pause after it.
pub open spec fn poll_rounds(rounds: nat) -> Seq<Request>
    decreases rounds,
{
    if rounds == 0 {
        Seq::empty()
    } else {
        seq![Request::ReadStatus, Request::Delay(10)] + poll_rounds((rounds - 1) as nat)
    }
}

/// What opens a reading: the soft reset and the pause that lets it settle.
pub open spec fn reset_opening() -> Seq<Request> {
    seq![Request::Write(Command::SoftReset), Request::Delay(20)]
}

/// What opens a measurement: the trigger and the pause before the first
/// busy poll.
pub open spec fn trigger_opening() -> Seq<Request> {
    seq![Request::Write(Command::Trigger), Request::Delay(80)]
}

/// Counting goes piece by piece.
pub proof fn lemma_counts_concat(a: Seq<Request>, b: Seq<Request>)
    ensures
        status_reads(a + b) == status_reads(a) + status_reads(b),
        writes(a + b) == writes(a) + writes(b),
    decreases a.len(),
{
    if a.len() == 0 {
        assert(a + b =~= b);
    } else {
        assert((a + b).drop_first() =~= a.drop_first() + b);
        lemma_counts_concat(a.drop_first(), b);
    }
}

/// Unsuccessful polls hold one status read each and no write.
pub proof fn lemma_poll_rounds_counts(rounds: nat)
    ensures
        poll_rounds(rounds).len() == 2 * rounds,
        status_reads(poll_rounds(rounds)) == rounds,
        writes(poll_rounds(rounds)) == 0,
    decreases rounds,
{
    if rounds > 0 {
        let head = seq![Request::ReadStatus, Request::Delay(10)];
        lemma_poll_rounds_counts((rounds - 1) as nat);
        lemma_counts_concat(head, poll_rounds((rounds - 1) as nat));
        lemma_counts_pair(Request::ReadStatus, Request::Delay(10));
    }
}

/// The counts of a sequence of two requests.
proof fn lemma_counts_pair(first: Request, second: Request)
    ensures
        status_reads(seq![first, second]) == (if first is ReadStatus {
            1nat
        } else {
            0nat
        }) + (if second is ReadStatus {
            1nat
        } else {
            0nat
        }),
        writes(seq![first, second]) == (if first is Write {
            1nat
        } else {
            0nat
        }) + (if second is Write {
            1nat
        } else {
            0nat
        }),
{
    let both = seq![first, second];
    let last = both.drop_first();
    assert(last.len() == 1);
    assert(last[0] == second);
    assert(last.drop_first().len() == 0);
    reveal_with_fuel(status_reads, 3);
    reveal_with_fuel(writes, 3);
}

/// A run in two parts: the second part starts where the first one ended.
pub proof fn lemma_run_concat(phase: Phase, first: Seq<Event>, second: Seq<Event>)
    ensures
        run(phase, first + second) == run(run(phase, first), second),
        issued(phase, first + second) == issued(phase, first) + issued(
            run(phase, first),
            second,
        ),
        faithful(phase, first + second) <==> faithful(phase, first) && faithful(
            run(phase, first),
            second,
        ),
    decreases first.len(),
{
    if first.len() == 0 {
        assert(first + second =~= second);
        assert(issued(phase, first) + issued(phase, second) =~= issued(phase, second));
    } else {
        let all = first + second;
        assert(all[0] == first[0]);
        assert(all.drop_first() =~= first.drop_first() + second);
        let then = phase.next(first[0]);
        lemma_run_concat(then, first.drop_first(), second);
        let tail_first = issued(then, first.drop_first());
        let tail_second = issued(run(then, first.drop_first()), second);
        match phase.pending() {
            Some(request) => {
                assert(seq![request] + (tail_first + tail_second) =~= (seq![request]
                    + tail_first) + tail_second);
            },
            None => {},
        }
    }
}

/// One more event: the run moves one step on from where it stood, and what
/// was pending there is what the host was asked last.
pub proof fn lemma_run_step(phase: Phase, events: Seq<Event>, event: Event)
    ensures
        run(phase, events.push(event)) == run(phase, events).next(event),
        issued(phase, events.push(event)) == issued(phase, events) + (match run(
            phase,
            events,
        ).pending() {
            Some(request) => seq![request],
            None => Seq::empty(),
        }),
{
    let one = seq![event];
    assert(events.push(event) =~= events + one);
    lemma_run_concat(phase, events, one);
    reveal_with_fuel(run, 2);
    reveal_with_fuel(issued, 2);
    let reached = run(phase, events);
    match reached.pending() {
        Some(request) => {
            assert(issued(reached, one) =~= seq![request]);
        },
        None => {},
    }
}

/// Once the reading has ended, nothing moves and nothing more is asked.
pub proof fn lemma_terminal_absorbs(phase: Phase, events: Seq<Event>)
    requires
        phase.is_terminal(),
    ensures
        run(phase, events) == phase,
        issued(phase, events) == Seq::<Request>::empty(),
    decreases events.len(),
{
    if events.len() > 0 {
        lemma_terminal_absorbs(phase, events.drop_first());
    }
}

/// A run keeps the poll counters within the budget.
pub proof fn lemma_run_wf(phase: Phase, events: Seq<Event>)
    requires
        phase.wf(),
    ensures
        run(phase, events).wf(),
    decreases events.len(),
{
    if events.len() > 0 {
        crate::driver::lemma_next_wf(phase, events[0]);
        lemma_run_wf(phase.next(events[0]), events.drop_first());
    }
}

/// Where the wait for calibration stands while the flag stays away.
///
/// The wait stands before a status read with `polls` reads behind it. The
/// host answers faithfully, no read fails, and no status byte shows the
/// calibrated flag. Then the events come in pairs, a status byte and the end
/// of a pause, and each pair uses up one attempt. After a whole number of
/// pairs the wait stands before its next read, or has failed for want of
/// calibration if that was the tenth attempt. After a status byte alone it
/// stands in the pause. No run uses more than ten attempts.
pub proof fn lemma_calibration_wait(polls: u8, events: Seq<Event>)
    requires
        polls < 10,
        faithful(Phase::AwaitingCalibration { polls }, events),
        fault_free(events),
        never_calibrated(events),
    ensures
        polls + events.len() / 2 <= 10,
        events.len() % 2 == 1 ==> {
            &&& polls + events.len() / 2 < 10
            &&& run(Phase::AwaitingCalibration { polls }, events) == Phase::CalibrationBackoff {
                polls: (polls + events.len() / 2 + 1) as u8,
            }
            &&& issued(Phase::AwaitingCalibration { polls }, events) == poll_rounds(
                events.len() / 2,
            ) + seq![Request::ReadStatus]
        },
        events.len() % 2 == 0 ==> issued(Phase::AwaitingCalibration { polls }, events)
            == poll_rounds(events.len() / 2),
        events.len() % 2 == 0 && polls + events.len() / 2 < 10 ==> run(
            Phase::AwaitingCalibration { polls },
            events,
        ) == (Phase::AwaitingCalibration { polls: (polls + events.len() / 2) as u8 }),
        events.len() % 2 == 0 && polls + events.len() / 2 == 10 ==> run(
            Phase::AwaitingCalibration { polls },
            events,
        ) == Phase::Failed(InternalError::CalibrationFailed),
    decreases events.len(),
{
    let start = Phase::AwaitingCalibration { polls };
    let head = seq![Request::ReadStatus, Request::Delay(10)];
    reveal_with_fuel(faithful, 3);
    reveal_with_fuel(run, 3);
    reveal_with_fuel(issued, 3);
    reveal_with_fuel(poll_rounds, 2);
    if events.len() == 0 {
    } else if events.len() == 1 {
        assert(issued(start, events) =~= poll_rounds(0) + seq![Request::ReadStatus]);
    } else {
        let backoff = start.next(events[0]);
        assert(backoff == Phase::CalibrationBackoff { polls: (polls + 1) as u8 });
        let rest = events.drop_first();
        assert(rest[0] == events[1]);
        let then = backoff.next(rest[0]);
        let tail = rest.drop_first();
        assert(issued(start, events) =~= head + issued(then, tail));
        if polls + 1 < 10 {
            assert(then == Phase::AwaitingCalibration { polls: (polls + 1) as u8 });
            assert forall|i: int| 0 <= i < tail.len() implies !(#[trigger] tail[i] is Fault) && (
            tail[i] matches Event::Status(status) ==> !status.calibrated()) by {
                assert(tail[i] == events[i + 2]);
            }
            lemma_calibration_wait((polls + 1) as u8, tail);
            let before = poll_rounds(tail.len() / 2);
            assert(poll_rounds(events.len() / 2) =~= head + before);
            assert(head + (before + seq![Request::ReadStatus]) =~= (head + before)
                + seq![Request::ReadStatus]);
        } else {
            assert(then == Phase::Failed(InternalError::CalibrationFailed));
            assert(tail.len() == 0);
            assert(poll_rounds(1) =~= head);
        }
    }
}

/// Where the wait for the measurement stands while the device stays busy.
///
/// The wait stands before a status read with `polls` reads behind it. The
/// host answers faithfully, no read fails, and every status byte shows the
/// busy flag. Then the events come in pairs, a status byte and the end of a
/// pause, and each pair uses up one attempt. After a whole number of pairs
/// the wait stands before its next read, or has failed because the sensor is
/// still busy if that was the tenth attempt. After a status byte alone it
/// stands in the pause. No run uses more than ten attempts.
pub proof fn lemma_ready_wait(polls: u8, events: Seq<Event>)
    requires
        polls < 10,
        faithful(Phase::AwaitingReady { polls }, events),
        fault_free(events),
        always_busy(events),
    ensures
        polls + events.len() / 2 <= 10,
        events.len() % 2 == 1 ==> {
            &&& polls + events.len() / 2 < 10
            &&& run(Phase::AwaitingReady { polls }, events) == Phase::ReadyBackoff {
                polls: (polls + events.len() / 2 + 1) as u8,
            }
            &&& issued(Phase::AwaitingReady { polls }, events) == poll_rounds(events.len() / 2)
                + seq![Request::ReadStatus]
        },
        events.len() % 2 == 0 ==> issued(Phase::AwaitingReady { polls }, events) == poll_rounds(
            events.len() / 2,
        ),
        events.len() % 2 == 0 && polls + events.len() / 2 < 10 ==> run(
            Phase::AwaitingReady { polls },
            events,
        ) == (Phase::AwaitingReady { polls: (polls + events.len() / 2) as u8 }),
        events.len() % 2 == 0 && polls + events.len() / 2 == 10 ==> run(
            Phase::AwaitingReady { polls },
            events,
        ) == Phase::Failed(InternalError::SensorStillBusy),
    decreases events.len(),
{
    let start = Phase::AwaitingReady { polls };
    let head = seq![Request::ReadStatus, Request::Delay(10)];
    reveal_with_fuel(faithful, 3);
    reveal_with_fuel(run, 3);
    reveal_with_fuel(issued, 3);
    reveal_with_fuel(poll_rounds, 2);
    if events.len() == 0 {
    } else if events.len() == 1 {
        assert(issued(start, events) =~= poll_rounds(0) + seq![Request::ReadStatus]);
    } else {
        let backoff = start.next(events[0]);
        assert(backoff == Phase::ReadyBackoff { polls: (polls + 1) as u8 });
        let rest = events.drop_first();
        assert(rest[0] == events[1]);
        let then = backoff.next(rest[0]);
        let tail = rest.drop_first();
        assert(issued(start, events) =~= head + issued(then, tail));
        if polls + 1 < 10 {
            assert(then == Phase::AwaitingReady { polls: (polls + 1) as u8 });
            assert forall|i: int| 0 <= i < tail.len() implies !(#[trigger] tail[i] is Fault) && (
            tail[i] matches Event::Status(status) ==> status.busy()) by {
                assert(tail[i] == events[i + 2]);
            }
            lemma_ready_wait((polls + 1) as u8, tail);
            let before = poll_rounds(tail.len() / 2);
            assert(poll_rounds(events.len() / 2) =~= head + before);
            assert(head + (before + seq![Request::ReadStatus]) =~= (head + before)
                + seq![Request::ReadStatus]);
        } else {
            assert(then == Phase::Failed(InternalError::SensorStillBusy));
            assert(tail.len() == 0);
            assert(poll_rounds(1) =~= head);
        }
    }
}

/// The first two steps of a stretch of work: the write goes through, the
/// pause ends, and the wait begins with no attempt used.
proof fn lemma_opening(phase: Phase, events: Seq<Event>)
    requires
        phase is Reset || phase is Calibrated,
        events.len() >= 2,
        faithful(phase, events),
        fault_free(events),
    ensures
        phase is Reset ==> {
            &&& run(phase, events) == run(Phase::AwaitingCalibration { polls: 0 }, events.skip(2))
            &&& issued(phase, events) == reset_opening() + issued(
                Phase::AwaitingCalibration { polls: 0 },
                events.skip(2),
            )
            &&& faithful(Phase::AwaitingCalibration { polls: 0 }, events.skip(2))
        },
        phase is Calibrated ==> {
            &&& run(phase, events) == run(Phase::AwaitingReady { polls: 0 }, events.skip(2))
            &&& issued(phase, events) == trigger_opening() + issued(
                Phase::AwaitingReady { polls: 0 },
                events.skip(2),
            )
            &&& faithful(Phase::AwaitingReady { polls: 0 }, events.skip(2))
        },
        fault_free(events.skip(2)),
{
    reveal_with_fuel(faithful, 3);
    reveal_with_fuel(run, 3);
    reveal_with_fuel(issued, 3);
    let rest = events.drop_first();
    assert(rest[0] == events[1]);
    assert(rest.drop_first() =~= events.skip(2));
    let tail = events.skip(2);
    if phase is Reset {
        let wait = Phase::AwaitingCalibration { polls: 0 };
        assert(issued(phase, events) =~= reset_opening() + issued(wait, tail));
    } else {
        let wait = Phase::AwaitingReady { polls: 0 };
        assert(issued(phase, events) =~= trigger_opening() + issued(wait, tail));
    }
    assert forall|i: int| 0 <= i < tail.len() implies !(#[trigger] tail[i] is Fault) by {
        assert(tail[i] == events[i + 2]);
    }
}

/// Calibration times out after exactly ten status reads.
///
/// The run starts with nothing done. The host answers faithfully, nothing
/// fails on the bus, and no status byte shows the calibrated flag. Then the
/// run has at most 22 events. With 22 the reading has failed for want of
/// calibration, and the host was asked for the soft reset, the pause that
/// lets it settle, and ten times a status read and the pause after it: one
/// write and ten status reads, each read followed by its pause. With fewer
/// events the reading has not ended.
pub proof fn lemma_calibration_times_out(events: Seq<Event>)
    requires
        faithful(Phase::Reset, events),
        fault_free(events),
        never_calibrated(events),
    ensures
        events.len() <= 22,
        events.len() < 22 ==> !run(Phase::Reset, events).is_terminal(),
        events.len() == 22 ==> {
            &&& run(Phase::Reset, events) == Phase::Failed(InternalError::CalibrationFailed)
            &&& issued(Phase::Reset, events) == reset_opening() + poll_rounds(10)
            &&& status_reads(issued(Phase::Reset, events)) == 10
            &&& writes(issued(Phase::Reset, events)) == 1
        },
{
    reveal_with_fuel(faithful, 2);
    reveal_with_fuel(run, 2);
    if events.len() >= 2 {
        lemma_opening(Phase::Reset, events);
        let tail = events.skip(2);
        assert forall|i: int| 0 <= i < tail.len() implies (#[trigger] tail[i] matches Event::Status(
            status,
        ) ==> !status.calibrated()) by {
            assert(tail[i] == events[i + 2]);
        }
        lemma_calibration_wait(0, tail);
        lemma_counts_concat(reset_opening(), poll_rounds(10));
        lemma_counts_pair(Request::Write(Command::SoftReset), Request::Delay(20));
        lemma_poll_rounds_counts(10);
    }
}

/// The measurement times out after exactly ten status reads.
///
/// The run starts from a calibrated device. The host answers faithfully,
/// nothing fails on the bus, and every status byte shows the busy flag. Then
/// the run has at most 22 events. With 22 the reading has failed because the
/// sensor is still busy, and the host was asked for the trigger, the pause
/// before the first poll, and ten times a status read and the pause after
/// it: one write, ten status reads and no read of a sample. With fewer
/// events the reading has not ended.
pub proof fn lemma_measurement_times_out(events: Seq<Event>)
    requires
        faithful(Phase::Calibrated, events),
        fault_free(events),
        always_busy(events),
    ensures
        events.len() <= 22,
        events.len() < 22 ==> !run(Phase::Calibrated, events).is_terminal(),
        events.len() == 22 ==> {
            &&& run(Phase::Calibrated, events) == Phase::Failed(InternalError::SensorStillBusy)
            &&& issued(Phase::Calibrated, events) == trigger_opening() + poll_rounds(10)
            &&& status_reads(issued(Phase::Calibrated, events)) == 10
            &&& writes(issued(Phase::Calibrated, events)) == 1
        },
{
    reveal_with_fuel(faithful, 2);
    reveal_with_fuel(run, 2);
    if events.len() >= 2 {
        lemma_opening(Phase::Calibrated, events);
        let tail = events.skip(2);
        assert forall|i: int| 0 <= i < tail.len() implies (#[trigger] tail[i] matches Event::Status(
            status,
        ) ==> status.busy()) by {
            assert(tail[i] == events[i + 2]);
        }
        lemma_ready_wait(0, tail);
        lemma_counts_concat(trigger_opening(), poll_rounds(10));
        lemma_counts_pair(Request::Write(Command::Trigger), Request::Delay(80));
        lemma_poll_rounds_counts(10);
    }
}

/// Calibration ends at the first status byte that shows the flag.
///
/// The run starts with nothing done. The host answers faithfully and nothing
/// fails on the bus. The last event is the `n`-th status byte, and it is the
/// first to show the calibrated flag. Then `n` is at most ten, the device
/// counts as calibrated, and the host was asked for the soft reset, the
/// pause that lets it settle, `n - 1` times a status read and the pause after
/// it, and one more status read: `n` status reads and no more.
pub proof fn lemma_calibrated_at_poll(n: nat, events: Seq<Event>)
    requires
        n >= 1,
        events.len() == 2 * n + 1,
        faithful(Phase::Reset, events),
        fault_free(events),
        never_calibrated(events.drop_last()),
        events.last() matches Event::Status(status) && status.calibrated(),
    ensures
        n <= 10,
        run(Phase::Reset, events) == Phase::Calibrated,
        issued(Phase::Reset, events) == reset_opening() + poll_rounds((n - 1) as nat)
            + seq![Request::ReadStatus],
        status_reads(issued(Phase::Reset, events)) == n,
        writes(issued(Phase::Reset, events)) == 1,
{
    let front = events.drop_last();
    let last = seq![events.last()];
    assert(events =~= front + last);
    lemma_run_concat(Phase::Reset, front, last);
    assert forall|i: int| 0 <= i < front.len() implies !(#[trigger] front[i] is Fault) by {
        assert(front[i] == events[i]);
    }
    lemma_opening(Phase::Reset, front);
    let tail = front.skip(2);
    assert forall|i: int| 0 <= i < tail.len() implies (#[trigger] tail[i] matches Event::Status(
        status,
    ) ==> !status.calibrated()) by {
        assert(tail[i] == front[i + 2]);
    }
    lemma_calibration_wait(0, tail);
    reveal_with_fuel(faithful, 2);
    reveal_with_fuel(run, 2);
    reveal_with_fuel(issued, 2);
    let wait = Phase::AwaitingCalibration { polls: (n - 1) as u8 };
    assert(run(Phase::Reset, front) == wait);
    assert(issued(wait, last) =~= seq![Request::ReadStatus]);
    let rounds = poll_rounds((n - 1) as nat);
    lemma_counts_concat(reset_opening() + rounds, seq![Request::ReadStatus]);
    lemma_counts_concat(reset_opening(), rounds);
    lemma_counts_pair(Request::Write(Command::SoftReset), Request::Delay(20));
    lemma_poll_rounds_counts((n - 1) as nat);
    lemma_counts_one(Request::ReadStatus);
}

/// The wait for the measurement ends at the first status byte without the
/// busy flag.
///
/// The run starts from a calibrated device. The host answers faithfully and
/// nothing fails on the bus. The last event is the `n`-th status byte, and it
/// is the first without the busy flag. Then `n` is at most ten, the sample
/// is ready to be read, and the host was asked for the trigger, the pause
/// before the first poll, `n - 1` times a status read and the pause after
/// it, and one more status read: `n` status reads and no more.
pub proof fn lemma_ready_at_poll(n: nat, events: Seq<Event>)
    requires
        n >= 1,
        events.len() == 2 * n + 1,
        faithful(Phase::Calibrated, events),
        fault_free(events),
        always_busy(events.drop_last()),
        events.last() matches Event::Status(status) && !status.busy(),
    ensures
        n <= 10,
        run(Phase::Calibrated, events) == Phase::Ready,
        issued(Phase::Calibrated, events) == trigger_opening() + poll_rounds((n - 1) as nat)
            + seq![Request::ReadStatus],
        status_reads(issued(Phase::Calibrated, events)) == n,
        writes(issued(Phase::Calibrated, events)) == 1,
{
    let front = events.drop_last();
    let last = seq![events.last()];
    assert(events =~= front + last);
    lemma_run_concat(Phase::Calibrated, front, last);
    assert forall|i: int| 0 <= i < front.len() implies !(#[trigger] front[i] is Fault) by {
        assert(front[i] == events[i]);
    }
    lemma_opening(Phase::Calibrated, front);
    let tail = front.skip(2);
    assert forall|i: int| 0 <= i < tail.len() implies (#[trigger] tail[i] matches Event::Status(
        status,
    ) ==> status.busy()) by {
        assert(tail[i] == front[i + 2]);
    }
    lemma_ready_wait(0, tail);
    reveal_with_fuel(faithful, 2);
    reveal_with_fuel(run, 2);
    reveal_with_fuel(issued, 2);
    let wait = Phase::AwaitingReady { polls: (n - 1) as u8 };
    assert(run(Phase::Calibrated, front) == wait);
    assert(issued(wait, last) =~= seq![Request::ReadStatus]);
    let rounds = poll_rounds((n - 1) as nat);
    lemma_counts_concat(trigger_opening() + rounds, seq![Request::ReadStatus]);
    lemma_counts_concat(trigger_opening(), rounds);
    lemma_counts_pair(Request::Write(Command::Trigger), Request::Delay(80));
    lemma_poll_rounds_counts((n - 1) as nat);
    lemma_counts_one(Request::ReadStatus);
}

/// A measurement that is ready at the `n`-th poll is read once and decoded.
///
/// The run starts from a calibrated device. The host answers faithfully and
/// nothing fails on the bus. The `n`-th status byte is the first without the
/// busy flag, and one more event follows it. Then that event is the six
/// bytes of the sample, the reading has ended with what they decode to, and
/// after the `n` status reads the host was asked for one read of the sample
/// and nothing else.
pub proof fn lemma_reading_at_poll(n: nat, events: Seq<Event>)
    requires
        n >= 1,
        events.len() == 2 * n + 2,
        faithful(Phase::Calibrated, events),
        fault_free(events),
        always_busy(events.take(2 * n as int)),
        events[2 * n as int] matches Event::Status(status) && !status.busy(),
    ensures
        n <= 10,
        events.last() matches Event::Sample(raw) && run(Phase::Calibrated, events)
            == Phase::Decoded(RawSensorData::decoded(raw@)),
        issued(Phase::Calibrated, events) == trigger_opening() + poll_rounds((n - 1) as nat)
            + seq![Request::ReadStatus, Request::ReadSample],
        status_reads(issued(Phase::Calibrated, events)) == n,
        writes(issued(Phase::Calibrated, events)) == 1,
{
    let front = events.drop_last();
    let last = seq![events.last()];
    assert(events =~= front + last);
    lemma_run_concat(Phase::Calibrated, front, last);
    assert(front.drop_last() =~= events.take(2 * n as int));
    assert(front.last() == events[2 * n as int]);
    assert forall|i: int| 0 <= i < front.len() implies !(#[trigger] front[i] is Fault) by {
        assert(front[i] == events[i]);
    }
    lemma_ready_at_poll(n, front);
    reveal_with_fuel(faithful, 2);
    reveal_with_fuel(run, 2);
    reveal_with_fuel(issued, 2);
    assert(issued(Phase::Ready, last) =~= seq![Request::ReadSample]);
    let before = trigger_opening() + poll_rounds((n - 1) as nat);
    assert(before + seq![Request::ReadStatus] + seq![Request::ReadSample] =~= before
        + seq![Request::ReadStatus, Request::ReadSample]);
    lemma_counts_concat(issued(Phase::Calibrated, front), seq![Request::ReadSample]);
    lemma_counts_one(Request::ReadSample);
}

/// The counts of a single request.
proof fn lemma_counts_one(request: Request)
    ensures
        status_reads(seq![request]) == (if request is ReadStatus {
            1nat
        } else {
            0nat
        }),
        writes(seq![request]) == (if request is Write {
            1nat
        } else {
            0nat
        }),
{
    let one = seq![request];
    assert(one.drop_first().len() == 0);
    reveal_with_fuel(status_reads, 2);
    reveal_with_fuel(writes, 2);
}

/// A bus fault ends the reading at once.
///
/// Whenever a write or a read is pending (the soft reset, a status read, the
/// trigger or the read of the sample) and the host reports that it failed,
/// the reading has failed with that very fault as its cause. Whatever the
/// host reports after that changes nothing, and nothing more is asked of it.
pub proof fn lemma_fault_ends_reading(phase: Phase, cause: I2CError, later: Seq<Event>)
    requires
        phase.pending() matches Some(request) && !(request is Delay),
    ensures
        phase.next(Event::Fault(cause)) == Phase::Failed(InternalError::I2c(cause)),
        run(phase, seq![Event::Fault(cause)] + later) == Phase::Failed(InternalError::I2c(cause)),
        issued(phase, seq![Event::Fault(cause)] + later) == seq![phase.pending().unwrap()],
{
    let fault = seq![Event::Fault(cause)];
    let failed = Phase::Failed(InternalError::I2c(cause));
    lemma_run_concat(phase, fault, later);
    lemma_terminal_absorbs(failed, later);
    reveal_with_fuel(run, 2);
    reveal_with_fuel(issued, 2);
    assert(issued(phase, fault) =~= seq![phase.pending().unwrap()]);
    assert(issued(phase, fault) + Seq::<Request>::empty() =~= issued(phase, fault));
}

/// In a faithful run a bus fault is the last event, and the run ends in the
/// failure that carries it.
pub proof fn lemma_fault_is_last(phase: Phase, events: Seq<Event>, at: int)
    requires
        faithful(phase, events),
        0 <= at < events.len(),
        events[at] is Fault,
    ensures
        at == events.len() - 1,
        events[at] matches Event::Fault(cause) && run(phase, events) == Phase::Failed(
            InternalError::I2c(cause),
        ),
    decreases events.len(),
{
    reveal_with_fuel(faithful, 2);
    reveal_with_fuel(run, 2);
    let rest = events.drop_first();
    if at == 0 {
        if rest.len() > 0 {
            assert(phase.next(events[0]).pending() is None);
        }
    } else {
        assert(rest[at - 1] == events[at]);
        lemma_fault_is_last(phase.next(events[0]), rest, at - 1);
    }
}

/// A faithful run asks one request for each event, and once the reading has
/// ended it has no further event.
pub proof fn lemma_faithful_length(phase: Phase, events: Seq<Event>)
    requires
        faithful(phase, events),
    ensures
        issued(phase, events).len() == events.len(),
        phase.is_terminal() ==> events.len() == 0,
    decreases events.len(),
{
    if events.len() > 0 {
        lemma_faithful_length(phase.next(events[0]), events.drop_first());
    }
}

/// The reading has not got beyond the wait for calibration: it is still at
/// the reset or in that wait, or it has failed.
pub open spec fn before_calibration(phase: Phase) -> bool {
    phase is Reset || phase is ResetSettling || phase is AwaitingCalibration
        || phase is CalibrationBackoff || phase is Failed
}

/// The reading has not got beyond the wait for the measurement: no sample is
/// being read and none has been decoded.
pub open spec fn before_ready(phase: Phase) -> bool {
    !(phase is Ready) && !(phase is Decoded)
}

/// No trigger without calibration.
///
/// As long as no status byte has shown the calibrated flag, the reading
/// stays before or in the wait for calibration, and the host is never asked
/// to write the trigger. This holds of every sequence of events, faithful or
/// not.
pub proof fn lemma_no_trigger_before_calibration(phase: Phase, events: Seq<Event>)
    requires
        before_calibration(phase),
        never_calibrated(events),
    ensures
        before_calibration(run(phase, events)),
        forall|i: int|
            0 <= i < issued(phase, events).len() ==> #[trigger] issued(phase, events)[i]
                != Request::Write(Command::Trigger),
    decreases events.len(),
{
    if events.len() > 0 {
        let then = phase.next(events[0]);
        let rest = events.drop_first();
        assert forall|i: int| 0 <= i < rest.len() implies (#[trigger] rest[i] matches Event::Status(
            status,
        ) ==> !status.calibrated()) by {
            assert(rest[i] == events[i + 1]);
        }
        lemma_no_trigger_before_calibration(then, rest);
        let tail = issued(then, rest);
        assert forall|i: int| 0 <= i < issued(phase, events).len() implies #[trigger] issued(
            phase,
            events,
        )[i] != Request::Write(Command::Trigger) by {
            if phase.pending() is Some && i > 0 {
                assert(issued(phase, events)[i] == tail[i - 1]);
            }
        }
    }
}

/// No sample while the device is busy.
///
/// As long as every status byte has shown the busy flag, the host is never
/// asked to read a sample, and no reading is produced. This holds of every
/// sequence of events, faithful or not.
pub proof fn lemma_no_sample_while_busy(phase: Phase, events: Seq<Event>)
    requires
        before_ready(phase),
        always_busy(events),
    ensures
        before_ready(run(phase, events)),
        forall|i: int|
            0 <= i < issued(phase, events).len() ==> #[trigger] issued(phase, events)[i]
                != Request::ReadSample,
    decreases events.len(),
{
    if events.len() > 0 {
        let then = phase.next(events[0]);
        let rest = events.drop_first();
        assert forall|i: int| 0 <= i < rest.len() implies (#[trigger] rest[i] matches Event::Status(
            status,
        ) ==> status.busy()) by {
            assert(rest[i] == events[i + 1]);
        }
        lemma_no_sample_while_busy(then, rest);
        let tail = issued(then, rest);
        assert forall|i: int| 0 <= i < issued(phase, events).len() implies #[trigger] issued(
            phase,
            events,
        )[i] != Request::ReadSample by {
            if phase.pending() is Some && i > 0 {
                assert(issued(phase, events)[i] == tail[i - 1]);
            }
        }
    }
}

} // verus!
