//! The sensor-notification loop: a latched edge detector over raw
//! digital readings, polled at a fixed cadence.
//!
//! One flag is maintained, `notified`: whether the last reported state
//! was open. A notification is produced only when a reading disagrees
//! with that flag, so repeated identical readings never re-trigger one.

use vstd::prelude::*;
use crate::door::{NotificationEvent, spec_door_state_of_level, spec_transition_event};

verus! {

/// Milliseconds slept between two poll ticks.
pub const POLL_INTERVAL_MS: u32 = 50;

/// The latched flag after one tick: set on a high reading, cleared on a
/// low one.
pub open spec fn spec_tick_notified(notified: bool, high: bool) -> bool {
    if high && !notified {
        true
    } else if !high && notified {
        false
    } else {
        notified
    }
}

/// The event one tick emits: `DoorOpened` on a high reading while not
/// yet notified, `DoorClosed` on a low reading while notified, nothing
/// otherwise.
pub open spec fn spec_tick_event(notified: bool, high: bool) -> Option<NotificationEvent> {
    if high && !notified {
        Some(NotificationEvent::DoorOpened)
    } else if !high && notified {
        Some(NotificationEvent::DoorClosed)
    } else {
        None
    }
}

/// One poll tick of the latched edge detector: the new flag and the
/// event to send, if any.
pub fn tick(notified: bool, high: bool) -> (r: (bool, Option<NotificationEvent>))
    ensures
        r.0 == spec_tick_notified(notified, high),
        r.1 == spec_tick_event(notified, high),
{
    if high && !notified {
        (true, Some(NotificationEvent::DoorOpened))
    } else if !high && notified {
        (false, Some(NotificationEvent::DoorClosed))
    } else {
        (notified, None)
    }
}

/// A tick reports exactly the transition between the door state last
/// reported and the door state the new reading denotes.
pub proof fn lemma_tick_reports_state_transition(notified: bool, high: bool)
    ensures
        spec_tick_event(notified, high) == spec_transition_event(
            spec_door_state_of_level(notified),
            spec_door_state_of_level(high),
        ),
{
}

/// The latched edge detector, holding the one piece of loop state.
pub struct SensorNotifier {
    notified: bool,
}

impl SensorNotifier {
    /// Whether the last reported state was open.
    pub closed spec fn notified(self) -> bool {
        self.notified
    }

    /// A detector in the startup baseline: nothing reported yet, door
    /// assumed closed.
    pub fn new() -> (n: SensorNotifier)
        ensures
            !n.notified(),
    {
        SensorNotifier { notified: false }
    }

    /// A detector initialized from one real reading taken at startup,
    /// so that the baseline matches the actual door state.
    pub fn with_initial_level(high: bool) -> (n: SensorNotifier)
        ensures
            n.notified() == high,
    {
        SensorNotifier { notified: high }
    }

    /// Processes one reading: updates the latch and returns the event
    /// to send, if the reading crossed it.
    pub fn poll(&mut self, high: bool) -> (ev: Option<NotificationEvent>)
        ensures
            final(self).notified() == spec_tick_notified(old(self).notified(), high),
            ev == spec_tick_event(old(self).notified(), high),
    {
        let (n2, ev) = tick(self.notified, high);
        self.notified = n2;
        ev
    }
}

/// The latched flag after the first `n` readings of `levels`.
pub open spec fn spec_notified_after(init: bool, levels: Seq<bool>, n: int) -> bool
    decreases n,
{
    if n <= 0 {
        init
    } else {
        spec_tick_notified(spec_notified_after(init, levels, n - 1), levels[n - 1])
    }
}

/// All events emitted by ticking through `levels` from flag `init`.
pub open spec fn spec_emitted(notified: bool, levels: Seq<bool>) -> Seq<NotificationEvent>
    decreases levels.len(),
{
    if levels.len() == 0 {
        Seq::<NotificationEvent>::empty()
    } else {
        let rest = spec_emitted(spec_tick_notified(notified, levels[0]), levels.skip(1));
        match spec_tick_event(notified, levels[0]) {
            Some(e) => seq![e] + rest,
            None => rest,
        }
    }
}

/// Runs the edge detector over a whole sequence of readings and
/// collects the emitted events in order.
pub fn emitted_events(init: bool, levels: &Vec<bool>) -> (evs: Vec<NotificationEvent>)
    ensures
        evs@ == spec_emitted(init, levels@),
{
    let mut evs: Vec<NotificationEvent> = Vec::new();
    let mut notified: bool = init;
    let mut i: usize = 0;
    proof {
        assert(levels@.skip(0) =~= levels@);
        assert(evs@ + spec_emitted(init, levels@) =~= spec_emitted(init, levels@));
    }
    while i < levels.len()
        invariant
            0 <= i <= levels@.len(),
            spec_emitted(init, levels@) == evs@ + spec_emitted(notified, levels@.skip(i as int)),
        decreases levels@.len() - i,
    {
        let high = levels[i];
        proof {
            assert(levels@.skip(i as int)[0] == levels@[i as int]);
            assert(levels@.skip(i as int).skip(1) =~= levels@.skip(i as int + 1));
        }
        let ghost evs0 = evs@;
        let ghost rest = spec_emitted(
            spec_tick_notified(notified, levels@[i as int]),
            levels@.skip(i as int + 1),
        );
        let (n2, ev) = tick(notified, high);
        match ev {
            Some(e) => {
                evs.push(e);
                proof {
                    assert(evs@ =~= evs0 + seq![e]);
                    assert(evs0 + (seq![e] + rest) =~= (evs0 + seq![e]) + rest);
                }
            }
            None => {}
        }
        notified = n2;
        i = i + 1;
    }
    proof {
        assert(levels@.skip(levels@.len() as int) =~= Seq::<bool>::empty());
        assert(evs@ + Seq::<NotificationEvent>::empty() =~= evs@);
    }
    evs
}

/// The latch always equals the last reading seen: after `n` readings it
/// is the value of reading `n - 1`.
pub proof fn lemma_latch_tracks_level(init: bool, levels: Seq<bool>, n: int)
    requires
        0 < n <= levels.len(),
    ensures
        spec_notified_after(init, levels, n) == levels[n - 1],
{
}

/// Notifications happen exactly on edges of the latched state: tick `i`
/// emits an event if and only if reading `i` disagrees with the latch,
/// which in turn equals the previous reading (or the initial flag at
/// the first tick). Steady-state repeats emit nothing.
pub proof fn lemma_event_exactly_on_edges(init: bool, levels: Seq<bool>, i: int)
    requires
        0 <= i < levels.len(),
    ensures
        ({
            let before = spec_notified_after(init, levels, i);
            let ev = spec_tick_event(before, levels[i]);
            &&& before == (if i == 0 { init } else { levels[i - 1] })
            &&& (ev is Some <==> levels[i] != before)
            &&& (ev == Some(NotificationEvent::DoorOpened) <==> levels[i] && !before)
            &&& (ev == Some(NotificationEvent::DoorClosed) <==> !levels[i] && before)
        }),
{
    if i > 0 {
        lemma_latch_tracks_level(init, levels, i);
    }
}

/// How many of the emitted events equal `target`.
pub open spec fn spec_count(evs: Seq<NotificationEvent>, target: NotificationEvent) -> nat
    decreases evs.len(),
{
    if evs.len() == 0 {
        0
    } else {
        (if evs[0] == target { 1nat } else { 0nat }) + spec_count(evs.skip(1), target)
    }
}

/// How many maximal runs of high readings `levels` holds, where a run
/// starts at a high reading whose predecessor (or `prev` for the first
/// reading) is low.
pub open spec fn spec_opening_edge_count(prev: bool, levels: Seq<bool>) -> nat
    decreases levels.len(),
{
    if levels.len() == 0 {
        0
    } else {
        (if levels[0] && !prev { 1nat } else { 0nat })
            + spec_opening_edge_count(levels[0], levels.skip(1))
    }
}

/// How many maximal runs of low readings `levels` holds, counted as
/// `spec_opening_edge_count` does for high ones.
pub open spec fn spec_closing_edge_count(prev: bool, levels: Seq<bool>) -> nat
    decreases levels.len(),
{
    if levels.len() == 0 {
        0
    } else {
        (if !levels[0] && prev { 1nat } else { 0nat })
            + spec_closing_edge_count(levels[0], levels.skip(1))
    }
}

/// One notification per maximal run: ticking through any sequence of
/// readings emits exactly one `DoorOpened` per maximal run of high
/// readings and exactly one `DoorClosed` per maximal run of low
/// readings.
pub proof fn lemma_one_notification_per_run(init: bool, levels: Seq<bool>)
    ensures
        spec_count(spec_emitted(init, levels), NotificationEvent::DoorOpened)
            == spec_opening_edge_count(init, levels),
        spec_count(spec_emitted(init, levels), NotificationEvent::DoorClosed)
            == spec_closing_edge_count(init, levels),
    decreases levels.len(),
{
    if levels.len() == 0 {
    } else {
        let l0 = levels[0];
        let n2 = spec_tick_notified(init, l0);
        lemma_one_notification_per_run(n2, levels.skip(1));
        let rest = spec_emitted(n2, levels.skip(1));
        match spec_tick_event(init, l0) {
            Some(e) => {
                assert(spec_emitted(init, levels) == seq![e] + rest);
                assert((seq![e] + rest)[0] == e);
                assert((seq![e] + rest).skip(1) =~= rest);
            }
            None => {}
        }
    }
}

/// The event that reports the opposite transition.
pub open spec fn spec_opposite(ev: NotificationEvent) -> NotificationEvent {
    match ev {
        NotificationEvent::DoorOpened => NotificationEvent::DoorClosed,
        NotificationEvent::DoorClosed => NotificationEvent::DoorOpened,
    }
}

/// Emitted notifications strictly alternate: the first one reports the
/// transition away from the initial latch, and each later one reports
/// the opposite transition of its predecessor — the same notification
/// is never sent twice in a row.
#[verifier::rlimit(50)]
pub proof fn lemma_emissions_alternate(init: bool, levels: Seq<bool>)
    ensures
        ({
            let evs = spec_emitted(init, levels);
            &&& evs.len() > 0 ==> evs[0] == (if init {
                NotificationEvent::DoorClosed
            } else {
                NotificationEvent::DoorOpened
            })
            &&& forall|k: int|
                0 <= k < evs.len() - 1 ==> evs[k + 1] == spec_opposite(#[trigger] evs[k])
        }),
    decreases levels.len(),
{
    if levels.len() == 0 {
    } else {
        let l0 = levels[0];
        let n2 = spec_tick_notified(init, l0);
        lemma_emissions_alternate(n2, levels.skip(1));
        let rest = spec_emitted(n2, levels.skip(1));
        let evs = spec_emitted(init, levels);
        match spec_tick_event(init, l0) {
            Some(e) => {
                assert(evs == seq![e] + rest);
                assert(forall|k: int| 1 <= k < evs.len() ==> evs[k] == rest[k - 1]);
                assert forall|k: int| 0 <= k < evs.len() - 1 implies evs[k + 1] == spec_opposite(
                    #[trigger] evs[k],
                ) by {
                    if k == 0 {
                        assert(rest.len() > 0 && rest[0] == spec_opposite(e));
                    } else {
                        assert(rest[k] == spec_opposite(rest[k - 1]));
                    }
                }
            }
            None => {
                assert(n2 == init);
            }
        }
    }
}

/// What a run of the notifier loop did: the events whose writes
/// succeeded, whether a write failure ended the loop, and how many poll
/// ticks were entered before the loop stopped.
pub struct RunLog {
    pub sent: Vec<NotificationEvent>,
    pub write_failed: bool,
    pub ticks: usize,
}

/// The notifier loop over `levels`, against a stream whose successive
/// write attempts succeed as `write_ok` says (an attempt beyond its end
/// succeeds). Yields the events written, whether a write failed, and
/// the number of ticks entered: a failed write ends the run at its
/// tick, with no retry and no further tick.
pub open spec fn spec_run(notified: bool, levels: Seq<bool>, write_ok: Seq<bool>) -> (Seq<
    NotificationEvent,
>, bool, int)
    decreases levels.len(),
{
    if levels.len() == 0 {
        (Seq::<NotificationEvent>::empty(), false, 0)
    } else {
        match spec_tick_event(notified, levels[0]) {
            Some(e) => {
                if write_ok.len() == 0 || write_ok[0] {
                    let rest_ok = if write_ok.len() == 0 {
                        write_ok
                    } else {
                        write_ok.skip(1)
                    };
                    let r = spec_run(spec_tick_notified(notified, levels[0]), levels.skip(1), rest_ok);
                    (seq![e] + r.0, r.1, 1 + r.2)
                } else {
                    (Seq::<NotificationEvent>::empty(), true, 1)
                }
            }
            None => {
                let r = spec_run(spec_tick_notified(notified, levels[0]), levels.skip(1), write_ok);
                (r.0, r.1, 1 + r.2)
            }
        }
    }
}

/// Runs the notifier loop over recorded readings against recorded write
/// outcomes: each emitted event consumes the next outcome, a false
/// outcome ends the run at that tick.
pub fn run_ticks(init: bool, levels: &Vec<bool>, write_ok: &Vec<bool>) -> (log: RunLog)
    ensures
        ({
            let r = spec_run(init, levels@, write_ok@);
            &&& log.sent@ == r.0
            &&& log.write_failed == r.1
            &&& log.ticks == r.2
        }),
{
    let mut sent: Vec<NotificationEvent> = Vec::new();
    let mut notified: bool = init;
    let mut i: usize = 0;
    let mut w: usize = 0;
    proof {
        assert(levels@.skip(0) =~= levels@);
        assert(write_ok@.skip(0) =~= write_ok@);
        assert(sent@ + spec_run(init, levels@, write_ok@).0 =~= spec_run(init, levels@, write_ok@).0);
    }
    while i < levels.len()
        invariant
            0 <= i <= levels@.len(),
            0 <= w <= write_ok@.len(),
            ({
                let r = spec_run(init, levels@, write_ok@);
                let rr = spec_run(notified, levels@.skip(i as int), write_ok@.skip(w as int));
                &&& r.0 == sent@ + rr.0
                &&& r.1 == rr.1
                &&& r.2 == i + rr.2
            }),
        decreases levels@.len() - i,
    {
        let high = levels[i];
        proof {
            assert(levels@.skip(i as int)[0] == levels@[i as int]);
            assert(levels@.skip(i as int).skip(1) =~= levels@.skip(i as int + 1));
        }
        let ghost sent0 = sent@;
        let (n2, ev) = tick(notified, high);
        match ev {
            Some(e) => {
                let ok: bool = if w < write_ok.len() {
                    write_ok[w]
                } else {
                    true
                };
                proof {
                    if w < write_ok@.len() {
                        assert(write_ok@.skip(w as int)[0] == write_ok@[w as int]);
                        assert(write_ok@.skip(w as int).skip(1) =~= write_ok@.skip(w as int + 1));
                    } else {
                        assert(write_ok@.skip(w as int).len() == 0);
                    }
                }
                if ok {
                    let ghost rest = spec_run(
                        spec_tick_notified(notified, levels@[i as int]),
                        levels@.skip(i as int + 1),
                        if w < write_ok@.len() {
                            write_ok@.skip(w as int + 1)
                        } else {
                            write_ok@.skip(w as int)
                        },
                    ).0;
                    sent.push(e);
                    proof {
                        assert(sent@ =~= sent0 + seq![e]);
                        assert(sent0 + (seq![e] + rest) =~= (sent0 + seq![e]) + rest);
                    }
                    if w < write_ok.len() {
                        w = w + 1;
                    }
                } else {
                    proof {
                        assert(sent0 + Seq::<NotificationEvent>::empty() =~= sent0);
                    }
                    return RunLog { sent, write_failed: true, ticks: i + 1 };
                }
            }
            None => {}
        }
        notified = n2;
        i = i + 1;
    }
    proof {
        assert(levels@.skip(levels@.len() as int) =~= Seq::<bool>::empty());
        assert(sent@ + Seq::<NotificationEvent>::empty() =~= sent@);
    }
    RunLog { sent, write_failed: false, ticks: i }
}

/// A write failure freezes the run: once a run over `levels` ended in a
/// failed write, feeding any further readings after them changes
/// nothing — no more writes are attempted and no more ticks are entered.
pub proof fn lemma_failure_stops_run(init: bool, levels: Seq<bool>, more: Seq<bool>, write_ok: Seq<bool>)
    requires
        spec_run(init, levels, write_ok).1,
    ensures
        spec_run(init, levels + more, write_ok) == spec_run(init, levels, write_ok),
    decreases levels.len(),
{
    assert(levels.len() > 0);
    assert((levels + more)[0] == levels[0]);
    assert((levels + more).skip(1) =~= levels.skip(1) + more);
    let n2 = spec_tick_notified(init, levels[0]);
    match spec_tick_event(init, levels[0]) {
        Some(e) => {
            if write_ok.len() == 0 || write_ok[0] {
                let rest_ok = if write_ok.len() == 0 {
                    write_ok
                } else {
                    write_ok.skip(1)
                };
                lemma_failure_stops_run(n2, levels.skip(1), more, rest_ok);
            }
        }
        None => {
            lemma_failure_stops_run(n2, levels.skip(1), more, write_ok);
        }
    }
}

/// What a run writes is an unbroken prefix of what the detector emits:
/// events go out in emission order, none is skipped, none is written
/// twice, and a run without a write failure writes them all.
pub proof fn lemma_run_sends_prefix(init: bool, levels: Seq<bool>, write_ok: Seq<bool>)
    ensures
        spec_run(init, levels, write_ok).0.len() <= spec_emitted(init, levels).len(),
        spec_run(init, levels, write_ok).0 == spec_emitted(init, levels).take(
            spec_run(init, levels, write_ok).0.len() as int,
        ),
        !spec_run(init, levels, write_ok).1 ==> spec_run(init, levels, write_ok).0 == spec_emitted(
            init,
            levels,
        ),
    decreases levels.len(),
{
    if levels.len() == 0 {
        assert(spec_emitted(init, levels).take(0) =~= Seq::<NotificationEvent>::empty());
    } else {
        let n2 = spec_tick_notified(init, levels[0]);
        let rest_emitted = spec_emitted(n2, levels.skip(1));
        match spec_tick_event(init, levels[0]) {
            Some(e) => {
                if write_ok.len() == 0 || write_ok[0] {
                    let rest_ok = if write_ok.len() == 0 {
                        write_ok
                    } else {
                        write_ok.skip(1)
                    };
                    lemma_run_sends_prefix(n2, levels.skip(1), rest_ok);
                    let rr = spec_run(n2, levels.skip(1), rest_ok);
                    assert((seq![e] + rest_emitted).take(1 + rr.0.len() as int) =~= seq![e]
                        + rest_emitted.take(rr.0.len() as int));
                    if !spec_run(init, levels, write_ok).1 {
                        assert(seq![e] + rr.0 =~= seq![e] + rest_emitted);
                    }
                } else {
                    assert((seq![e] + rest_emitted).take(0) =~= Seq::<NotificationEvent>::empty());
                }
            }
            None => {
                lemma_run_sends_prefix(n2, levels.skip(1), write_ok);
            }
        }
    }
}

/// Against a stream that never fails, the run writes exactly the
/// emitted events, reports no failure, and enters every tick.
pub proof fn lemma_run_without_failures(init: bool, levels: Seq<bool>, write_ok: Seq<bool>)
    requires
        forall|k: int| 0 <= k < write_ok.len() ==> write_ok[k],
    ensures
        spec_run(init, levels, write_ok).0 == spec_emitted(init, levels),
        !spec_run(init, levels, write_ok).1,
        spec_run(init, levels, write_ok).2 == levels.len(),
    decreases levels.len(),
{
    if levels.len() == 0 {
    } else {
        let n2 = spec_tick_notified(init, levels[0]);
        match spec_tick_event(init, levels[0]) {
            Some(e) => {
                let rest_ok = if write_ok.len() == 0 {
                    write_ok
                } else {
                    write_ok.skip(1)
                };
                assert(forall|k: int| 0 <= k < rest_ok.len() ==> rest_ok[k]);
                lemma_run_without_failures(n2, levels.skip(1), rest_ok);
            }
            None => {
                lemma_run_without_failures(n2, levels.skip(1), write_ok);
            }
        }
    }
}

} // verus!
