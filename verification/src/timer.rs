use vstd::prelude::*;
use std::collections::VecDeque;
use crate::devices::BPCommand;

verus! {

/// What a script asks of the command timer.
#[derive(Clone, Copy, Debug, PartialEq, Eq, Structural)]
pub enum ScriptCommand {
    /// Vibrate at a speed (bit pattern of the `f64`) for a time, in
    /// nanoseconds.
    VibrateFor(u64, u128),
    /// Stop now.
    Stop,
    /// Shut the timer down.
    Close,
}

/// A device command and the moment it falls due, in nanoseconds since the
/// Unix epoch (negative before it).
#[derive(Clone, Copy, Debug, PartialEq, Eq, Structural)]
pub struct TimeStampEvent {
    pub command: BPCommand,
    pub timestamp: i128,
}

impl TimeStampEvent {
    /// `command`, due `duration` nanoseconds after `now`.
    pub fn new(command: BPCommand, duration: u128, now: i128) -> (e: Self)
        requires
            now + duration <= i128::MAX,
        ensures
            e.command == command,
            e.timestamp == now + duration,
    {
        let max: u128 = 0x7fff_ffff_ffff_ffff_ffff_ffff_ffff_ffff;
        let timestamp = if duration <= max {
            now + duration as i128
        } else {
            // Only reachable with `now` negative: add the duration in parts that
            // each fit in an `i128`.
            let excess = (duration - max - 1) as i128;
            ((now + excess) + 0x7fff_ffff_ffff_ffff_ffff_ffff_ffff_ffff_i128) + 1
        };
        TimeStampEvent { command, timestamp }
    }
}

/// Whether the timestamps of a command received at `now` fit.
pub open spec fn fits_at(msg: ScriptCommand, now: i128) -> bool {
    match msg {
        ScriptCommand::VibrateFor(_, d) => now + d <= i128::MAX,
        _ => true,
    }
}

/// The events a command received at `now` adds to the queue.
pub open spec fn events_for(msg: ScriptCommand, now: i128) -> Seq<TimeStampEvent> {
    match msg {
        ScriptCommand::VibrateFor(speed, d) => seq![
            TimeStampEvent { command: BPCommand::Vibrate(speed), timestamp: now },
            TimeStampEvent { command: BPCommand::Stop, timestamp: (now + d) as i128 },
        ],
        ScriptCommand::Stop => seq![TimeStampEvent { command: BPCommand::Stop, timestamp: now }],
        ScriptCommand::Close => Seq::empty(),
    }
}

/// Whether the first queued event is due strictly before `now`.
pub open spec fn front_due(queue: Seq<TimeStampEvent>, now: i128) -> bool {
    queue.len() > 0 && queue[0].timestamp < now
}

/// The queue after a check at `now`, and the command the check lets out: the
/// first queued one if it is due strictly before `now`, else none.
pub open spec fn after_check(queue: Seq<TimeStampEvent>, now: i128) -> (Seq<TimeStampEvent>, Option<BPCommand>) {
    if front_due(queue, now) {
        (queue.drop_first(), Some(queue[0].command))
    } else {
        (queue, None)
    }
}

/// The commands a run of checks at the given times lets out of `queue`, in
/// the order they leave.
pub open spec fn dispatched(queue: Seq<TimeStampEvent>, times: Seq<i128>) -> Seq<BPCommand>
    decreases times.len(),
{
    if times.len() == 0 {
        Seq::empty()
    } else {
        let (rest, c) = after_check(queue, times[0]);
        match c {
            Some(cmd) => seq![cmd] + dispatched(rest, times.drop_first()),
            None => dispatched(rest, times.drop_first()),
        }
    }
}

/// The commands of the queued events, in queue order.
pub open spec fn commands(queue: Seq<TimeStampEvent>) -> Seq<BPCommand> {
    queue.map_values(|e: TimeStampEvent| e.command)
}

/// Commands leave the timer in the order they were queued: whatever checks
/// are made, the commands let out are the first queued ones, in queue order.
pub proof fn commands_leave_in_order(queue: Seq<TimeStampEvent>, times: Seq<i128>)
    ensures
        dispatched(queue, times).len() <= queue.len(),
        dispatched(queue, times) == commands(queue).take(dispatched(queue, times).len() as int),
    decreases times.len(),
{
    if times.len() > 0 {
        let (rest, c) = after_check(queue, times[0]);
        commands_leave_in_order(rest, times.drop_first());
        let tail = dispatched(rest, times.drop_first());
        if c is Some {
            assert(commands(rest) =~= commands(queue).drop_first());
            assert(dispatched(queue, times) =~= commands(queue).take(tail.len() + 1 as int));
        }
    }
}

/// A timed vibration received by an idle timer at `t` plays out in full: the
/// first check after `t` starts the vibration, the first check after its
/// duration has passed stops it, and the timer is idle again.
pub proof fn timed_vibration_plays_out(speed: u64, duration: u128, t: i128, t1: i128, t2: i128)
    requires
        t + duration <= i128::MAX,
        t < t1,
        t + duration < t2,
    ensures
        ({
            let queued = Seq::<TimeStampEvent>::empty() + events_for(
                ScriptCommand::VibrateFor(speed, duration),
                t,
            );
            let (after_first, first) = after_check(queued, t1);
            let (after_second, second) = after_check(after_first, t2);
            &&& first == Some(BPCommand::Vibrate(speed))
            &&& second == Some(BPCommand::Stop)
            &&& after_second.len() == 0
        }),
{
    let queued = Seq::<TimeStampEvent>::empty() + events_for(ScriptCommand::VibrateFor(speed, duration), t);
    assert(queued.len() == 2);
    let (after_first, first) = after_check(queued, t1);
    assert(after_first =~= queued.drop_first());
    assert(after_first[0].timestamp == t + duration);
}

/// One step of the timer's loop: a command received from the script at a
/// time, or a check for a due command at a time.
#[derive(Clone, Copy, Debug, PartialEq, Eq, Structural)]
pub enum TimerStep {
    Receive(ScriptCommand, i128),
    Check(i128),
}

/// Whether the due times of every command a run receives fit.
pub open spec fn run_fits(run: Seq<TimerStep>) -> bool {
    forall|i: int| 0 <= i < run.len() ==> match #[trigger] run[i] {
        TimerStep::Receive(msg, now) => fits_at(msg, now),
        TimerStep::Check(_) => true,
    }
}

/// The queue of a timer that started empty and went through `run`.
pub open spec fn queue_after(run: Seq<TimerStep>) -> Seq<TimeStampEvent>
    decreases run.len(),
{
    if run.len() == 0 {
        Seq::empty()
    } else {
        let q = queue_after(run.drop_last());
        match run.last() {
            TimerStep::Receive(msg, now) => q + events_for(msg, now),
            TimerStep::Check(now) => after_check(q, now).0,
        }
    }
}

/// The events the checks of `run` let out, in order, each with the time of
/// the check that let it out.
pub open spec fn released_during(run: Seq<TimerStep>) -> Seq<(TimeStampEvent, i128)>
    decreases run.len(),
{
    if run.len() == 0 {
        Seq::empty()
    } else {
        let prev = released_during(run.drop_last());
        match run.last() {
            TimerStep::Receive(_, _) => prev,
            TimerStep::Check(now) => {
                let q = queue_after(run.drop_last());
                if front_due(q, now) {
                    prev.push((q[0], now))
                } else {
                    prev
                }
            },
        }
    }
}

/// Every event the commands received during `run` produce, in the order
/// received: a timed vibration received at `r` gives the vibration stamped
/// `r` and a stop stamped `r` plus its duration, a stop gives a stop stamped
/// `r`, and `Close` gives nothing.
pub open spec fn received_events(run: Seq<TimerStep>) -> Seq<TimeStampEvent>
    decreases run.len(),
{
    if run.len() == 0 {
        Seq::empty()
    } else {
        let prev = received_events(run.drop_last());
        match run.last() {
            TimerStep::Receive(msg, now) => prev + events_for(msg, now),
            TimerStep::Check(_) => prev,
        }
    }
}

/// The events let out during `run`, without their times.
pub open spec fn released_events(run: Seq<TimerStep>) -> Seq<TimeStampEvent> {
    released_during(run).map_values(|p: (TimeStampEvent, i128)| p.0)
}

/// What has been let out and what is still queued together make up exactly
/// what was received, in order.
pub proof fn released_then_queued_is_received(run: Seq<TimerStep>)
    ensures
        released_events(run) + queue_after(run) == received_events(run),
    decreases run.len(),
{
    if run.len() > 0 {
        let prev = run.drop_last();
        released_then_queued_is_received(prev);
        let q = queue_after(prev);
        match run.last() {
            TimerStep::Receive(msg, now) => {
                assert(released_during(run) == released_during(prev));
                assert(released_events(run) =~= released_events(prev));
                assert(released_events(run) + queue_after(run) =~= (released_events(prev) + q)
                    + events_for(msg, now));
            },
            TimerStep::Check(now) => {
                if front_due(q, now) {
                    assert(released_events(run) =~= released_events(prev).push(q[0]));
                    assert(released_events(run) + queue_after(run) =~= released_events(prev) + q);
                } else {
                    assert(released_events(run) =~= released_events(prev));
                }
            },
        }
    }
}

/// Over any run of receives and checks, the events let out are the first
/// events received, in the order received, each let out once and unchanged
/// (speeds included); so the commands sent are a prefix of the commands the
/// received script commands expand to.
pub proof fn released_in_order_received(run: Seq<TimerStep>)
    ensures
        released_events(run).len() <= received_events(run).len(),
        released_events(run) == received_events(run).take(released_events(run).len() as int),
        commands(released_events(run)) == commands(received_events(run)).take(
            released_events(run).len() as int,
        ),
{
    released_then_queued_is_received(run);
    let r = released_events(run);
    assert(received_events(run).take(r.len() as int) =~= r);
    assert(commands(r) =~= commands(received_events(run)).take(r.len() as int));
}

/// Nothing is let out early: over any run, each event is let out at a check
/// strictly after its due time, and the `i`-th event let out is the `i`-th
/// event received. A timed vibration received at `r` is thus sent only after
/// `r`, and its stop only after `r` plus the duration.
pub proof fn never_released_early(run: Seq<TimerStep>)
    ensures
        forall|i: int| 0 <= i < released_during(run).len() ==> {
            let (e, at) = #[trigger] released_during(run)[i];
            &&& e.timestamp < at
            &&& e == received_events(run)[i]
        },
    decreases run.len(),
{
    released_in_order_received(run);
    if run.len() > 0 {
        let prev = run.drop_last();
        never_released_early(prev);
        released_in_order_received(prev);
        assert forall|i: int| 0 <= i < released_during(run).len() implies ({
            let (e, at) = #[trigger] released_during(run)[i];
            &&& e.timestamp < at
            &&& e == received_events(run)[i]
        }) by {
            assert(released_events(run)[i] == released_during(run)[i].0);
            assert(received_events(run).take(released_events(run).len() as int)[i]
                == received_events(run)[i]);
            if i < released_during(prev).len() {
                assert(released_during(run)[i] == released_during(prev)[i]);
            }
        }
    }
}

/// A due command is never held back: whenever the queue is not empty, the
/// timer does not wait for a new command, and the first check made after
/// the head's due time lets the head out, whatever came before.
pub proof fn due_head_released_at_next_check(run: Seq<TimerStep>, now: i128)
    requires
        queue_after(run).len() > 0,
        queue_after(run)[0].timestamp < now,
    ensures
        released_during(run.push(TimerStep::Check(now))) == released_during(run).push(
            (queue_after(run)[0], now),
        ),
        queue_after(run.push(TimerStep::Check(now))) == queue_after(run).drop_first(),
{
    assert(run.push(TimerStep::Check(now)).drop_last() =~= run);
}

/// The queue of timed device commands between the script and the devices.
/// Events leave in the order they came in, each once its time has passed.
pub struct CommandTimer {
    queue: VecDeque<TimeStampEvent>,
    close: bool,
}

impl CommandTimer {
    /// The queued events, first due first.
    pub closed spec fn queue(&self) -> Seq<TimeStampEvent> {
        self.queue@
    }

    /// Whether a `Close` has been received.
    pub closed spec fn closing(&self) -> bool {
        self.close
    }

    /// An empty, running timer.
    pub fn new() -> (t: Self)
        ensures
            t.queue() == Seq::<TimeStampEvent>::empty(),
            !t.closing(),
    {
        CommandTimer { queue: VecDeque::new(), close: false }
    }

    /// Whether the timer has nothing queued, so that it can wait for the next
    /// command rather than poll for one.
    pub fn waits_for_command(&self) -> (b: bool)
        ensures
            b == (self.queue().len() == 0),
    {
        self.queue.len() == 0
    }

    /// Whether a `Close` has been received.
    pub fn is_closed(&self) -> (b: bool)
        ensures
            b == self.closing(),
    {
        self.close
    }

    /// Takes in a command from the script, received at `now`: a timed
    /// vibration queues the vibration now and a stop when its time is up; a
    /// stop queues a stop now; `Close` marks the timer for shutting down.
    pub fn enqueue(&mut self, msg: ScriptCommand, now: i128)
        requires
            fits_at(msg, now),
        ensures
            final(self).queue() == old(self).queue() + events_for(msg, now),
            final(self).closing() == (old(self).closing() || msg == ScriptCommand::Close),
    {
        match msg {
            ScriptCommand::VibrateFor(speed, time) => {
                self.queue.push_back(TimeStampEvent::new(BPCommand::Vibrate(speed), 0, now));
                self.queue.push_back(TimeStampEvent::new(BPCommand::Stop, time, now));
            },
            ScriptCommand::Stop => {
                self.queue.push_back(TimeStampEvent::new(BPCommand::Stop, 0, now));
            },
            ScriptCommand::Close => {
                self.close = true;
            },
        }
        assert(self.queue@ =~= old(self).queue@ + events_for(msg, now));
    }

    /// Records that a command let out could not be passed on to the device
    /// client: the timer shuts down, as after `Close`, with its queue as it is.
    pub fn send_failed(&mut self)
        ensures
            final(self).closing(),
            final(self).queue() == old(self).queue(),
    {
        self.close = true;
    }

    /// The first queued command, taken off the queue, if its time is
    /// strictly before `now`; otherwise nothing, and the queue stays as it is.
    pub fn take_due(&mut self, now: i128) -> (c: Option<BPCommand>)
        ensures
            (final(self).queue(), c) == after_check(old(self).queue(), now),
            final(self).closing() == old(self).closing(),
    {
        if self.queue.len() > 0 && self.queue[0].timestamp < now {
            let e = self.queue.pop_front();
            match e {
                Some(e) => {
                    assert(self.queue@ =~= old(self).queue@.drop_first());
                    Some(e.command)
                },
                None => None,
            }
        } else {
            None
        }
    }
}

} // verus!
