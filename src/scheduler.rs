//! The note-on and note-off schedulers: first-in first-out queues of
//! (deadline, plan index) items that fire once their deadline has passed.
//! Waiting itself is left to the caller.
use vstd::prelude::*;

verus! {

/// What a scheduler should do next.
#[derive(PartialEq, Eq, Structural, Debug, Clone, Copy)]
pub enum SchedulerStep<F> {
    /// Nothing is queued.
    Idle,
    /// The oldest item is due in this many microseconds.
    Wait(u64),
    /// The oldest item is due: fire it.
    Fire(F),
}

/// How long until `deadline`, or zero when it has passed.
pub open spec fn remaining_spec(deadline: u64, now: u64) -> u64 {
    if deadline > now {
        (deadline - now) as u64
    } else {
        0
    }
}

/// How long until `deadline`, or zero when it has passed.
pub fn remaining(deadline: u64, now: u64) -> (r: u64)
    ensures
        r == remaining_spec(deadline, now),
{
    if deadline > now {
        deadline - now
    } else {
        0
    }
}

/// A request to fire the note-on of a planned note at `time` (microseconds).
#[derive(PartialEq, Eq, Structural, Debug, Clone, Copy)]
pub struct ScheduleNoteOnMessage {
    pub time: u64,
    pub planned_note_index: usize,
}

/// The note-on of a planned note is due.
#[derive(PartialEq, Eq, Structural, Debug, Clone, Copy)]
pub struct FireNoteOnMessage {
    pub planned_note_index: usize,
}

/// A request to fire the note-off of a planned note at `time` (microseconds).
#[derive(PartialEq, Eq, Structural, Debug, Clone, Copy)]
pub struct ScheduleNoteOffMessage {
    pub time: u64,
    pub note_index: usize,
}

/// The note-off of a planned note is due.
#[derive(PartialEq, Eq, Structural, Debug, Clone, Copy)]
pub struct FireNoteOffMessage {
    pub note_index: usize,
}

/// Fires note-on requests in the order they came, each once its time has come.
pub struct NoteOnScheduler {
    queue: Vec<ScheduleNoteOnMessage>,
}

impl View for NoteOnScheduler {
    type V = Seq<ScheduleNoteOnMessage>;

    closed spec fn view(&self) -> Seq<ScheduleNoteOnMessage> {
        self.queue@
    }
}

impl NoteOnScheduler {
    pub fn new() -> (r: NoteOnScheduler)
        ensures
            r@ == Seq::<ScheduleNoteOnMessage>::empty(),
    {
        NoteOnScheduler { queue: Vec::new() }
    }

    /// Queues a request behind the earlier ones.
    pub fn submit(&mut self, message: ScheduleNoteOnMessage)
        ensures
            final(self)@ == old(self)@.push(message),
    {
        self.queue.push(message);
    }

    /// At `now`: fires the oldest request if it is due, else says how long to wait.
    pub fn poll(&mut self, now: u64) -> (r: SchedulerStep<FireNoteOnMessage>)
        ensures
            old(self)@.len() == 0 ==> r == SchedulerStep::<FireNoteOnMessage>::Idle && final(self)@
                == old(self)@,
            old(self)@.len() > 0 && old(self)@[0].time > now ==> r == SchedulerStep::<
                FireNoteOnMessage,
            >::Wait(remaining_spec(old(self)@[0].time, now)) && final(self)@ == old(self)@,
            old(self)@.len() > 0 && old(self)@[0].time <= now ==> r == SchedulerStep::Fire(
                FireNoteOnMessage { planned_note_index: old(self)@[0].planned_note_index },
            ) && final(self)@ == old(self)@.drop_first(),
    {
        if self.queue.len() == 0 {
            return SchedulerStep::Idle;
        }
        let first = self.queue[0];
        if first.time > now {
            return SchedulerStep::Wait(remaining(first.time, now));
        }
        self.queue.remove(0);
        proof {
            assert(self@ =~= old(self)@.drop_first());
        }
        SchedulerStep::Fire(FireNoteOnMessage { planned_note_index: first.planned_note_index })
    }
}

/// Fires note-off requests in the order they came, each once its time has come.
pub struct NoteOffScheduler {
    queue: Vec<ScheduleNoteOffMessage>,
}

impl View for NoteOffScheduler {
    type V = Seq<ScheduleNoteOffMessage>;

    closed spec fn view(&self) -> Seq<ScheduleNoteOffMessage> {
        self.queue@
    }
}

impl NoteOffScheduler {
    pub fn new() -> (r: NoteOffScheduler)
        ensures
            r@ == Seq::<ScheduleNoteOffMessage>::empty(),
    {
        NoteOffScheduler { queue: Vec::new() }
    }

    /// Queues a request behind the earlier ones.
    pub fn submit(&mut self, message: ScheduleNoteOffMessage)
        ensures
            final(self)@ == old(self)@.push(message),
    {
        self.queue.push(message);
    }

    /// At `now`: fires the oldest request if it is due, else says how long to wait.
    pub fn poll(&mut self, now: u64) -> (r: SchedulerStep<FireNoteOffMessage>)
        ensures
            old(self)@.len() == 0 ==> r == SchedulerStep::<FireNoteOffMessage>::Idle && final(self)@
                == old(self)@,
            old(self)@.len() > 0 && old(self)@[0].time > now ==> r == SchedulerStep::<
                FireNoteOffMessage,
            >::Wait(remaining_spec(old(self)@[0].time, now)) && final(self)@ == old(self)@,
            old(self)@.len() > 0 && old(self)@[0].time <= now ==> r == SchedulerStep::Fire(
                FireNoteOffMessage { note_index: old(self)@[0].note_index },
            ) && final(self)@ == old(self)@.drop_first(),
    {
        if self.queue.len() == 0 {
            return SchedulerStep::Idle;
        }
        let first = self.queue[0];
        if first.time > now {
            return SchedulerStep::Wait(remaining(first.time, now));
        }
        self.queue.remove(0);
        proof {
            assert(self@ =~= old(self)@.drop_first());
        }
        SchedulerStep::Fire(FireNoteOffMessage { note_index: first.note_index })
    }
}

} // verus!
