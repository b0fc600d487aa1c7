use vstd::prelude::*;

verus! {

/// Where a waiter stands in its life.
#[derive(Clone, Copy, Debug, PartialEq, Eq, Structural)]
pub enum Phase {
    /// No admission check has been made yet.
    Fresh,
    /// The first check has been asked for; from here on the limiter is
    /// checked again only when the timer fires.
    AwaitingTimer,
    /// The limiter admitted the request; terminal.
    Completed,
}

/// Which reply the waiter expects from its driver.
#[derive(Clone, Copy, Debug, PartialEq, Eq, Structural)]
pub enum Stage {
    /// Between scheduling attempts: the next event is a poll.
    Idle,
    /// The first admission check was asked for.
    FirstCheck,
    /// The timer was asked to be polled.
    TimerPoll,
    /// A check after the timer fired was asked for.
    Recheck,
}

/// What the driver reports to the waiter.
#[derive(Debug, PartialEq, Eq)]
pub enum Event<T> {
    /// The scheduler runs (or resumes) the task.
    Poll,
    /// The limiter's check admitted the request.
    Admitted,
    /// The limiter's check denied it; a later check may succeed at the instant.
    Denied(T),
    /// The timer has reached its armed instant.
    TimerReady,
    /// The timer has not reached its armed instant yet.
    TimerPending,
}

/// What the driver does next.
#[derive(Clone, Copy, Debug, PartialEq, Eq, Structural)]
pub enum Next {
    /// Run the limiter's check and report `Admitted` or `Denied`.
    CheckLimiter,
    /// Poll the timer and report `TimerReady` or `TimerPending`.
    PollTimer,
    /// The task is complete.
    Ready,
    /// The task stays suspended until the scheduler resumes it.
    Pending,
}

/// The waiter's answer to an event: re-arm the timer first when `rearm`
/// holds an instant, then do `next`.
#[derive(Debug, PartialEq, Eq)]
pub struct Action<T> {
    pub rearm: Option<T>,
    pub next: Next,
}

/// One admission request, awaiting the limiter's consent.
///
/// `T` is the limiter's and the timer's notion of an instant.
pub struct Waiter<T> {
    pub phase: Phase,
    pub stage: Stage,
    /// The instant the timer was last re-armed to; `None` while it still
    /// holds the already-passed deadline it was created with.
    pub armed: Option<T>,
}

/// An action, as the contracts write it.
pub open spec fn act<T>(rearm: Option<T>, next: Next) -> Action<T> {
    Action { rearm, next }
}

impl<T: Copy> Waiter<T> {
    /// The waiter as `new` makes it.
    pub open spec fn fresh() -> Waiter<T> {
        Waiter { phase: Phase::Fresh, stage: Stage::Idle, armed: None }
    }

    /// The states a waiter can reach: a fresh waiter has neither checked nor
    /// armed anything, and a completed one expects nothing but polls.
    pub open spec fn wf(self) -> bool {
        &&& self.phase == Phase::Fresh ==> self.stage == Stage::Idle && self.armed is None
        &&& self.phase == Phase::Completed ==> self.stage == Stage::Idle
        &&& self.stage != Stage::Idle ==> self.phase == Phase::AwaitingTimer
    }

    /// Whether `e` is the kind of reply the waiter waits for.
    pub open spec fn accepts(self, e: Event<T>) -> bool {
        match self.stage {
            Stage::Idle => e is Poll,
            Stage::FirstCheck | Stage::Recheck => e is Admitted || e is Denied,
            Stage::TimerPoll => e is TimerReady || e is TimerPending,
        }
    }

    /// The waiter's transition: its next state and what it asks the driver
    /// to do. An event it does not expect leaves it unchanged and pending.
    pub open spec fn transition(self, e: Event<T>) -> (Waiter<T>, Action<T>) {
        match self.stage {
            Stage::Idle => match e {
                Event::Poll => match self.phase {
                    Phase::Fresh => (
                        Waiter { phase: Phase::AwaitingTimer, stage: Stage::FirstCheck, ..self },
                        act(None, Next::CheckLimiter),
                    ),
                    Phase::AwaitingTimer => (
                        Waiter { stage: Stage::TimerPoll, ..self },
                        act(None, Next::PollTimer),
                    ),
                    Phase::Completed => (self, act(None, Next::Ready)),
                },
                _ => (self, act(None, Next::Pending)),
            },
            Stage::FirstCheck | Stage::Recheck => match e {
                Event::Admitted => (
                    Waiter { phase: Phase::Completed, stage: Stage::Idle, ..self },
                    act(None, Next::Ready),
                ),
                Event::Denied(t) => if self.stage == Stage::FirstCheck {
                    (
                        Waiter { stage: Stage::TimerPoll, armed: Some(t), ..self },
                        act(Some(t), Next::PollTimer),
                    )
                } else {
                    (
                        Waiter { stage: Stage::Idle, armed: Some(t), ..self },
                        act(Some(t), Next::Pending),
                    )
                },
                _ => (self, act(None, Next::Pending)),
            },
            Stage::TimerPoll => match e {
                Event::TimerReady => (
                    Waiter { stage: Stage::Recheck, ..self },
                    act(None, Next::CheckLimiter),
                ),
                Event::TimerPending => (
                    Waiter { stage: Stage::Idle, ..self },
                    act(None, Next::Pending),
                ),
                _ => (self, act(None, Next::Pending)),
            },
        }
    }

    /// The waiter after it has been handed the events of `es`, in order.
    pub open spec fn run(self, es: Seq<Event<T>>) -> Waiter<T>
        decreases es.len(),
    {
        if es.len() == 0 {
            self
        } else {
            self.run(es.drop_last()).transition(es.last()).0
        }
    }

    /// The actions the waiter answers the events of `es` with, in order.
    pub open spec fn actions(self, es: Seq<Event<T>>) -> Seq<Action<T>>
        decreases es.len(),
    {
        if es.len() == 0 {
            Seq::empty()
        } else {
            self.actions(es.drop_last()).push(self.run(es.drop_last()).transition(es.last()).1)
        }
    }

    /// Whether each event of `es` is one the waiter waits for when it comes:
    /// what a driver that carries out the waiter's actions reports.
    pub open spec fn follows(self, es: Seq<Event<T>>) -> bool
        decreases es.len(),
    {
        if es.len() == 0 {
            true
        } else {
            self.follows(es.drop_last()) && self.run(es.drop_last()).accepts(es.last())
        }
    }

    /// A waiter that has not checked the limiter yet, with its timer at a
    /// deadline that has already passed.
    pub fn new() -> (g: Waiter<T>)
        ensures
            g == Waiter::<T>::fresh(),
            g.wf(),
            g.phase == Phase::Fresh,
    {
        Waiter { phase: Phase::Fresh, stage: Stage::Idle, armed: None }
    }

    pub fn is_completed(&self) -> (b: bool)
        ensures
            b == (self.phase == Phase::Completed),
    {
        self.phase == Phase::Completed
    }

    /// Whether `e` is a reply the waiter waits for; a driver that follows
    /// the actions only ever reports such events.
    pub fn accepts_event(&self, e: &Event<T>) -> (b: bool)
        ensures
            b == self.accepts(*e),
    {
        match self.stage {
            Stage::Idle => matches!(e, Event::Poll),
            Stage::FirstCheck | Stage::Recheck => matches!(e, Event::Admitted | Event::Denied(_)),
            Stage::TimerPoll => matches!(e, Event::TimerReady | Event::TimerPending),
        }
    }

    /// Hands the waiter one event and returns what the driver does next.
    ///
    /// A scheduling attempt on a fresh waiter clears its first-attempt state
    /// and asks for a check before the timer is ever consulted. A denial
    /// re-arms the timer to the instant the limiter reported; after the
    /// first check the timer is then polled, after a later one the task
    /// stays suspended. The waiter completes only on an admission, and a
    /// completed waiter answers every poll with `Ready` and nothing else.
    pub fn step(&mut self, event: Event<T>) -> (r: Action<T>)
        ensures
            (*final(self), r) == old(self).transition(event),
    {
        match self.stage {
            Stage::Idle => match event {
                Event::Poll => match self.phase {
                    Phase::Fresh => {
                        self.phase = Phase::AwaitingTimer;
                        self.stage = Stage::FirstCheck;
                        Action { rearm: None, next: Next::CheckLimiter }
                    },
                    Phase::AwaitingTimer => {
                        self.stage = Stage::TimerPoll;
                        Action { rearm: None, next: Next::PollTimer }
                    },
                    Phase::Completed => Action { rearm: None, next: Next::Ready },
                },
                _ => Action { rearm: None, next: Next::Pending },
            },
            Stage::FirstCheck | Stage::Recheck => match event {
                Event::Admitted => {
                    self.phase = Phase::Completed;
                    self.stage = Stage::Idle;
                    Action { rearm: None, next: Next::Ready }
                },
                Event::Denied(t) => {
                    let next = if self.stage == Stage::FirstCheck {
                        self.stage = Stage::TimerPoll;
                        Next::PollTimer
                    } else {
                        self.stage = Stage::Idle;
                        Next::Pending
                    };
                    self.armed = Some(t);
                    Action { rearm: Some(t), next }
                },
                _ => Action { rearm: None, next: Next::Pending },
            },
            Stage::TimerPoll => match event {
                Event::TimerReady => {
                    self.stage = Stage::Recheck;
                    Action { rearm: None, next: Next::CheckLimiter }
                },
                Event::TimerPending => {
                    self.stage = Stage::Idle;
                    Action { rearm: None, next: Next::Pending }
                },
                _ => Action { rearm: None, next: Next::Pending },
            },
        }
    }
}

} // verus!

verus! {

/// The instant of the last denial among `es`, or `init` when none was
/// denied.
pub open spec fn latest_denial<T>(init: Option<T>, es: Seq<Event<T>>) -> Option<T>
    decreases es.len(),
{
    if es.len() == 0 {
        init
    } else {
        match es.last() {
            Event::Denied(t) => Some(t),
            _ => latest_denial(init, es.drop_last()),
        }
    }
}

/// How many of `es` report an admission.
pub open spec fn admissions<T>(es: Seq<Event<T>>) -> nat
    decreases es.len(),
{
    if es.len() == 0 {
        0
    } else {
        admissions(es.drop_last()) + if es.last() is Admitted { 1nat } else { 0nat }
    }
}

/// Every transition keeps a waiter among the reachable states.
pub proof fn lemma_transition_wf<T: Copy>(g: Waiter<T>, e: Event<T>)
    requires
        g.wf(),
    ensures
        g.transition(e).0.wf(),
{
}

/// A waiter completes only on the event that reports an admission: the
/// timer firing alone never completes it.
pub proof fn lemma_completes_only_on_admission<T: Copy>(g: Waiter<T>, e: Event<T>)
    requires
        g.wf(),
        g.phase != Phase::Completed,
        g.transition(e).0.phase == Phase::Completed,
    ensures
        e is Admitted,
        g.transition(e).1 == act::<T>(None, Next::Ready),
{
}

/// A completed waiter stays completed: whatever it is handed, it answers
/// `Ready` (or, to an event it does not expect, `Pending`), never asks
/// for a check of the limiter and never re-arms its timer.
pub proof fn lemma_completed_is_terminal<T: Copy>(g: Waiter<T>, e: Event<T>)
    requires
        g.wf(),
        g.phase == Phase::Completed,
    ensures
        g.transition(e).0 == g,
        g.transition(e).1.rearm is None,
        g.transition(e).1.next != Next::CheckLimiter,
        e is Poll ==> g.transition(e).1.next == Next::Ready,
{
}

/// A limiter that admits at once: a fresh waiter asks for one check on its
/// first scheduling attempt and, on admission, completes without the
/// timer ever being polled or re-armed.
pub proof fn lemma_immediate_admission<T: Copy>()
    ensures
        ({
            let es = seq![Event::<T>::Poll, Event::Admitted];
            &&& Waiter::<T>::fresh().run(es).phase == Phase::Completed
            &&& Waiter::<T>::fresh().actions(es) == seq![
                act::<T>(None, Next::CheckLimiter),
                act::<T>(None, Next::Ready),
            ]
        }),
{
    let g = Waiter::<T>::fresh();
    let es = seq![Event::<T>::Poll, Event::Admitted];
    let es1 = seq![Event::<T>::Poll];
    assert(es.drop_last() == es1);
    assert(es1.drop_last() == Seq::<Event<T>>::empty());
    assert(es1.last() == Event::<T>::Poll);
    assert(es.last() == Event::<T>::Admitted);
    assert(g.run(es1.drop_last()) == g);
    assert(g.run(es1) == g.transition(Event::Poll).0);
    assert(g.actions(es1.drop_last()) == Seq::<Action<T>>::empty());
    assert(g.actions(es1) == seq![act::<T>(None, Next::CheckLimiter)]);
    assert(g.actions(es) == seq![act::<T>(None, Next::CheckLimiter), act::<T>(None, Next::Ready)]);
}

} // verus!

verus! {

/// The instant an event reports a denial at, if it is a denial.
pub open spec fn denial_of<T>(e: Event<T>) -> Option<T> {
    match e {
        Event::Denied(t) => Some(t),
        _ => None,
    }
}

proof fn lemma_run_push<T: Copy>(g: Waiter<T>, es: Seq<Event<T>>, e: Event<T>)
    ensures
        es.push(e).drop_last() == es,
        es.push(e).last() == e,
        g.run(es.push(e)) == g.run(es).transition(e).0,
        g.actions(es.push(e)) == g.actions(es).push(g.run(es).transition(e).1),
        g.follows(es.push(e)) == (g.follows(es) && g.run(es).accepts(e)),
        admissions(es.push(e)) == admissions(es) + if e is Admitted { 1nat } else { 0nat },
        latest_denial(g.armed, es.push(e)) == match e {
            Event::Denied(t) => Some(t),
            _ => latest_denial(g.armed, es),
        },
{
    assert(es.push(e).drop_last() == es);
}

proof fn lemma_actions_len<T: Copy>(g: Waiter<T>, es: Seq<Event<T>>)
    ensures
        g.actions(es).len() == es.len(),
    decreases es.len(),
{
    if es.len() > 0 {
        lemma_actions_len(g, es.drop_last());
    }
}

/// The timer is always armed to the instant of the latest denial, never
/// to an earlier one: each answer re-arms it exactly when the event was
/// a denial, and then to that denial's instant.
pub proof fn lemma_armed_is_latest_denial<T: Copy>(g: Waiter<T>, es: Seq<Event<T>>)
    requires
        g.follows(es),
    ensures
        g.run(es).armed == latest_denial(g.armed, es),
        g.actions(es).len() == es.len(),
        forall|i: int| 0 <= i < es.len() ==> #[trigger] g.actions(es)[i].rearm == denial_of(es[i]),
    decreases es.len(),
{
    lemma_actions_len(g, es);
    if es.len() > 0 {
        let p = es.drop_last();
        lemma_armed_is_latest_denial(g, p);
        lemma_run_push(g, p, es.last());
        assert(p.push(es.last()) == es);
        assert forall|i: int| 0 <= i < es.len() implies #[trigger] g.actions(es)[i].rearm == denial_of(es[i]) by {
            if i < es.len() - 1 {
                assert(es[i] == p[i]);
                assert(g.actions(es)[i] == g.actions(p)[i]);
            }
        }
    }
}

/// A waiter driven from its creation sees at most one admission, and it is
/// completed exactly when it has seen one: it resolves once, and each
/// waiter that resolves accounts for exactly one admission the limiter
/// granted.
pub proof fn lemma_single_admission<T: Copy>(es: Seq<Event<T>>)
    requires
        Waiter::<T>::fresh().follows(es),
    ensures
        admissions(es) <= 1,
        (Waiter::<T>::fresh().run(es).phase == Phase::Completed) == (admissions(es) == 1),
        Waiter::<T>::fresh().run(es).wf(),
    decreases es.len(),
{
    let g = Waiter::<T>::fresh();
    if es.len() > 0 {
        let p = es.drop_last();
        lemma_single_admission(p);
        lemma_run_push(g, p, es.last());
        assert(p.push(es.last()) == es);
    }
}

/// Once denied, a waiter neither checks the limiter again nor completes
/// until the timer reports that it has fired, and its timer keeps the
/// instant it was armed to.
pub proof fn lemma_waits_for_timer<T: Copy>(g: Waiter<T>, es: Seq<Event<T>>)
    requires
        g.wf(),
        g.phase == Phase::AwaitingTimer,
        g.stage == Stage::Idle || g.stage == Stage::TimerPoll,
        g.follows(es),
        forall|i: int| 0 <= i < es.len() ==> !(#[trigger] es[i] is TimerReady),
    ensures
        g.run(es).wf(),
        g.run(es).phase == Phase::AwaitingTimer,
        g.run(es).stage == Stage::Idle || g.run(es).stage == Stage::TimerPoll,
        g.run(es).armed == g.armed,
        g.actions(es).len() == es.len(),
        forall|i: int| 0 <= i < es.len() ==> {
            let n = #[trigger] g.actions(es)[i].next;
            n == Next::PollTimer || n == Next::Pending
        },
    decreases es.len(),
{
    lemma_actions_len(g, es);
    if es.len() > 0 {
        let p = es.drop_last();
        assert forall|i: int| 0 <= i < p.len() implies !(#[trigger] p[i] is TimerReady) by {
            assert(p[i] == es[i]);
        }
        lemma_waits_for_timer(g, p);
        lemma_run_push(g, p, es.last());
        assert(p.push(es.last()) == es);
        assert(!(es[es.len() - 1] is TimerReady));
        assert forall|i: int| 0 <= i < es.len() implies {
            let n = #[trigger] g.actions(es)[i].next;
            n == Next::PollTimer || n == Next::Pending
        } by {
            if i < es.len() - 1 {
                assert(g.actions(es)[i] == g.actions(p)[i]);
            }
        }
    }
}

} // verus!

verus! {

/// A limiter that denies once, reporting the instant `t`, then admits:
/// the first scheduling attempt checks, re-arms the timer to `t` and
/// polls it; whatever attempts follow (`es`), the waiter neither checks nor
/// completes before the timer fires at `t`; the check that follows the
/// timer firing then completes it.
pub proof fn lemma_single_retry<T: Copy>(t: T, es: Seq<Event<T>>)
    requires
        Waiter::<T>::fresh().run(seq![Event::Poll, Event::Denied(t)]).follows(es),
        forall|i: int| 0 <= i < es.len() ==> !(#[trigger] es[i] is TimerReady),
    ensures
        ({
            let first = seq![Event::Poll, Event::Denied(t)];
            let d = Waiter::<T>::fresh().run(first);
            let w = d.run(es);
            &&& Waiter::<T>::fresh().actions(first) == seq![
                act::<T>(None, Next::CheckLimiter),
                act(Some(t), Next::PollTimer),
            ]
            &&& w.armed == Some(t)
            &&& w.phase == Phase::AwaitingTimer
            &&& forall|i: int| 0 <= i < es.len() ==> {
                let n = #[trigger] d.actions(es)[i].next;
                n == Next::PollTimer || n == Next::Pending
            }
            &&& w.stage == Stage::TimerPoll ==> {
                let last = seq![Event::TimerReady, Event::Admitted];
                &&& w.run(last).phase == Phase::Completed
                &&& w.actions(last) == seq![
                    act::<T>(None, Next::CheckLimiter),
                    act::<T>(None, Next::Ready),
                ]
            }
        }),
{
    let g = Waiter::<T>::fresh();
    let first = seq![Event::<T>::Poll, Event::Denied(t)];
    let e0 = Seq::<Event<T>>::empty();
    lemma_run_push(g, e0, Event::Poll);
    assert(e0.push(Event::Poll) == seq![Event::<T>::Poll]);
    lemma_run_push(g, seq![Event::Poll], Event::Denied(t));
    assert(seq![Event::<T>::Poll].push(Event::Denied(t)) == first);
    let d = g.run(first);
    lemma_waits_for_timer(d, es);
    let w = d.run(es);
    if w.stage == Stage::TimerPoll {
        lemma_run_push(w, e0, Event::TimerReady);
        assert(e0.push(Event::TimerReady) == seq![Event::<T>::TimerReady]);
        lemma_run_push(w, seq![Event::TimerReady], Event::Admitted);
        assert(seq![Event::<T>::TimerReady].push(Event::Admitted) == seq![
            Event::<T>::TimerReady,
            Event::Admitted,
        ]);
    }
}

} // verus!
