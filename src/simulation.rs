use crate::automaton::{is_grid, is_rect, shape_of, Automaton, Rule};
use std::sync::mpsc::{Receiver, Sender};
use std::time::Duration;
use vstd::prelude::*;

verus! {

#[verifier::external_type_specification]
#[verifier::external_body]
#[verifier::reject_recursive_types(T)]
pub struct ExSender<T>(std::sync::mpsc::Sender<T>);

#[verifier::external_type_specification]
#[verifier::external_body]
#[verifier::reject_recursive_types(T)]
pub struct ExReceiver<T>(std::sync::mpsc::Receiver<T>);

/// Relies on std::sync::mpsc::channel: a new, connected sender and receiver.
pub assume_specification<T>[ std::sync::mpsc::channel::<T> ]() -> (Sender<T>, Receiver<T>);

/// Relies on std's `Sender::send`; whether the value arrives depends on the receiver
/// still being there, so nothing is promised of the result.
#[verifier::external_body]
fn send_value<T>(s: &Sender<T>, value: T) -> (delivered: bool) {
    s.send(value).is_ok()
}

/// Relies on std's `Receiver::try_recv`: the next pending value, if any, without waiting.
#[verifier::external_body]
fn poll_value<T>(r: &Receiver<T>) -> (v: Option<T>) {
    r.try_recv().ok()
}

/// Relies on std's `Receiver::recv`: waits for the next value; `None` once the sender
/// is gone.
#[verifier::external_body]
fn wait_value<T>(r: &Receiver<T>) -> (v: Option<T>) {
    r.recv().ok()
}

/// The transform from a grid and global state to what observers receive.
pub trait Transform<T, S, U> {
    /// `r` is what this transform makes of `grid` and `global`.
    spec fn applied(&self, grid: Seq<Vec<T>>, global: S, r: U) -> bool;

    fn apply(&self, grid: &Vec<Vec<T>>, global_state: &S) -> (r: U)
        requires
            is_rect(grid@),
        ensures
            self.applied(grid@, *global_state, r),
    ;
}

/// A control command for a running simulation.
pub enum Command {
    Start,
    Stop,
    SingleStep,
    ChangeDelay(Duration),
    Reset(usize, usize),
}

/// A snapshot of a simulation: the transformed grid, the step and whether it runs.
pub struct SimulationState<U> {
    pub data: U,
    pub step: u64,
    pub running: bool,
}

/// One step later, with the counter kept at its maximum once it is there.
pub open spec fn next_step(s: u64) -> u64 {
    if s < u64::MAX {
        (s + 1) as u64
    } else {
        s
    }
}

/// `b` is `a` after one more step of its rule.
pub open spec fn advanced<T, S, R: Rule<T, S>>(a: Automaton<T, S, R>, b: Automaton<T, S, R>) -> bool {
    &&& b.wf()
    &&& shape_of(b.grid()) == shape_of(a.grid())
    &&& b.rule() == a.rule()
    &&& a.rule().successor(a.grid(), a.global(), b.grid(), b.global())
}

/// Runs an automaton, publishing a snapshot after every change on one channel and
/// taking commands from another.
#[verifier::reject_recursive_types(U)]
pub struct Simulation<T, S, U, R: Rule<T, S>, X: Transform<T, S, U>> {
    aut: Automaton<T, S, R>,
    output_send: Sender<SimulationState<U>>,
    command_recv: Receiver<Command>,
    transform: X,
    step: u64,
    running: bool,
    delay: Duration,
    sent: Ghost<Seq<SimulationState<U>>>,
}

impl<T, S, U, R: Rule<T, S>, X: Transform<T, S, U>> Simulation<T, S, U, R, X> {
    pub closed spec fn automaton(&self) -> Automaton<T, S, R> {
        self.aut
    }

    pub closed spec fn transformer(&self) -> X {
        self.transform
    }

    pub closed spec fn step_count(&self) -> u64 {
        self.step
    }

    pub closed spec fn is_running(&self) -> bool {
        self.running
    }

    pub closed spec fn delay_value(&self) -> Duration {
        self.delay
    }

    /// Every snapshot published so far, oldest first.
    pub closed spec fn published(&self) -> Seq<SimulationState<U>> {
        self.sent@
    }

    /// `s` is a snapshot of the current state: its transformed grid and global state,
    /// its step and whether it runs.
    pub open spec fn shows(&self, s: SimulationState<U>) -> bool {
        &&& s.step == self.step_count()
        &&& s.running == self.is_running()
        &&& self.transformer().applied(self.automaton().grid(), self.automaton().global(), s.data)
    }

    /// `next` has published one more snapshot than `self`, one of its own state.
    pub open spec fn published_one(&self, next: Self) -> bool {
        &&& next.published().len() == self.published().len() + 1
        &&& next.published().drop_last() == self.published()
        &&& next.shows(next.published().last())
    }

    pub open spec fn wf(&self) -> bool {
        self.automaton().wf()
    }

    /// `next` differs from `self` only in what is listed.
    pub open spec fn same_but_control(&self, next: Self) -> bool {
        &&& next.automaton() == self.automaton()
        &&& next.transformer() == self.transformer()
        &&& next.published() == self.published()
    }

    /// `next` is `self` after one step that was published.
    pub open spec fn stepped(&self, next: Self) -> bool {
        &&& advanced(self.automaton(), next.automaton())
        &&& next.transformer() == self.transformer()
        &&& next.step_count() == next_step(self.step_count())
        &&& next.is_running() == self.is_running()
        &&& next.delay_value() == self.delay_value()
        &&& self.published_one(next)
    }

    /// `next` is `self` after command `c`.
    pub open spec fn applies(&self, next: Self, c: Command) -> bool {
        match c {
            Command::Start => {
                &&& self.same_but_control(next)
                &&& next.is_running()
                &&& next.step_count() == self.step_count()
                &&& next.delay_value() == self.delay_value()
            },
            Command::Stop => {
                &&& self.same_but_control(next)
                &&& !next.is_running()
                &&& next.step_count() == self.step_count()
                &&& next.delay_value() == self.delay_value()
            },
            Command::SingleStep => if self.is_running() {
                next == *self
            } else {
                self.stepped(next)
            },
            Command::ChangeDelay(d) => {
                &&& self.same_but_control(next)
                &&& next.is_running() == self.is_running()
                &&& next.step_count() == self.step_count()
                &&& next.delay_value() == d
            },
            Command::Reset(h, w) => {
                &&& next.automaton().wf()
                &&& is_grid(next.automaton().grid(), h as nat, w as nat)
                &&& next.automaton().rule() == self.automaton().rule()
                &&& self.automaton().rule().initial(
                    h,
                    w,
                    next.automaton().grid(),
                    next.automaton().global(),
                )
                &&& next.transformer() == self.transformer()
                &&& !next.is_running()
                &&& next.step_count() == 0
                &&& next.delay_value() == self.delay_value()
                &&& self.published_one(next)
            },
        }
    }

    /// `next` is `self` after taking at most one command.
    pub open spec fn received(&self, next: Self) -> bool {
        next == *self || exists|c: Command| self.applies(next, c)
    }

    /// A stopped simulation at step 0 around `aut`, with the receiver of its snapshots
    /// and the sender of its commands.
    pub fn new(aut: Automaton<T, S, R>, transform: X, delay: Duration) -> (r: (
        Simulation<T, S, U, R, X>,
        Receiver<SimulationState<U>>,
        Sender<Command>,
    ))
        ensures
            r.0.automaton() == aut,
            r.0.transformer() == transform,
            r.0.step_count() == 0,
            !r.0.is_running(),
            r.0.delay_value() == delay,
            r.0.published() == Seq::<SimulationState<U>>::empty(),
    {
        let (output_send, output_recv) = std::sync::mpsc::channel();
        let (command_send, command_recv) = std::sync::mpsc::channel();
        (
            Simulation {
                aut,
                output_send,
                command_recv,
                transform,
                step: 0,
                running: false,
                delay,
                sent: Ghost(Seq::empty()),
            },
            output_recv,
            command_send,
        )
    }

    /// A snapshot of the current state.
    pub fn snapshot(&self) -> (r: SimulationState<U>)
        requires
            self.wf(),
        ensures
            self.shows(r),
    {
        let (grid, global_state) = self.aut.state();
        let data = self.transform.apply(grid, global_state);
        SimulationState { data, step: self.step, running: self.running }
    }

    /// Publishes a snapshot of the current state; a receiver that is gone is ignored.
    pub fn send_state(&mut self)
        requires
            old(self).wf(),
        ensures
            final(self).automaton() == old(self).automaton(),
            final(self).transformer() == old(self).transformer(),
            final(self).step_count() == old(self).step_count(),
            final(self).is_running() == old(self).is_running(),
            final(self).delay_value() == old(self).delay_value(),
            old(self).published_one(*final(self)),
    {
        let snapshot = self.snapshot();
        let ghost published = snapshot;
        let _delivered = send_value(&self.output_send, snapshot);
        self.sent = Ghost(self.sent@.push(published));
        assert(self.sent@.drop_last() =~= old(self).sent@);
    }

    /// Advances the automaton by one step and publishes the result.
    pub fn step(&mut self)
        requires
            old(self).wf(),
        ensures
            final(self).wf(),
            old(self).stepped(*final(self)),
    {
        self.aut.next();
        if self.step < u64::MAX {
            self.step = self.step + 1;
        }
        self.send_state();
    }

    /// Applies one command.
    pub fn apply_command(&mut self, c: Command)
        requires
            old(self).wf(),
        ensures
            final(self).wf(),
            old(self).applies(*final(self), c),
    {
        match c {
            Command::Start => self.running = true,
            Command::Stop => self.running = false,
            Command::SingleStep => if !self.running {
                self.step();
            },
            Command::ChangeDelay(d) => self.delay = d,
            Command::Reset(n, m) => {
                self.running = false;
                self.aut.reset(n, m);
                self.step = 0;
                self.send_state();
            },
        }
    }

    /// Takes the next command, if any, and applies it: waits for one while stopped,
    /// and only looks for a pending one while running.
    pub fn recv_command(&mut self)
        requires
            old(self).wf(),
        ensures
            final(self).wf(),
            old(self).received(*final(self)),
    {
        let command = if self.running {
            poll_value(&self.command_recv)
        } else {
            wait_value(&self.command_recv)
        };
        match command {
            Some(c) => self.apply_command(c),
            None => {},
        }
    }

    /// One round of the control loop: takes a command, then, if running, steps. Returns
    /// the delay to wait before the next round when it stepped.
    pub fn tick(&mut self) -> (r: Option<Duration>)
        requires
            old(self).wf(),
        ensures
            final(self).wf(),
            r is Some <==> final(self).is_running(),
            r is Some ==> r->0 == final(self).delay_value(),
            exists|mid: Self|
                {
                    &&& #[trigger] old(self).received(mid)
                    &&& if mid.is_running() {
                        mid.stepped(*final(self))
                    } else {
                        *final(self) == mid
                    }
                },
    {
        self.recv_command();
        let ghost mid = *self;
        assert(old(self).received(mid));
        if self.running {
            self.step();
            Some(self.delay)
        } else {
            None
        }
    }
}

/// A single step asked for while the simulation runs changes nothing: the step counter
/// stays and no snapshot is published.
pub proof fn lemma_single_step_while_running<T, S, U, R: Rule<T, S>, X: Transform<T, S, U>>(
    a: Simulation<T, S, U, R, X>,
    b: Simulation<T, S, U, R, X>,
)
    requires
        a.is_running(),
        a.applies(b, Command::SingleStep),
    ensures
        b == a,
{
}

/// After a reset, whatever the state before, the simulation is stopped at step 0 and the
/// snapshot published last says so.
pub proof fn lemma_reset_stops_at_zero<T, S, U, R: Rule<T, S>, X: Transform<T, S, U>>(
    a: Simulation<T, S, U, R, X>,
    b: Simulation<T, S, U, R, X>,
    h: usize,
    w: usize,
)
    requires
        a.applies(b, Command::Reset(h, w)),
    ensures
        !b.is_running(),
        b.step_count() == 0,
        b.published().len() > 0,
        b.published().last().step == 0,
        !b.published().last().running,
{
}

/// While running, each step raises the step counter by one, below its maximum, keeps the
/// simulation running, and publishes a snapshot that carries the new step.
pub proof fn lemma_running_step_counts_up<T, S, U, R: Rule<T, S>, X: Transform<T, S, U>>(
    a: Simulation<T, S, U, R, X>,
    b: Simulation<T, S, U, R, X>,
)
    requires
        a.is_running(),
        a.stepped(b),
        a.step_count() < u64::MAX,
    ensures
        b.is_running(),
        b.step_count() == a.step_count() + 1,
        b.published().last().step == a.step_count() + 1,
        b.published().last().running,
{
}

} // verus!
