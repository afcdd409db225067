//! The decisions of the batch renderer. The caller runs the loop: it performs
//! each action that `step` returns and reports what happened as the next
//! event. Interrupts arrive on another context, which asks
//! `interrupt_response` whether to collect more demos or to exit.
use vstd::prelude::*;
use crate::cmd::{indented, CommandLine, Line};
use crate::error::Error;
use crate::job::Job;

verus! {

/// Where the scheduler stands.
#[derive(Debug, Clone, Copy, PartialEq, Eq, Structural)]
pub enum Phase {
    /// Not started.
    Idle,
    /// The first job waits for the operator to confirm the batch.
    AwaitingFirstConfirmation,
    /// A job's process is running.
    Running,
    /// The pause between two jobs; an interrupt here adds demos.
    CooldownWindow,
    /// An interrupt came during the pause; the handler collects demos.
    AwaitingExtraDemos,
    /// Every job ran, or the batch failed.
    Drained,
}

/// What the caller reports to the scheduler.
pub enum Event {
    /// Begin the batch.
    Start,
    /// The operator confirmed the first job.
    Confirmed,
    /// The running job's process exited.
    ProcessExited,
    /// The pause elapsed; whether the interrupt handler was then collecting
    /// demos.
    CooldownElapsed(bool),
    /// The interrupt handler signalled that it is done.
    Resumed,
    /// What the interrupt handler sent over the job channel, drained.
    Handoff(Vec<Result<Job, Error>>),
}

/// What the caller does next.
pub enum Action {
    /// Show the command line and wait for the operator; the flag says
    /// whether more jobs follow.
    Confirm(CommandLine, bool),
    /// Run this command line and wait for it to exit.
    Launch(CommandLine),
    /// Sleep through the pause between jobs.
    Sleep,
    /// Wait for the interrupt handler's resume signal.
    AwaitResume,
    /// Drain the job channel without blocking and report it as a handoff.
    Drain,
    /// The batch is done.
    Finish,
    /// The batch stops with this error.
    Fail(Error),
    /// The event does not apply in the current phase; nothing changed.
    Ignore,
}

/// How an interrupt is handled.
#[derive(Debug, Clone, Copy, PartialEq, Eq, Structural)]
pub enum InterruptResponse {
    /// Exit the program at once.
    Terminate,
    /// Pause and ask the operator for more demos.
    CollectExtraDemos,
}

/// Holds the queue of jobs still to run and the phase of the batch.
pub struct Scheduler {
    base: CommandLine,
    queue: Vec<Job>,
    current: Option<Job>,
    phase: Phase,
    cancellable: bool,
}

/// The command line that runs `j`: the base lines, then the demo to play
/// and the video to dump.
pub open spec fn render_view(base: Seq<Seq<Seq<char>>>, j: Job) -> Seq<Seq<Seq<char>>> {
    base + seq![
        seq![indented("-timedemo"@, 1)],
        seq![indented(j.source@, 2)],
        seq![indented("-viddump"@, 1)],
        seq![indented(j.destination@, 2)],
    ]
}

pub open spec fn interrupt_response_spec(cancellable: bool) -> InterruptResponse {
    if cancellable {
        InterruptResponse::CollectExtraDemos
    } else {
        InterruptResponse::Terminate
    }
}

pub open spec fn all_ok(items: Seq<Result<Job, Error>>) -> bool {
    forall|i: int| 0 <= i < items.len() ==> (#[trigger] items[i]) is Ok
}

pub open spec fn ok_jobs(items: Seq<Result<Job, Error>>) -> Seq<Job> {
    items.map_values(|r: Result<Job, Error>| r->Ok_0)
}

/// `k` is the first position of `items` that holds an error.
pub open spec fn first_error_at(items: Seq<Result<Job, Error>>, k: int) -> bool {
    &&& 0 <= k < items.len()
    &&& items[k] is Err
    &&& forall|i: int| 0 <= i < k ==> (#[trigger] items[i]) is Ok
}

/// Whether an interrupt is taken as a request to add demos (while
/// `cancellable`) or as a request to exit.
pub fn interrupt_response(cancellable: bool) -> (r: InterruptResponse)
    ensures
        r == interrupt_response_spec(cancellable),
{
    if cancellable {
        InterruptResponse::CollectExtraDemos
    } else {
        InterruptResponse::Terminate
    }
}

/// The command line that runs `job`: a copy of `base` with the demo to play
/// and the video to dump appended.
pub fn render_command(base: &CommandLine, job: &Job) -> (r: CommandLine)
    ensures
        r@ == render_view(base@, *job),
{
    let mut c = base.duplicate();
    c.push_line(Line::from_word("-timedemo", 1));
    c.push_line(Line::from_word(job.source.as_str(), 2));
    c.push_line(Line::from_word("-viddump", 1));
    c.push_line(Line::from_word(job.destination.as_str(), 2));
    assert(c@ =~= render_view(base@, *job));
    c
}

impl Scheduler {
    pub closed spec fn spec_base(&self) -> Seq<Seq<Seq<char>>> {
        self.base@
    }

    pub closed spec fn spec_queue(&self) -> Seq<Job> {
        self.queue@
    }

    pub closed spec fn spec_current(&self) -> Option<Job> {
        self.current
    }

    pub closed spec fn spec_phase(&self) -> Phase {
        self.phase
    }

    pub closed spec fn spec_cancellable(&self) -> bool {
        self.cancellable
    }

    /// A job is held exactly while it waits for confirmation or runs; an
    /// interrupt adds demos only during the pause or while they are being
    /// collected; the pause is only taken when jobs remain.
    pub closed spec fn wf(&self) -> bool {
        &&& (self.current is Some <==> (self.phase == Phase::AwaitingFirstConfirmation || self.phase
            == Phase::Running))
        &&& (self.cancellable ==> (self.phase == Phase::CooldownWindow || self.phase
            == Phase::AwaitingExtraDemos))
        &&& (self.phase == Phase::AwaitingExtraDemos ==> self.cancellable)
        &&& ((self.phase == Phase::CooldownWindow || self.phase == Phase::AwaitingExtraDemos)
            ==> self.queue@.len() > 0)
    }

    /// A scheduler for `jobs`, in order, each run with `base` and the job's
    /// own flags.
    pub fn new(base: CommandLine, jobs: Vec<Job>) -> (r: Scheduler)
        ensures
            r.wf(),
            r.spec_base() == base@,
            r.spec_queue() == jobs@,
            r.spec_current() is None,
            r.spec_phase() == Phase::Idle,
            !r.spec_cancellable(),
    {
        Scheduler { base, queue: jobs, current: None, phase: Phase::Idle, cancellable: false }
    }

    /// The current phase.
    pub fn phase(&self) -> (r: Phase)
        ensures
            r == self.spec_phase(),
    {
        self.phase
    }

    /// Whether an interrupt now adds demos rather than ending the program.
    pub fn cancellable(&self) -> (r: bool)
        ensures
            r == self.spec_cancellable(),
    {
        self.cancellable
    }

    /// The jobs still waiting, in the order they will run.
    pub fn queue(&self) -> (r: &Vec<Job>)
        ensures
            r@ == self.spec_queue(),
    {
        &self.queue
    }

    /// The job that waits for confirmation or runs, if any.
    pub fn current(&self) -> (r: Option<&Job>)
        ensures
            match r {
                Some(j) => self.spec_current() == Some(*j),
                None => self.spec_current() is None,
            },
    {
        match &self.current {
            Some(j) => Some(j),
            None => None,
        }
    }

    /// Takes the handoff's jobs onto the end of the queue, in order.
    fn enqueue_all(&mut self, items: Vec<Result<Job, Error>>)
        requires
            all_ok(items@),
        ensures
            final(self).queue@ == old(self).queue@ + ok_jobs(items@),
            final(self).base == old(self).base,
            final(self).current == old(self).current,
            final(self).phase == old(self).phase,
            final(self).cancellable == old(self).cancellable,
    {
        let mut items = items;
        let ghost orig = items@;
        let ghost start = self.queue@;
        let ghost mut taken: int = 0;
        while items.len() > 0
            invariant
                0 <= taken <= orig.len(),
                items@ == orig.subrange(taken, orig.len() as int),
                self.queue@ == start + ok_jobs(orig.subrange(0, taken)),
                all_ok(orig),
                self.base == old(self).base,
                self.current == old(self).current,
                self.phase == old(self).phase,
                self.cancellable == old(self).cancellable,
            decreases items@.len(),
        {
            let item = items.remove(0);
            assert(orig[taken] == item);
            assert(orig[taken] is Ok);
            match item {
                Ok(j) => {
                    self.queue.push(j);
                },
                Err(_) => {},
            }
            proof {
                assert(ok_jobs(orig.subrange(0, taken + 1)) =~= ok_jobs(orig.subrange(0, taken)).push(
                    orig[taken]->Ok_0,
                ));
                taken = taken + 1;
            }
            assert(items@ =~= orig.subrange(taken, orig.len() as int));
        }
        assert(orig.subrange(0, taken) =~= orig);
    }

    /// Advances the batch by one event and says what the caller does next.
    /// An event that does not apply in the current phase changes nothing.
    pub fn step(&mut self, event: Event) -> (r: Action)
        requires
            old(self).wf(),
        ensures
            final(self).wf(),
            final(self).spec_base() == old(self).spec_base(),
            match event {
                Event::Start => if old(self).spec_phase() != Phase::Idle {
                    r is Ignore && *final(self) == *old(self)
                } else if old(self).spec_queue().len() == 0 {
                    &&& r is Finish
                    &&& final(self).spec_phase() == Phase::Drained
                    &&& final(self).spec_queue() == old(self).spec_queue()
                    &&& !final(self).spec_cancellable()
                } else {
                    &&& r is Confirm
                    &&& r->Confirm_0@ == render_view(old(self).spec_base(), old(self).spec_queue()[0])
                    &&& r->Confirm_1 == (old(self).spec_queue().len() > 1)
                    &&& final(self).spec_phase() == Phase::AwaitingFirstConfirmation
                    &&& final(self).spec_current() == Some(old(self).spec_queue()[0])
                    &&& final(self).spec_queue() == old(self).spec_queue().drop_first()
                    &&& !final(self).spec_cancellable()
                },
                Event::Confirmed => if old(self).spec_phase() != Phase::AwaitingFirstConfirmation {
                    r is Ignore && *final(self) == *old(self)
                } else {
                    &&& r is Launch
                    &&& r->Launch_0@ == render_view(old(self).spec_base(), old(self).spec_current()->Some_0)
                    &&& final(self).spec_phase() == Phase::Running
                    &&& final(self).spec_current() == old(self).spec_current()
                    &&& final(self).spec_queue() == old(self).spec_queue()
                    &&& !final(self).spec_cancellable()
                },
                Event::ProcessExited => if old(self).spec_phase() != Phase::Running {
                    r is Ignore && *final(self) == *old(self)
                } else if old(self).spec_queue().len() == 0 {
                    &&& r is Finish
                    &&& final(self).spec_phase() == Phase::Drained
                    &&& final(self).spec_current() is None
                    &&& final(self).spec_queue() == old(self).spec_queue()
                    &&& !final(self).spec_cancellable()
                } else {
                    &&& r is Sleep
                    &&& final(self).spec_phase() == Phase::CooldownWindow
                    &&& final(self).spec_current() is None
                    &&& final(self).spec_queue() == old(self).spec_queue()
                    &&& final(self).spec_cancellable()
                },
                Event::CooldownElapsed(paused) => if !(old(self).spec_phase() == Phase::CooldownWindow
                    && old(self).spec_cancellable()) {
                    r is Ignore && *final(self) == *old(self)
                } else if paused {
                    &&& r is AwaitResume
                    &&& final(self).spec_phase() == Phase::AwaitingExtraDemos
                    &&& final(self).spec_queue() == old(self).spec_queue()
                    &&& final(self).spec_cancellable()
                } else {
                    &&& r is Drain
                    &&& final(self).spec_phase() == Phase::CooldownWindow
                    &&& final(self).spec_queue() == old(self).spec_queue()
                    &&& !final(self).spec_cancellable()
                },
                Event::Resumed => if old(self).spec_phase() != Phase::AwaitingExtraDemos {
                    r is Ignore && *final(self) == *old(self)
                } else {
                    &&& r is Drain
                    &&& final(self).spec_phase() == Phase::CooldownWindow
                    &&& final(self).spec_queue() == old(self).spec_queue()
                    &&& !final(self).spec_cancellable()
                },
                Event::Handoff(items) => if !(old(self).spec_phase() == Phase::CooldownWindow
                    && !old(self).spec_cancellable()) {
                    r is Ignore && *final(self) == *old(self)
                } else if all_ok(items@) {
                    let q = old(self).spec_queue() + ok_jobs(items@);
                    &&& r is Launch
                    &&& r->Launch_0@ == render_view(old(self).spec_base(), q[0])
                    &&& final(self).spec_phase() == Phase::Running
                    &&& final(self).spec_current() == Some(q[0])
                    &&& final(self).spec_queue() == q.drop_first()
                    &&& !final(self).spec_cancellable()
                } else {
                    &&& r is Fail
                    &&& exists|k: int| first_error_at(items@, k) && r->Fail_0 == items@[k]->Err_0
                    &&& final(self).spec_phase() == Phase::Drained
                    &&& final(self).spec_current() is None
                    &&& !final(self).spec_cancellable()
                },
            },
    {
        match event {
            Event::Start => {
                if self.phase != Phase::Idle {
                    return Action::Ignore;
                }
                if self.queue.len() == 0 {
                    self.phase = Phase::Drained;
                    return Action::Finish;
                }
                let job = self.queue.remove(0);
                let command = render_command(&self.base, &job);
                let more = self.queue.len() > 0;
                self.current = Some(job);
                self.phase = Phase::AwaitingFirstConfirmation;
                Action::Confirm(command, more)
            },
            Event::Confirmed => {
                if self.phase != Phase::AwaitingFirstConfirmation {
                    return Action::Ignore;
                }
                match &self.current {
                    Some(job) => {
                        let command = render_command(&self.base, job);
                        self.phase = Phase::Running;
                        Action::Launch(command)
                    },
                    None => Action::Ignore,
                }
            },
            Event::ProcessExited => {
                if self.phase != Phase::Running {
                    return Action::Ignore;
                }
                self.current = None;
                if self.queue.len() == 0 {
                    self.phase = Phase::Drained;
                    Action::Finish
                } else {
                    self.phase = Phase::CooldownWindow;
                    self.cancellable = true;
                    Action::Sleep
                }
            },
            Event::CooldownElapsed(paused) => {
                if !(self.phase == Phase::CooldownWindow && self.cancellable) {
                    return Action::Ignore;
                }
                if paused {
                    self.phase = Phase::AwaitingExtraDemos;
                    Action::AwaitResume
                } else {
                    self.cancellable = false;
                    Action::Drain
                }
            },
            Event::Resumed => {
                if self.phase != Phase::AwaitingExtraDemos {
                    return Action::Ignore;
                }
                self.phase = Phase::CooldownWindow;
                self.cancellable = false;
                Action::Drain
            },
            Event::Handoff(items) => {
                if !(self.phase == Phase::CooldownWindow && !self.cancellable) {
                    return Action::Ignore;
                }
                let mut items = items;
                let ghost orig = items@;
                let mut k: usize = 0;
                while k < items.len() && items[k].is_ok()
                    invariant
                        items@ == orig,
                        k <= items@.len(),
                        forall|i: int| 0 <= i < k ==> (#[trigger] items@[i]) is Ok,
                    decreases items@.len() - k,
                {
                    k = k + 1;
                }
                if k < items.len() {
                    assert(first_error_at(orig, k as int));
                    let failed = items.remove(k);
                    self.phase = Phase::Drained;
                    self.current = None;
                    self.cancellable = false;
                    match failed {
                        Err(e) => Action::Fail(e),
                        Ok(_) => Action::Ignore,
                    }
                } else {
                    self.enqueue_all(items);
                    let job = self.queue.remove(0);
                    let command = render_command(&self.base, &job);
                    self.current = Some(job);
                    self.phase = Phase::Running;
                    Action::Launch(command)
                }
            },
        }
    }

    /// How an interrupt is handled now.
    pub fn on_interrupt(&self) -> (r: InterruptResponse)
        ensures
            r == interrupt_response_spec(self.spec_cancellable()),
    {
        interrupt_response(self.cancellable)
    }
}

} // verus!
