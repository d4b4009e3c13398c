//! The bus step machine.
//!
//! A [`Transfer`] holds a program of [`Instr`]uctions in three sections: a
//! prologue (a failure there ends the transfer at once), a body (a failure there
//! is remembered and the transfer skips to the cleanup) and a cleanup that brings
//! the bus back to idle. Each call of [`Transfer::step`] takes the [`Event`] that
//! answered the last [`Op`] and returns the next one, or the transfer's result.
use vstd::prelude::*;

use crate::TmError;

verus! {

/// A line of the bus.
#[derive(Clone, Copy, Debug, PartialEq, Eq, Structural)]
pub enum Pin {
    Dio,
    Clk,
    Stb,
}

/// One instruction of a transfer program.
#[derive(Clone, Copy, Debug, PartialEq, Eq, Structural)]
pub enum Instr {
    /// Drive a line to a level (`true` is high).
    Drive(Pin, bool),
    /// Wait for one bus delay.
    Pause,
    /// Poll the data line, at most five times with a bus delay after each miss,
    /// until it shows the expected level (`true` is high); else fail with
    /// `TmError::Ack` carrying the code.
    Await(bool, u8),
    /// Sample the data line as bit `k` of a byte, most significant first
    /// (`k == 0` is `0x80`). Bit 7 completes the byte.
    ReadBit(u8),
}

/// A pin operation that the machine asks for.
#[derive(Clone, Copy, Debug, PartialEq, Eq, Structural)]
pub enum Op {
    /// Drive a line to a level (`true` is high).
    Drive(Pin, bool),
    /// Read the level of the data line.
    Sample,
    /// Block for this many microseconds.
    Delay(u16),
}

/// How an operation went.
#[derive(Clone, Copy, Debug, PartialEq, Eq, Structural)]
pub enum Event {
    /// The operation completed (drive or delay).
    Done,
    /// The pin reported an error.
    Failed,
    /// The data line was read at this level (`true` is high).
    Level(bool),
}

/// What the machine hands back on each call.
#[derive(Debug)]
pub enum Step {
    /// Perform this operation and report how it went.
    Act(Op),
    /// The transfer is over: the bytes read, or the error to report.
    Finish(Result<Vec<u8>, TmError>),
}

pub enum StepView {
    Act(Op),
    Finish(Result<Seq<u8>, TmError>),
}

impl View for Step {
    type V = StepView;

    open spec fn view(&self) -> StepView {
        match self {
            Step::Act(op) => StepView::Act(*op),
            Step::Finish(Ok(bytes)) => StepView::Finish(Ok(bytes@)),
            Step::Finish(Err(e)) => StepView::Finish(Err(*e)),
        }
    }
}

/// The abstract state of a [`Transfer`].
pub struct TransferView {
    pub prog: Seq<Instr>,
    /// Index where the body starts (the prologue is before it).
    pub body: nat,
    /// Index where the cleanup starts.
    pub cleanup: nat,
    /// The bus delay in microseconds.
    pub delay: u16,
    /// The instruction being executed.
    pub pc: nat,
    /// Misses so far of the current `Await`.
    pub polls: nat,
    /// Within an `Await`: whether the last operation handed out was a sample
    /// (else it was the delay after a miss).
    pub sampling: bool,
    /// The byte being read, bits so far.
    pub acc: u8,
    /// Bytes read so far.
    pub out: Seq<u8>,
    /// The first error of the body, reported once the cleanup is done.
    pub fault: Option<TmError>,
    /// An operation has been handed out and its event is awaited.
    pub pending: bool,
    /// The result has been handed out.
    pub finished: bool,
}

pub open spec fn instr_ok(i: Instr) -> bool {
    match i {
        Instr::ReadBit(k) => k < 8,
        _ => true,
    }
}

pub open spec fn pin_fault(p: Pin) -> TmError {
    match p {
        Pin::Dio => TmError::Dio,
        Pin::Clk => TmError::Clk,
        Pin::Stb => TmError::Stb,
    }
}

/// The error that is reported when `e` comes after `fault`: the earlier one.
pub open spec fn prior(fault: Option<TmError>, e: TmError) -> TmError {
    match fault {
        Some(f) => f,
        None => e,
    }
}

pub open spec fn outcome(s: TransferView) -> Result<Seq<u8>, TmError> {
    match s.fault {
        Some(e) => Err(e),
        None => Ok(s.out),
    }
}

impl TransferView {
    pub open spec fn wf(self) -> bool {
        &&& self.body <= self.cleanup <= self.prog.len()
        &&& self.pc <= self.prog.len()
        &&& self.polls <= 5
        &&& (self.sampling ==> self.polls < 5)
        &&& forall|j: int| 0 <= j < self.prog.len() ==> instr_ok(#[trigger] self.prog[j])
        &&& (self.pending ==> self.pc < self.prog.len() && !self.finished)
    }
}

/// A transfer of `prog` that has handed out nothing yet.
pub open spec fn initial(prog: Seq<Instr>, body: nat, cleanup: nat, delay: u16, fault: Option<TmError>) -> TransferView {
    TransferView {
        prog,
        body,
        cleanup,
        delay,
        pc: 0,
        polls: 0,
        sampling: false,
        acc: 0,
        out: Seq::empty(),
        fault,
        pending: false,
        finished: false,
    }
}

/// The state once the result is handed out.
pub open spec fn ended(s: TransferView) -> TransferView {
    TransferView { pending: false, finished: true, polls: 0, sampling: false, ..s }
}

/// Hand out the result.
pub open spec fn finish(s: TransferView) -> (TransferView, StepView) {
    (ended(s), StepView::Finish(outcome(s)))
}

/// Start the instruction at `s.pc`, or finish when there is none.
pub open spec fn emit(s: TransferView) -> (TransferView, StepView) {
    if s.pc >= s.prog.len() {
        finish(s)
    } else {
        let t = TransferView { pending: true, polls: 0, sampling: true, ..s };
        match s.prog[s.pc as int] {
            Instr::Drive(p, level) => (t, StepView::Act(Op::Drive(p, level))),
            Instr::Pause => (t, StepView::Act(Op::Delay(s.delay))),
            Instr::Await(_, _) => (t, StepView::Act(Op::Sample)),
            Instr::ReadBit(_) => (t, StepView::Act(Op::Sample)),
        }
    }
}

/// The instruction at `s.pc` failed with `e`.
pub open spec fn fail(s: TransferView, e: TmError) -> (TransferView, StepView) {
    if s.pc < s.body {
        (ended(s), StepView::Finish(Err(e)))
    } else if s.pc < s.cleanup {
        emit(TransferView { pc: s.cleanup, fault: Some(prior(s.fault, e)), ..s })
    } else {
        (ended(s), StepView::Finish(Err(prior(s.fault, e))))
    }
}

/// The byte being read after bit `k` was sampled at `level`.
pub open spec fn with_bit(acc: u8, k: u8, level: bool) -> u8 {
    if level {
        acc | (0x80u8 >> k)
    } else {
        acc
    }
}

/// The instruction at `s.pc` got its event.
pub open spec fn advance(s: TransferView, ev: Event) -> (TransferView, StepView) {
    let next = TransferView { pc: s.pc + 1, ..s };
    match s.prog[s.pc as int] {
        Instr::Drive(p, _) => if ev == Event::Failed {
            fail(s, pin_fault(p))
        } else {
            emit(next)
        },
        Instr::Pause => emit(next),
        Instr::Await(expect, code) => if s.sampling {
            match ev {
                Event::Level(level) => if level == expect {
                    emit(next)
                } else {
                    (
                        TransferView { polls: s.polls + 1, sampling: false, ..s },
                        StepView::Act(Op::Delay(s.delay)),
                    )
                },
                _ => fail(s, TmError::Dio),
            }
        } else if s.polls >= 5 {
            fail(s, TmError::Ack(code))
        } else {
            (TransferView { sampling: true, ..s }, StepView::Act(Op::Sample))
        },
        Instr::ReadBit(k) => match ev {
            Event::Level(level) => {
                let acc = with_bit(s.acc, k, level);
                if k == 7 {
                    emit(TransferView { pc: s.pc + 1, acc: 0, out: s.out.push(acc), ..s })
                } else {
                    emit(TransferView { pc: s.pc + 1, acc, ..s })
                }
            },
            _ => fail(s, TmError::Dio),
        },
    }
}

/// The state after a run of events, each answering the operation before it.
pub open spec fn feed(s: TransferView, evs: Seq<Event>) -> TransferView
    decreases evs.len(),
{
    if evs.len() == 0 || !s.pending {
        s
    } else {
        feed(advance(s, evs[0]).0, evs.drop_first())
    }
}

/// The events that answer the polling for `expect` while the data line shows
/// `levels` on successive samples: each miss is followed by the completion of
/// its delay, and polling stops at the first match.
pub open spec fn poll_events(expect: bool, levels: Seq<bool>) -> Seq<Event>
    decreases levels.len(),
{
    if levels.len() == 0 {
        Seq::empty()
    } else if levels[0] == expect {
        seq![Event::Level(levels[0])]
    } else {
        seq![Event::Level(levels[0]), Event::Done] + poll_events(expect, levels.drop_first())
    }
}

proof fn lemma_await_from(s: TransferView, expect: bool, code: u8, levels: Seq<bool>)
    requires
        s.wf(),
        s.pending,
        s.prog[s.pc as int] == Instr::Await(expect, code),
        s.sampling,
        s.polls + levels.len() == 5,
    ensures
        feed(s, poll_events(expect, levels)) == if exists|k: int|
            0 <= k < levels.len() && levels[k] == expect {
            emit(TransferView { pc: s.pc + 1, ..s }).0
        } else {
            fail(s, TmError::Ack(code)).0
        },
    decreases levels.len(),
{
    let evs = poll_events(expect, levels);
    if levels[0] == expect {
        assert(evs =~= seq![Event::Level(levels[0])]);
        assert(evs.drop_first() =~= Seq::<Event>::empty());
        assert(feed(s, evs) == feed(advance(s, evs[0]).0, evs.drop_first()));
    } else {
        let rest = levels.drop_first();
        let s1 = advance(s, Event::Level(levels[0])).0;
        let s2 = advance(s1, Event::Done).0;
        let tail = seq![Event::Done] + poll_events(expect, rest);
        assert(evs.drop_first() =~= tail);
        assert(tail.drop_first() =~= poll_events(expect, rest));
        assert(feed(s, evs) == feed(s1, tail));
        assert(feed(s1, tail) == feed(s2, poll_events(expect, rest)));
        if s.polls + 1 >= 5 {
            assert(rest.len() == 0);
            assert(!exists|k: int| 0 <= k < levels.len() && levels[k] == expect);
        } else {
            lemma_await_from(s2, expect, code, rest);
            if exists|k: int| 0 <= k < levels.len() && levels[k] == expect {
                let k = choose|k: int| 0 <= k < levels.len() && levels[k] == expect;
                assert(rest[k - 1] == levels[k]);
            }
            if exists|k: int| 0 <= k < rest.len() && rest[k] == expect {
                let k = choose|k: int| 0 <= k < rest.len() && rest[k] == expect;
                assert(levels[k + 1] == rest[k]);
            }
        }
    }
}

/// Polling the data line for an acknowledge level succeeds within five samples
/// exactly when one of the first five sampled levels is the expected one: the
/// machine then goes on with the next instruction. When none of them is, the
/// instruction fails with the acknowledge error that carries its code.
pub proof fn lemma_await_outcome(s: TransferView, expect: bool, code: u8, levels: Seq<bool>)
    requires
        s.wf(),
        s.pending,
        s.prog[s.pc as int] == Instr::Await(expect, code),
        s.sampling,
        s.polls == 0,
        levels.len() == 5,
    ensures
        feed(s, poll_events(expect, levels)) == if exists|k: int|
            0 <= k < 5 && levels[k] == expect {
            emit(TransferView { pc: s.pc + 1, ..s }).0
        } else {
            fail(s, TmError::Ack(code)).0
        },
{
    lemma_await_from(s, expect, code, levels);
}

/// A failure in the body of a transfer does not end it: the machine skips to
/// the cleanup, which brings the bus back to idle, and keeps the first error.
/// When the cleanup fails too, or once it is done, that first error is the
/// result.
pub proof fn lemma_cleanup_after_body_failure(s: TransferView, e: TmError, e2: TmError)
    requires
        s.wf(),
        s.pending,
        s.body <= s.pc < s.cleanup,
        s.fault is None,
    ensures
        fail(s, e).0.pc == s.cleanup || fail(s, e).0.finished,
        fail(s, e).0.fault == Some(e),
        s.cleanup < s.prog.len() ==> fail(s, e).0.pc == s.cleanup && fail(s, e).0.pending,
        s.cleanup == s.prog.len() ==> fail(s, e).1 == StepView::Finish(Err::<Seq<u8>, TmError>(e)),
        fail(s, e).0.pending ==> fail(fail(s, e).0, e2).1 == StepView::Finish(
            Err::<Seq<u8>, TmError>(e),
        ),
{
}

/// The operation that an instruction is handed out as when it starts.
pub open spec fn first_op(i: Instr, delay: u16) -> Op {
    match i {
        Instr::Drive(p, level) => Op::Drive(p, level),
        Instr::Pause => Op::Delay(delay),
        Instr::Await(_, _) => Op::Sample,
        Instr::ReadBit(_) => Op::Sample,
    }
}

/// The operations that a run of instructions is handed out as, answered with
/// `Done` and matching levels.
pub open spec fn wire_ops(prog: Seq<Instr>, delay: u16) -> Seq<Op> {
    prog.map_values(|i: Instr| first_op(i, delay))
}

/// A drive or a pause: an instruction that a `Done` completes.
pub open spec fn is_plain(i: Instr) -> bool {
    i is Drive || i is Pause
}

/// The steps handed out in answer to a run of events.
pub open spec fn replies(s: TransferView, evs: Seq<Event>) -> Seq<StepView>
    decreases evs.len(),
{
    if evs.len() == 0 || !s.pending {
        Seq::empty()
    } else {
        seq![advance(s, evs[0]).1] + replies(advance(s, evs[0]).0, evs.drop_first())
    }
}

/// Answered with `Done` each time, a run of drives and pauses goes out as it
/// stands: after the operation of the instruction at `pc`, the machine hands out
/// those of the next `n` instructions in order, each drive as the same drive and
/// each pause as a delay of the bus delay.
pub proof fn lemma_plain_run(s: TransferView, n: nat)
    requires
        s.wf(),
        s.pending,
        s.pc + n < s.prog.len(),
        forall|j: int| s.pc <= j < s.pc + n ==> is_plain(#[trigger] s.prog[j]),
    ensures
        replies(s, Seq::new(n, |k: int| Event::Done)) == wire_ops(
            s.prog.subrange(s.pc + 1 as int, s.pc + n + 1 as int),
            s.delay,
        ).map_values(|op: Op| StepView::Act(op)),
        n > 0 ==> feed(s, Seq::new(n, |k: int| Event::Done)) == (TransferView {
            pc: s.pc + n,
            polls: 0,
            sampling: true,
            ..s
        }),
    decreases n,
{
    let evs = Seq::new(n, |k: int| Event::Done);
    if n == 0 {
        assert(wire_ops(s.prog.subrange(s.pc + 1 as int, s.pc + 1 as int), s.delay).map_values(
            |op: Op| StepView::Act(op),
        ) =~= Seq::<StepView>::empty());
    } else {
        assert(is_plain(s.prog[s.pc as int]));
        let t = advance(s, Event::Done).0;
        assert(t == TransferView { pc: s.pc + 1, polls: 0, sampling: true, ..s });
        assert(advance(s, Event::Done).1 == StepView::Act(first_op(s.prog[s.pc + 1 as int], s.delay)));
        let rest = Seq::new((n - 1) as nat, |k: int| Event::Done);
        assert(evs.drop_first() =~= rest);
        lemma_plain_run(t, (n - 1) as nat);
        assert(wire_ops(s.prog.subrange(s.pc + 1 as int, s.pc + n + 1 as int), s.delay).map_values(
            |op: Op| StepView::Act(op),
        ) =~= seq![StepView::Act(first_op(s.prog[s.pc + 1 as int], s.delay))] + wire_ops(
            t.prog.subrange(t.pc + 1 as int, t.pc + (n - 1) + 1 as int),
            t.delay,
        ).map_values(|op: Op| StepView::Act(op)));
        if n == 1 {
            assert(rest =~= Seq::<Event>::empty());
        }
    }
}

fn pin_error(p: Pin) -> (e: TmError)
    ensures
        e == pin_fault(p),
{
    match p {
        Pin::Dio => TmError::Dio,
        Pin::Clk => TmError::Clk,
        Pin::Stb => TmError::Stb,
    }
}

/// A running transfer on the bus.
pub struct Transfer {
    prog: Vec<Instr>,
    body: usize,
    cleanup: usize,
    delay: u16,
    pc: usize,
    polls: u8,
    sampling: bool,
    acc: u8,
    out: Vec<u8>,
    fault: Option<TmError>,
    pending: bool,
    finished: bool,
}

impl View for Transfer {
    type V = TransferView;

    closed spec fn view(&self) -> TransferView {
        TransferView {
            prog: self.prog@,
            body: self.body as nat,
            cleanup: self.cleanup as nat,
            delay: self.delay,
            pc: self.pc as nat,
            polls: self.polls as nat,
            sampling: self.sampling,
            acc: self.acc,
            out: self.out@,
            fault: self.fault,
            pending: self.pending,
            finished: self.finished,
        }
    }
}

impl Transfer {
    /// A transfer of `prog`, whose body starts at `body` and cleanup at
    /// `cleanup`, waiting `delay` microseconds per pause. A `fault` given here
    /// is reported unless the prologue fails first.
    pub(crate) fn new(prog: Vec<Instr>, body: usize, cleanup: usize, delay: u16, fault: Option<TmError>) -> (t: Transfer)
        requires
            body <= cleanup <= prog@.len(),
            forall|j: int| 0 <= j < prog@.len() ==> instr_ok(#[trigger] prog@[j]),
        ensures
            t@ == initial(prog@, body as nat, cleanup as nat, delay, fault),
            t@.wf(),
    {
        Transfer {
            prog,
            body,
            cleanup,
            delay,
            pc: 0,
            polls: 0,
            sampling: false,
            acc: 0,
            out: Vec::new(),
            fault,
            pending: false,
            finished: false,
        }
    }

    fn finish(&mut self) -> (r: Step)
        requires
            old(self)@.wf(),
            !old(self)@.pending,
        ensures
            (final(self)@, r@) == finish(old(self)@),
            final(self)@.wf(),
    {
        self.pending = false;
        self.finished = true;
        self.polls = 0;
        self.sampling = false;
        match self.fault {
            Some(e) => Step::Finish(Err(e)),
            None => Step::Finish(Ok(self.out.clone())),
        }
    }

    fn emit(&mut self) -> (r: Step)
        requires
            old(self)@.wf(),
            !old(self)@.pending,
            !old(self)@.finished,
        ensures
            (final(self)@, r@) == emit(old(self)@),
            final(self)@.wf(),
    {
        if self.pc >= self.prog.len() {
            return self.finish();
        }
        self.pending = true;
        self.polls = 0;
        self.sampling = true;
        match self.prog[self.pc] {
            Instr::Drive(p, level) => Step::Act(Op::Drive(p, level)),
            Instr::Pause => Step::Act(Op::Delay(self.delay)),
            Instr::Await(_, _) => Step::Act(Op::Sample),
            Instr::ReadBit(_) => Step::Act(Op::Sample),
        }
    }

    fn fail(&mut self, e: TmError) -> (r: Step)
        requires
            old(self)@.wf(),
            old(self)@.pending,
        ensures
            (final(self)@, r@) == fail(old(self)@, e),
            final(self)@.wf(),
    {
        let first = match self.fault {
            Some(f) => f,
            None => e,
        };
        if self.pc < self.body {
            self.pending = false;
            self.finished = true;
            self.polls = 0;
            self.sampling = false;
            Step::Finish(Err(e))
        } else if self.pc < self.cleanup {
            self.pc = self.cleanup;
            self.fault = Some(first);
            self.pending = false;
            self.emit()
        } else {
            self.pending = false;
            self.finished = true;
            self.polls = 0;
            self.sampling = false;
            Step::Finish(Err(first))
        }
    }

    /// Hands out the first operation, or the result when the program is empty.
    pub fn begin(&mut self) -> (r: Step)
        requires
            old(self)@.wf(),
            !old(self)@.pending,
            !old(self)@.finished,
        ensures
            (final(self)@, r@) == emit(old(self)@),
            final(self)@.wf(),
    {
        self.emit()
    }

    /// Takes the event that answered the last operation, and hands out the next
    /// operation or the result.
    pub fn step(&mut self, ev: Event) -> (r: Step)
        requires
            old(self)@.wf(),
            old(self)@.pending,
        ensures
            (final(self)@, r@) == advance(old(self)@, ev),
            final(self)@.wf(),
    {
        let n = self.prog.len();
        assert(self.pc < n);
        match self.prog[self.pc] {
            Instr::Drive(p, _) => {
                if ev == Event::Failed {
                    self.fail(pin_error(p))
                } else {
                    self.pc = self.pc + 1;
                    self.pending = false;
                    self.emit()
                }
            },
            Instr::Pause => {
                self.pc = self.pc + 1;
                self.pending = false;
                self.emit()
            },
            Instr::Await(expect, code) => {
                if self.sampling {
                    match ev {
                        Event::Level(level) => {
                            if level == expect {
                                self.pc = self.pc + 1;
                                self.pending = false;
                                self.emit()
                            } else {
                                self.polls = self.polls + 1;
                                self.sampling = false;
                                Step::Act(Op::Delay(self.delay))
                            }
                        },
                        _ => self.fail(TmError::Dio),
                    }
                } else if self.polls >= 5 {
                    self.fail(TmError::Ack(code))
                } else {
                    self.sampling = true;
                    Step::Act(Op::Sample)
                }
            },
            Instr::ReadBit(k) => {
                match ev {
                    Event::Level(level) => {
                        let acc = if level {
                            self.acc | (0x80u8 >> k)
                        } else {
                            self.acc
                        };
                        self.pc = self.pc + 1;
                        self.pending = false;
                        if k == 7 {
                            self.out.push(acc);
                            self.acc = 0;
                        } else {
                            self.acc = acc;
                        }
                        self.emit()
                    },
                    _ => self.fail(TmError::Dio),
                }
            },
        }
    }

    /// Whether the result has been handed out.
    pub fn is_finished(&self) -> (r: bool)
        ensures
            r == self@.finished,
    {
        self.finished
    }
}

} // verus!
