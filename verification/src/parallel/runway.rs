//! How far each file's reader may run ahead of the dispatcher.
//!
//! The ledger is in bytes. There are two pools. The runway is what the reader
//! of a later file may hold, and it all goes to the one file the dispatcher
//! will reach next. The dispatch reserve is what the reader of the file being
//! dispatched may hold; that reader never waits on the runway, because then
//! the dispatcher could be waiting on a reader that waits on the dispatcher.
//! A caller of an untouched pool is admitted whatever it asks for, and takes
//! only what was there.
use vstd::prelude::*;

verus! {

/// How far the readers of later files may run ahead, in bytes.
pub const READ_AHEAD_BYTES: usize = 50_331_648;

/// How far the reader of the file being dispatched may run ahead, in bytes.
pub const DISPATCH_RESERVE_BYTES: usize = 8_388_608;

/// What a request to hand one more batch to the dispatcher is answered.
#[derive(Debug, Clone, Copy, PartialEq, Eq, Structural)]
pub enum Admission {
    /// The batch may go, and has been charged.
    Admitted,
    /// There is no room: ask again once the ledger has changed.
    Wait,
    /// The run is over and the reader must stop.
    Canceled,
}

/// The permit ledger.
#[derive(Debug)]
pub struct Runway {
    free: usize,
    reserve: usize,
    current: usize,
    held: Vec<usize>,
    finished: Vec<bool>,
    canceled: bool,
}

/// What the ledger says.
pub ghost struct Ledger {
    /// Bytes of the runway nobody holds.
    pub free: nat,
    /// Bytes of the dispatch reserve nobody holds.
    pub reserve: nat,
    /// The file the dispatcher is releasing.
    pub current: nat,
    /// Bytes of the runway held per file.
    pub held: Seq<usize>,
    /// Which files have been read to their end.
    pub finished: Seq<bool>,
    /// Whether the run is over.
    pub canceled: bool,
}

/// Sum of what the files hold.
pub open spec fn sum(held: Seq<usize>) -> nat
    decreases held.len(),
{
    if held.len() == 0 {
        0
    } else {
        sum(held.drop_last()) + held.last() as nat
    }
}

/// One entry is no more than the sum, and changing it moves the sum by the
/// change.
pub(crate) proof fn sum_update(held: Seq<usize>, i: int, v: usize)
    requires
        0 <= i < held.len(),
    ensures
        held[i] <= sum(held),
        sum(held.update(i, v)) == sum(held) - held[i] + v,
    decreases held.len(),
{
    let last = held.len() - 1;
    if i == last {
        assert(held.update(i, v).drop_last() =~= held.drop_last());
    } else {
        assert(held.update(i, v).drop_last() =~= held.drop_last().update(i, v));
        sum_update(held.drop_last(), i, v);
    }
}

/// Zeros sum to zero.
proof fn sum_zeros(held: Seq<usize>)
    requires
        forall|i: int| 0 <= i < held.len() ==> held[i] == 0,
    ensures
        sum(held) == 0,
    decreases held.len(),
{
    if held.len() > 0 {
        sum_zeros(held.drop_last());
    }
}

/// The nearest file from `file` on that has not been read to its end; the
/// count of files where there is none.
pub open spec fn next_unfinished(finished: Seq<bool>, file: nat) -> nat
    decreases finished.len() - file,
{
    if file < finished.len() && finished[file as int] {
        next_unfinished(finished, file + 1)
    } else {
        file
    }
}

/// The smaller of two numbers.
pub open spec fn least(a: nat, b: nat) -> nat {
    if a <= b {
        a
    } else {
        b
    }
}

impl Ledger {
    /// The one file entitled to spend the runway: the nearest one after the
    /// dispatch point that has not finished reading.
    pub open spec fn claimant(self) -> nat {
        next_unfinished(self.finished, self.current + 1)
    }

    /// Bytes of the runway altogether, lent or not.
    pub open spec fn runway_total(self) -> nat {
        self.free + sum(self.held)
    }

    /// Whether the ledger is one that a run can be in.
    pub open spec fn valid(self) -> bool {
        &&& self.held.len() == self.finished.len()
        &&& self.held.len() < usize::MAX
        &&& self.current < self.held.len() || self.current == 0
        &&& self.reserve <= DISPATCH_RESERVE_BYTES
        &&& self.runway_total() <= usize::MAX
    }

    /// Whether a file draws on the dispatch reserve.
    pub open spec fn draws_on_reserve(self, file: nat) -> bool {
        file <= self.current
    }

    /// Whether a batch of `charge` bytes of `file` may go now.
    pub open spec fn admits(self, file: nat, charge: nat) -> bool {
        if self.draws_on_reserve(file) {
            self.reserve >= charge || self.reserve == DISPATCH_RESERVE_BYTES
        } else {
            self.claimant() == file && (self.free >= charge || self.held[file as int] == 0)
        }
    }

    /// What a request is answered.
    pub open spec fn answer(self, file: nat, charge: nat) -> Admission {
        if self.canceled {
            Admission::Canceled
        } else if self.admits(file, charge) {
            Admission::Admitted
        } else {
            Admission::Wait
        }
    }

    /// The ledger after a batch was let through: what is taken is what was
    /// there, never more than was asked for.
    pub open spec fn charged(self, file: nat, charge: nat) -> Ledger {
        if self.draws_on_reserve(file) {
            Ledger { reserve: (self.reserve - least(charge, self.reserve)) as nat, ..self }
        } else {
            let taken = least(charge, self.free);
            Ledger {
                free: (self.free - taken) as nat,
                held: self.held.update(file as int, (self.held[file as int] + taken) as usize),
                ..self
            }
        }
    }

    /// The ledger after a forwarded batch gave its bytes back.
    pub open spec fn released(self, charge: nat) -> Ledger {
        Ledger { reserve: least(self.reserve + charge, DISPATCH_RESERVE_BYTES as nat), ..self }
    }

    /// The ledger once the dispatcher has reached `file`.
    pub open spec fn advanced(self, file: nat) -> Ledger {
        Ledger {
            current: file,
            free: self.free + self.held[file as int] as nat,
            held: self.held.update(file as int, 0),
            ..self
        }
    }
}

impl View for Runway {
    type V = Ledger;

    closed spec fn view(&self) -> Ledger {
        Ledger {
            free: self.free as nat,
            reserve: self.reserve as nat,
            current: self.current as nat,
            held: self.held@,
            finished: self.finished@,
            canceled: self.canceled,
        }
    }
}

impl Runway {
    /// A ledger for `files` files and `budget` bytes of read-ahead, its
    /// dispatch reserve whole.
    pub fn new(files: usize, budget: usize) -> (r: Self)
        requires
            files < usize::MAX,
        ensures
            r@.valid(),
            r@.free == budget,
            r@.reserve == DISPATCH_RESERVE_BYTES,
            r@.current == 0,
            r@.held == Seq::new(files as nat, |i: int| 0usize),
            r@.finished == Seq::new(files as nat, |i: int| false),
            !r@.canceled,
            r@.runway_total() == budget,
    {
        let mut held: Vec<usize> = Vec::new();
        let mut finished: Vec<bool> = Vec::new();
        let mut i: usize = 0;
        while i < files
            invariant
                i <= files,
                held@ =~= Seq::new(i as nat, |i: int| 0usize),
                finished@ =~= Seq::new(i as nat, |i: int| false),
            decreases files - i,
        {
            held.push(0);
            finished.push(false);
            i += 1;
        }
        proof {
            sum_zeros(held@);
        }
        Runway {
            free: budget,
            reserve: DISPATCH_RESERVE_BYTES,
            current: 0,
            held,
            finished,
            canceled: false,
        }
    }

    /// The one file entitled to spend the runway.
    pub fn claimant(&self) -> (r: usize)
        requires
            self@.valid(),
        ensures
            r == self@.claimant(),
    {
        let mut file: usize = self.current + 1;
        while file < self.finished.len() && self.finished[file]
            invariant
                self@.valid(),
                next_unfinished(self.finished@, file as nat) == self@.claimant(),
                file <= self.finished.len() || file == self.current + 1,
            decreases self.finished.len() - file,
        {
            file += 1;
        }
        file
    }

    /// Ask to hand one more batch of `file`, costing `charge` bytes, to the
    /// dispatcher.
    ///
    /// A batch larger than the pool it draws on is still admitted, once that
    /// pool is otherwise untouched: its packets are read already and no
    /// smaller batch is coming. It takes what was there, not what it asked
    /// for, so that the pool never gives back more than it lent.
    pub fn acquire(&mut self, file: usize, charge: usize) -> (r: Admission)
        requires
            old(self)@.valid(),
            file < old(self)@.held.len(),
        ensures
            r == old(self)@.answer(file as nat, charge as nat),
            final(self)@ == if r == Admission::Admitted {
                old(self)@.charged(file as nat, charge as nat)
            } else {
                old(self)@
            },
            final(self)@.valid(),
            final(self)@.runway_total() == old(self)@.runway_total(),
    {
        if self.canceled {
            return Admission::Canceled;
        }
        if file <= self.current {
            if self.reserve >= charge || self.reserve == DISPATCH_RESERVE_BYTES {
                let taken: usize = if charge <= self.reserve {
                    charge
                } else {
                    self.reserve
                };
                self.reserve -= taken;
                return Admission::Admitted;
            }
        } else if self.claimant() == file && (self.free >= charge || self.held[file] == 0) {
            let taken: usize = if charge <= self.free {
                charge
            } else {
                self.free
            };
            let before: usize = self.held[file];
            proof {
                sum_update(self.held@, file as int, before);
            }
            assert(before + taken <= usize::MAX);
            proof {
                sum_update(self.held@, file as int, (before + taken) as usize);
            }
            self.free -= taken;
            self.held.set(file, before + taken);
            return Admission::Admitted;
        }
        Admission::Wait
    }

    /// Give back what a forwarded batch was holding: always to the reserve,
    /// whichever pool paid, and never past the whole of it.
    pub fn release(&mut self, charge: usize)
        requires
            old(self)@.valid(),
        ensures
            final(self)@ == old(self)@.released(charge as nat),
            final(self)@.valid(),
            final(self)@.runway_total() == old(self)@.runway_total(),
    {
        if charge >= DISPATCH_RESERVE_BYTES - self.reserve {
            self.reserve = DISPATCH_RESERVE_BYTES;
        } else {
            self.reserve += charge;
        }
    }

    /// Bytes of the dispatch reserve nobody holds.
    pub fn reserve_free(&self) -> (r: usize)
        ensures
            r == self@.reserve,
    {
        self.reserve
    }

    /// Whether the run is over.
    pub fn canceled(&self) -> (r: bool)
        ensures
            r == self@.canceled,
    {
        self.canceled
    }

    /// Move the dispatch point to `file`, giving back everything that file's
    /// reader was holding of the runway.
    pub fn advance(&mut self, file: usize)
        requires
            old(self)@.valid(),
            file < old(self)@.held.len(),
        ensures
            final(self)@ == old(self)@.advanced(file as nat),
            final(self)@.valid(),
            final(self)@.runway_total() == old(self)@.runway_total(),
    {
        proof {
            sum_update(self.held@, file as int, 0);
        }
        self.current = file;
        self.free += self.held[file];
        self.held.set(file, 0);
    }

    /// Record that a file has been read to its end, passing the claim on the
    /// runway to the next unfinished file.
    pub fn retire(&mut self, file: usize)
        requires
            old(self)@.valid(),
            file < old(self)@.finished.len(),
        ensures
            final(self)@ == (Ledger {
                finished: old(self)@.finished.update(file as int, true),
                ..old(self)@
            }),
            final(self)@.valid(),
            final(self)@.runway_total() == old(self)@.runway_total(),
    {
        self.finished.set(file, true);
    }

    /// End the run: every reader that asks from now on is told to stop.
    pub fn cancel(&mut self)
        ensures
            final(self)@ == (Ledger { canceled: true, ..old(self)@ }),
            old(self)@.valid() ==> final(self)@.valid(),
    {
        self.canceled = true;
    }
}

/// The nearest unfinished file is unfinished, and every one between is not.
pub proof fn next_unfinished_is(finished: Seq<bool>, file: nat)
    requires
        file <= finished.len(),
    ensures
        ({
            let next = next_unfinished(finished, file);
            &&& file <= next <= finished.len()
            &&& next < finished.len() ==> !finished[next as int]
            &&& forall|i: int| file <= i < next ==> finished[i]
        }),
    decreases finished.len() - file,
{
    if file < finished.len() && finished[file as int] {
        next_unfinished_is(finished, file + 1);
    }
}

/// The runway is never shared: at most one later file may spend it.
pub proof fn one_claimant_at_a_time(l: Ledger, a: nat, b: nat, x: nat, y: nat)
    requires
        l.current < a,
        l.current < b,
        l.answer(a, x) == Admission::Admitted,
        l.answer(b, y) == Admission::Admitted,
    ensures
        a == b,
{
}

/// The reader of the file being dispatched never waits on the runway: however
/// little of it is left, an untouched reserve admits any batch.
pub proof fn the_dispatched_reader_never_waits_on_the_runway(l: Ledger, charge: nat, free: nat)
    requires
        !l.canceled,
        l.reserve == DISPATCH_RESERVE_BYTES,
    ensures
        (Ledger { free, ..l }).answer(l.current, charge) == Admission::Admitted,
{
}

/// The file next in line is admitted while it holds nothing, so the run always
/// has a reader that can go on.
pub proof fn the_next_in_line_is_admitted_while_it_holds_nothing(l: Ledger, charge: nat)
    requires
        l.valid(),
        !l.canceled,
        l.current < l.claimant() < l.held.len(),
        l.held[l.claimant() as int] == 0,
    ensures
        l.answer(l.claimant(), charge) == Admission::Admitted,
{
}

/// One step of a run, as the ledger sees it.
pub ghost enum Step {
    /// A reader asks to hand over a batch of this file, of this many bytes.
    Ask(nat, nat),
    /// The dispatcher has forwarded a batch of this many bytes.
    Forward(nat),
    /// The dispatcher has reached this file.
    Advance(nat),
    /// This file has been read to its end.
    Retire(nat),
}

impl Ledger {
    /// The ledger after one step.
    pub open spec fn stepped(self, step: Step) -> Ledger {
        match step {
            Step::Ask(file, charge) => if self.answer(file, charge) == Admission::Admitted {
                self.charged(file, charge)
            } else {
                self
            },
            Step::Forward(charge) => self.released(charge),
            Step::Advance(file) => self.advanced(file),
            Step::Retire(file) => Ledger {
                finished: self.finished.update(file as int, true),
                ..self
            },
        }
    }

    /// The ledger after a run of steps.
    pub open spec fn after(self, steps: Seq<Step>) -> Ledger
        decreases steps.len(),
    {
        if steps.len() == 0 {
            self
        } else {
            self.after(steps.drop_last()).stepped(steps.last())
        }
    }

    /// Bytes of batches that were admitted and not yet forwarded after a run
    /// of steps, whichever pool paid for them.
    pub open spec fn in_flight(self, steps: Seq<Step>) -> int
        decreases steps.len(),
    {
        if steps.len() == 0 {
            0
        } else {
            let before = self.in_flight(steps.drop_last());
            match steps.last() {
                Step::Ask(file, charge) => if self.after(steps.drop_last()).answer(file, charge)
                    == Admission::Admitted {
                    before + charge
                } else {
                    before
                },
                Step::Forward(charge) => before - charge,
                _ => before,
            }
        }
    }

    /// Whether a run of steps forwards only what was admitted.
    pub open spec fn forwards_what_was_admitted(self, steps: Seq<Step>) -> bool {
        forall|k: int| 0 <= k <= steps.len() ==> #[trigger] self.in_flight(steps.take(k)) >= 0
    }
}

/// What the reserve is short by is always covered by batches in flight, so
/// once every admitted batch has been forwarded the reserve is whole again.
pub proof fn every_byte_the_reserve_lends_comes_back(l: Ledger, steps: Seq<Step>)
    requires
        l.reserve == DISPATCH_RESERVE_BYTES,
        l.forwards_what_was_admitted(steps),
    ensures
        l.after(steps).reserve <= DISPATCH_RESERVE_BYTES,
        DISPATCH_RESERVE_BYTES - l.after(steps).reserve <= l.in_flight(steps),
        l.in_flight(steps) == 0 ==> l.after(steps).reserve == DISPATCH_RESERVE_BYTES,
    decreases steps.len(),
{
    assert(steps.take(steps.len() as int) =~= steps);
    assert(l.in_flight(steps.take(steps.len() as int)) >= 0);
    if steps.len() > 0 {
        let front = steps.drop_last();
        assert forall|k: int| 0 <= k <= front.len() implies #[trigger] l.in_flight(front.take(k))
            >= 0 by {
            assert(front.take(k) =~= steps.take(k));
        }
        every_byte_the_reserve_lends_comes_back(l, front);
    }
}

/// Bytes of the runway are neither made nor lost: whatever is asked for,
/// forwarded, reached or retired, what is free and what is held add up to the
/// budget the run began with.
pub proof fn the_runway_is_conserved(l: Ledger, step: Step)
    requires
        l.valid(),
        step matches Step::Ask(file, charge) ==> file < l.held.len(),
        step matches Step::Advance(file) ==> file < l.held.len(),
    ensures
        l.stepped(step).runway_total() == l.runway_total(),
{
    match step {
        Step::Ask(file, charge) => {
            let taken = least(charge, l.free);
            sum_update(l.held, file as int, l.held[file as int]);
            sum_update(l.held, file as int, (l.held[file as int] + taken) as usize);
        },
        Step::Advance(file) => {
            sum_update(l.held, file as int, 0);
        },
        _ => {},
    }
}

} // verus!
