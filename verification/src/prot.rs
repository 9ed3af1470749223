//! The access-control state of one protected region: how many guards are
//! outstanding, and which page protection that calls for.

use vstd::prelude::*;

verus! {

/// Page protection of a region.
#[derive(Clone, Copy, Debug, PartialEq, Eq, Structural)]
pub enum Prot {
    NoAccess,
    ReadOnly,
    ReadWrite,
}

/// The kind of access a guard grants.
#[derive(Clone, Copy, Debug, PartialEq, Eq, Structural)]
pub enum Access {
    Read,
    Write,
}

impl Access {
    /// The protection that the first guard of this kind raises a region to.
    pub open spec fn spec_prot(self) -> Prot {
        match self {
            Access::Read => Prot::ReadOnly,
            Access::Write => Prot::ReadWrite,
        }
    }

    /// The protection that the first guard of this kind raises a region to.
    #[verifier::when_used_as_spec(spec_prot)]
    pub fn prot(self) -> (r: Prot)
        ensures
            r == self.spec_prot(),
    {
        match self {
            Access::Read => Prot::ReadOnly,
            Access::Write => Prot::ReadWrite,
        }
    }
}

/// What follows an attempt to change a region's protection.
#[derive(Clone, Copy, Debug, PartialEq, Eq, Structural)]
pub enum Outcome {
    /// The protection is as the counter says: go on.
    Proceed,
    /// The protection can no longer be trusted: the process has to stop.
    Abort,
}

/// Judges an attempt to change a region's protection. A change that failed
/// is fatal, since nothing then vouches for what the region admits.
pub fn after_toggle(applied: bool) -> (r: Outcome)
    ensures
        r == if applied {
            Outcome::Proceed
        } else {
            Outcome::Abort
        },
{
    if applied {
        Outcome::Proceed
    } else {
        Outcome::Abort
    }
}

/// The mathematical state of a region's access control.
pub struct BorrowState {
    /// Guards outstanding.
    pub count: nat,
    /// Protection in force.
    pub prot: Prot,
}

impl BorrowState {
    /// No guard outstanding, no access.
    pub open spec fn idle() -> BorrowState {
        BorrowState { count: 0, prot: Prot::NoAccess }
    }

    /// The region is inaccessible exactly while no guard is outstanding.
    pub open spec fn wf(self) -> bool {
        (self.count == 0) == (self.prot == Prot::NoAccess)
    }

    /// Whether a guard of the given kind may be taken: a read guard beside
    /// other read guards only, a write guard beside no other guard.
    pub open spec fn admits(self, access: Access) -> bool {
        match access {
            Access::Read => self.prot != Prot::ReadWrite,
            Access::Write => self.count == 0,
        }
    }

    /// The state after a guard has been taken: one more guard, and on the
    /// step from none to one the protection that the guard's kind asks for.
    pub open spec fn acquire(self, access: Access) -> BorrowState {
        BorrowState {
            count: self.count + 1,
            prot: if self.count == 0 {
                access.spec_prot()
            } else {
                self.prot
            },
        }
    }

    /// The state after a guard has been given back: one guard fewer, and on
    /// the step down to none no access.
    pub open spec fn release(self) -> BorrowState {
        BorrowState {
            count: if self.count == 0 {
                0
            } else {
                (self.count - 1) as nat
            },
            prot: if self.count <= 1 {
                Prot::NoAccess
            } else {
                self.prot
            },
        }
    }

    /// The protection change that taking a guard calls for, if any.
    pub open spec fn change_on_acquire(self, access: Access) -> Option<Prot> {
        if self.count == 0 {
            Some(access.spec_prot())
        } else {
            None
        }
    }

    /// The protection change that giving a guard back calls for, if any.
    pub open spec fn change_on_release(self) -> Option<Prot> {
        if self.count <= 1 {
            Some(Prot::NoAccess)
        } else {
            None
        }
    }
}

/// Counter of outstanding guards with the protection they call for.
///
/// It holds no memory itself. Each step reports the protection change that
/// whoever owns the pages has to apply.
pub struct Borrows {
    count: usize,
    prot: Prot,
}

impl View for Borrows {
    type V = BorrowState;

    closed spec fn view(&self) -> BorrowState {
        BorrowState { count: self.count as nat, prot: self.prot }
    }
}

impl Borrows {
    #[verifier::type_invariant]
    spec fn inv(self) -> bool {
        self@.wf()
    }

    /// A counter with no guard outstanding.
    pub fn new() -> (r: Borrows)
        ensures
            r@ == BorrowState::idle(),
    {
        Borrows { count: 0, prot: Prot::NoAccess }
    }

    /// Guards outstanding.
    pub fn count(&self) -> (r: usize)
        ensures
            r == self@.count,
            self@.wf(),
    {
        proof {
            use_type_invariant(self);
        }
        self.count
    }

    /// Protection in force.
    pub fn protection(&self) -> (r: Prot)
        ensures
            r == self@.prot,
            self@.wf(),
    {
        proof {
            use_type_invariant(self);
        }
        self.prot
    }

    /// Counts one more guard. Returns the protection to apply to the region:
    /// `Some` on the step from no guard to one, `None` otherwise.
    pub fn acquire(&mut self, access: Access) -> (change: Option<Prot>)
        requires
            old(self)@.count < usize::MAX,
        ensures
            final(self)@ == old(self)@.acquire(access),
            change == old(self)@.change_on_acquire(access),
            final(self)@.wf(),
    {
        proof {
            use_type_invariant(&*self);
        }
        if self.count == 0 {
            let prot = access.prot();
            *self = Borrows { count: 1, prot };
            Some(prot)
        } else {
            *self = Borrows { count: self.count + 1, prot: self.prot };
            None
        }
    }

    /// Ends the counting, as the region is about to be wiped and given up.
    /// Returns the protection to apply to it first: reading and writing, so
    /// that the wipe and whatever else runs at the end can touch the bytes.
    pub fn teardown(self) -> (p: Prot)
        ensures
            p == Prot::ReadWrite,
    {
        Prot::ReadWrite
    }

    /// Counts one guard fewer. Returns the protection to apply to the region:
    /// `Some(NoAccess)` when the last guard is given back, `None` otherwise.
    pub fn release(&mut self) -> (change: Option<Prot>)
        requires
            old(self)@.count > 0,
        ensures
            final(self)@ == old(self)@.release(),
            change == old(self)@.change_on_release(),
            final(self)@.wf(),
    {
        proof {
            use_type_invariant(&*self);
        }
        if self.count <= 1 {
            *self = Borrows { count: 0, prot: Prot::NoAccess };
            Some(Prot::NoAccess)
        } else {
            *self = Borrows { count: self.count - 1, prot: self.prot };
            None
        }
    }
}

/// One event in the life of a region that is only ever read.
pub enum Step {
    /// A read guard is taken.
    Read,
    /// A guard is given back.
    Release,
}

/// Guards taken minus guards given back over `trace`.
pub open spec fn outstanding(trace: Seq<Step>) -> int
    decreases trace.len(),
{
    if trace.len() == 0 {
        0
    } else {
        outstanding(trace.drop_last()) + match trace.last() {
            Step::Read => 1int,
            Step::Release => -1int,
        }
    }
}

/// No guard is given back before it was taken.
pub open spec fn balanced(trace: Seq<Step>) -> bool {
    forall|k: int| 0 <= k <= trace.len() ==> outstanding(#[trigger] trace.take(k)) >= 0
}

/// The state that `trace` leaves a fresh region in.
pub open spec fn run(trace: Seq<Step>) -> BorrowState
    decreases trace.len(),
{
    if trace.len() == 0 {
        BorrowState::idle()
    } else {
        match trace.last() {
            Step::Read => run(trace.drop_last()).acquire(Access::Read),
            Step::Release => run(trace.drop_last()).release(),
        }
    }
}

/// Taking a guard keeps a region inaccessible exactly while no guard is
/// outstanding.
pub proof fn lemma_acquire_keeps_wf(s: BorrowState, access: Access)
    requires
        s.wf(),
    ensures
        s.acquire(access).wf(),
{
}

/// Giving a guard back keeps a region inaccessible exactly while no guard is
/// outstanding.
pub proof fn lemma_release_keeps_wf(s: BorrowState)
    requires
        s.wf(),
    ensures
        s.release().wf(),
{
}

/// With `n` read guards outstanding, giving one back leaves the region
/// read-only while another remains, and inaccessible when it was the last.
pub proof fn lemma_release_one_of_many(s: BorrowState)
    requires
        s.wf(),
        s.count >= 1,
        s.prot == Prot::ReadOnly,
    ensures
        s.release().count == s.count - 1,
        s.count >= 2 ==> s.release().prot == Prot::ReadOnly,
        s.count == 1 ==> s.release().prot == Prot::NoAccess,
{
}

/// However read guards are taken and given back, and in whatever order, the
/// region is read-only while at least one is outstanding and inaccessible
/// once the last is gone.
pub proof fn lemma_read_guards_any_order(trace: Seq<Step>)
    requires
        balanced(trace),
    ensures
        run(trace).count == outstanding(trace),
        run(trace).prot == if outstanding(trace) > 0 {
            Prot::ReadOnly
        } else {
            Prot::NoAccess
        },
        run(trace).wf(),
    decreases trace.len(),
{
    if trace.len() > 0 {
        let init = trace.drop_last();
        assert forall|k: int| 0 <= k <= init.len() implies outstanding(#[trigger] init.take(k))
            >= 0 by {
            assert(init.take(k) == trace.take(k));
        }
        lemma_read_guards_any_order(init);
        assert(trace.take(trace.len() as int) == trace);
    }
}

} // verus!
