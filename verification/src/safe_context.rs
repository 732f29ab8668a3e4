//! The context access guard.
//!
//! Host callbacks are bound to an artifact once, but must see the execution
//! context of the call that is running. For each call one owner is made around
//! the caller's context; the callbacks reach the context through handles that
//! the owner issues. Owner and handles share a liveness counter: it starts at
//! one, for the owner itself, rises with each handle issued and falls with
//! each handle given back. An owner may only be torn down when the counter is
//! back at one; any other value is a contract violation.

use vstd::prelude::*;

verus! {

/// The finding of a teardown that met outstanding handles: the value of the
/// liveness counter, which should have been one.
#[derive(Clone, Copy, Debug, PartialEq, Eq, Structural)]
pub struct ContractViolation {
    pub references: usize,
}

/// Owner of the access to one call's execution context.
pub struct ContextOwner<'a, C> {
    ctx: &'a C,
    references: usize,
    history: Ghost<Seq<GuardEvent>>,
}

/// A non-owning view of the context of the call whose owner issued it.
pub struct ContextHandle<'a, C> {
    ctx: &'a C,
}

/// What happens to an owner between its construction and its teardown.
pub enum GuardEvent {
    /// A handle is issued.
    Issue,
    /// A handle is given back.
    Release,
}

/// The liveness counter of an owner after the given events: one for the owner
/// and one for each handle that was issued and not given back.
pub open spec fn references_after(events: Seq<GuardEvent>) -> int
    decreases events.len(),
{
    if events.len() == 0 {
        1
    } else {
        references_after(events.drop_last()) + match events.last() {
            GuardEvent::Issue => 1int,
            GuardEvent::Release => -1int,
        }
    }
}

/// The verdict of a teardown that finds the given value of the liveness counter.
pub open spec fn teardown_verdict(references: int) -> Result<(), ContractViolation> {
    if references == 1 {
        Ok(())
    } else {
        Err(ContractViolation { references: references as usize })
    }
}

impl<'a, C> ContextOwner<'a, C> {
    #[verifier::type_invariant]
    spec fn counted(self) -> bool {
        &&& self.references >= 1
        &&& self.references == references_after(self.history@)
    }

    /// The handles issued and given back since the owner was made, in order.
    pub closed spec fn history(&self) -> Seq<GuardEvent> {
        self.history@
    }

    /// The value of the liveness counter.
    pub closed spec fn references(&self) -> int {
        self.references as int
    }

    /// The context that the owner guards.
    pub closed spec fn context(&self) -> &'a C {
        self.ctx
    }

    /// An owner around the context of one call. No handle is out yet.
    pub fn new(inner: &'a C) -> (owner: ContextOwner<'a, C>)
        ensures
            owner.history() == Seq::<GuardEvent>::empty(),
            owner.references() == 1,
            owner.context() == inner,
    {
        ContextOwner { ctx: inner, references: 1, history: Ghost(Seq::empty()) }
    }

    /// The liveness counter: one more than the number of handles that are out.
    pub fn reference_count(&self) -> (count: usize)
        ensures
            count == self.references(),
            count == references_after(self.history()),
            count >= 1,
    {
        proof {
            use_type_invariant(self);
        }
        self.references
    }

    /// Issues a handle to the owner's context.
    pub fn handle(&mut self) -> (handle: ContextHandle<'a, C>)
        requires
            old(self).references() < usize::MAX,
        ensures
            final(self).history() == old(self).history().push(GuardEvent::Issue),
            final(self).references() == old(self).references() + 1,
            final(self).context() == old(self).context(),
            handle.context() == old(self).context(),
    {
        proof {
            use_type_invariant(&*self);
            lemma_references_step(self.history@, GuardEvent::Issue);
        }
        *self = ContextOwner {
            ctx: self.ctx,
            references: self.references + 1,
            history: Ghost(self.history@.push(GuardEvent::Issue)),
        };
        ContextHandle { ctx: self.ctx }
    }

    /// Issues a second handle beside one of this owner that is out already.
    pub fn clone_handle(&mut self, handle: &ContextHandle<'a, C>) -> (copy: ContextHandle<'a, C>)
        requires
            old(self).references() < usize::MAX,
            handle.context() == old(self).context(),
        ensures
            final(self).history() == old(self).history().push(GuardEvent::Issue),
            final(self).references() == old(self).references() + 1,
            final(self).context() == old(self).context(),
            copy.context() == handle.context(),
    {
        proof {
            use_type_invariant(&*self);
            lemma_references_step(self.history@, GuardEvent::Issue);
        }
        *self = ContextOwner {
            ctx: self.ctx,
            references: self.references + 1,
            history: Ghost(self.history@.push(GuardEvent::Issue)),
        };
        ContextHandle { ctx: handle.ctx }
    }

    /// Takes back a handle that this owner issued.
    pub fn release(&mut self, handle: ContextHandle<'a, C>)
        requires
            old(self).references() > 1,
            handle.context() == old(self).context(),
        ensures
            final(self).history() == old(self).history().push(GuardEvent::Release),
            final(self).references() == old(self).references() - 1,
            final(self).context() == old(self).context(),
    {
        proof {
            use_type_invariant(&*self);
            lemma_references_step(self.history@, GuardEvent::Release);
        }
        *self = ContextOwner {
            ctx: self.ctx,
            references: self.references - 1,
            history: Ghost(self.history@.push(GuardEvent::Release)),
        };
    }

    /// Ends the owner's call scope. This is in order only when as many
    /// handles have been given back as were issued, so that none of the
    /// owner's handles is out; otherwise the result is the violation, on
    /// which the caller has to abort.
    pub fn teardown(self) -> (verdict: Result<(), ContractViolation>)
        ensures
            verdict == teardown_verdict(self.references()),
            verdict == teardown_verdict(references_after(self.history())),
            verdict is Ok <==> count_of(self.history(), true) == count_of(self.history(), false),
    {
        proof {
            use_type_invariant(&self);
            law_counter_counts_live_handles(self.history@);
        }
        if self.references == 1 {
            Ok(())
        } else {
            Err(ContractViolation { references: self.references })
        }
    }
}

impl<'a, C> ContextHandle<'a, C> {
    /// The context that the handle gives access to.
    pub closed spec fn context(&self) -> &'a C {
        self.ctx
    }

    /// The context of the call whose owner issued the handle.
    pub fn get(&self) -> (context: &'a C)
        ensures
            context == self.context(),
    {
        self.ctx
    }
}

/// Issuing a handle raises the counter by one and giving one back lowers it by
/// one, whatever came before.
pub proof fn lemma_references_step(events: Seq<GuardEvent>, event: GuardEvent)
    ensures
        references_after(events.push(event)) == references_after(events) + match event {
            GuardEvent::Issue => 1int,
            GuardEvent::Release => -1int,
        },
{
    assert(events.push(event).drop_last() =~= events);
}

/// The number of events of one kind.
pub open spec fn count_of(events: Seq<GuardEvent>, issue: bool) -> int
    decreases events.len(),
{
    if events.len() == 0 {
        0
    } else {
        count_of(events.drop_last(), issue) + if (events.last() is Issue) == issue {
            1int
        } else {
            0int
        }
    }
}

/// The liveness counter is one more than the number of handles that are out:
/// those issued less those given back.
pub proof fn law_counter_counts_live_handles(events: Seq<GuardEvent>)
    ensures
        references_after(events) == 1 + count_of(events, true) - count_of(events, false),
    decreases events.len(),
{
    if events.len() > 0 {
        law_counter_counts_live_handles(events.drop_last());
    }
}

/// Tearing an owner down is in order exactly when no handle is out. In
/// particular an owner that issued one handle, which is still alive, is
/// refused with a contract violation.
pub proof fn law_teardown_needs_all_handles_back(events: Seq<GuardEvent>)
    ensures
        teardown_verdict(references_after(events)) is Ok <==> count_of(events, true) == count_of(
            events,
            false,
        ),
        teardown_verdict(references_after(seq![GuardEvent::Issue])) is Err,
{
    law_counter_counts_live_handles(events);
    lemma_references_step(Seq::empty(), GuardEvent::Issue);
    assert(Seq::<GuardEvent>::empty().push(GuardEvent::Issue) =~= seq![GuardEvent::Issue]);
}

} // verus!
