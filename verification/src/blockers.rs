//! Which fence holds a commit back until its buffer may be read.
//!
//! A client that synchronises explicitly names a point on a timeline; otherwise the buffer
//! itself carries a fence. Setting up either can fail, and a commit without a fence is let
//! through as it is.

use vstd::prelude::*;

verus! {

/// A fence to wait on.
#[derive(Debug, Clone, Copy, PartialEq, Eq, Structural)]
pub enum Fence {
    /// The timeline point the client named.
    Explicit,
    /// The fence of the dmabuf.
    Implicit,
}

/// How the attempt to wait on a fence went.
#[derive(Debug, Clone, Copy, PartialEq, Eq, Structural)]
pub struct Attempt {
    /// There was something to wait on.
    pub generated: bool,
    /// The client was still there to be woken.
    pub client: bool,
    /// The event loop took the fence.
    pub registered: bool,
}

/// What to do after an attempt.
#[derive(Debug, Clone, Copy, PartialEq, Eq, Structural)]
pub enum BlockerStep {
    /// Hold the commit back until the fence of the attempt is passed.
    Block,
    Try(Fence),
    /// Let the commit through.
    PassThrough,
}

impl Attempt {
    pub open spec fn succeeded(self) -> bool {
        self.generated && self.client && self.registered
    }
}

/// The fence that ends up holding a commit back, given how each attempt would go.
pub open spec fn holding_fence(
    dmabuf: bool,
    acquire_point: bool,
    explicit: Attempt,
    implicit: Attempt,
) -> Option<Fence> {
    if !dmabuf {
        None
    } else if acquire_point && explicit.succeeded() {
        Some(Fence::Explicit)
    } else if implicit.succeeded() {
        Some(Fence::Implicit)
    } else {
        None
    }
}

/// What a commit begins with.
pub open spec fn first(dmabuf: bool, acquire_point: bool) -> BlockerStep {
    if !dmabuf {
        BlockerStep::PassThrough
    } else if acquire_point {
        BlockerStep::Try(Fence::Explicit)
    } else {
        BlockerStep::Try(Fence::Implicit)
    }
}

/// The first fence to try. Only dmabufs are waited for.
pub fn first_fence(dmabuf: bool, acquire_point: bool) -> (step: BlockerStep)
    ensures
        step == (if !dmabuf {
            BlockerStep::PassThrough
        } else if acquire_point {
            BlockerStep::Try(Fence::Explicit)
        } else {
            BlockerStep::Try(Fence::Implicit)
        }),
        step == first(dmabuf, acquire_point),
{
    if !dmabuf {
        BlockerStep::PassThrough
    } else if acquire_point {
        BlockerStep::Try(Fence::Explicit)
    } else {
        BlockerStep::Try(Fence::Implicit)
    }
}

/// What follows an attempt to wait on `fence`.
pub open spec fn after(fence: Fence, attempt: Attempt) -> BlockerStep {
    if attempt.succeeded() {
        BlockerStep::Block
    } else if fence is Explicit {
        BlockerStep::Try(Fence::Implicit)
    } else {
        BlockerStep::PassThrough
    }
}

pub fn after_attempt(fence: Fence, attempt: Attempt) -> (step: BlockerStep)
    ensures
        step == after(fence, attempt),
{
    if attempt.generated && attempt.client && attempt.registered {
        return BlockerStep::Block;
    }
    match fence {
        Fence::Explicit => BlockerStep::Try(Fence::Implicit),
        Fence::Implicit => BlockerStep::PassThrough,
    }
}

/// Going through the attempts one by one blocks on the named point where that can be waited
/// on, else on the dmabuf's own fence where that can, and on nothing otherwise.
pub proof fn law_the_first_fence_that_can_hold_does(
    acquire_point: bool,
    explicit: Attempt,
    implicit: Attempt,
)
    ensures
        holding_fence(true, acquire_point, explicit, implicit) == Some(Fence::Explicit)
            <==> acquire_point && after(Fence::Explicit, explicit) is Block,
        holding_fence(true, acquire_point, explicit, implicit) == Some(Fence::Implicit) <==> (
        acquire_point ==> after(Fence::Explicit, explicit) == BlockerStep::Try(Fence::Implicit))
            && after(Fence::Implicit, implicit) is Block,
        holding_fence(true, acquire_point, explicit, implicit) is None <==> (acquire_point
            ==> after(Fence::Explicit, explicit) == BlockerStep::Try(Fence::Implicit)) && after(
            Fence::Implicit,
            implicit,
        ) is PassThrough,
        holding_fence(false, acquire_point, explicit, implicit) is None,
{
}

/// A commit is held back only where there is something to wait on, someone to wake, and a loop
/// that watches for it; short of any of these the other fence is tried, and after the dmabuf's
/// own fence none is left.
pub proof fn law_a_fence_holds_only_with_all_three(fence: Fence, attempt: Attempt)
    ensures
        after(fence, attempt) is Block <==> attempt.generated && attempt.client
            && attempt.registered,
        !(attempt.generated && attempt.client && attempt.registered) && fence == Fence::Explicit
            ==> after(fence, attempt) == BlockerStep::Try(Fence::Implicit),
        !(attempt.generated && attempt.client && attempt.registered) && fence == Fence::Implicit
            ==> after(fence, attempt) == BlockerStep::PassThrough,
{
}

/// What is no dmabuf is let through at once; a dmabuf is waited for, on the point the client
/// named before anything else.
pub proof fn law_a_named_point_is_tried_first(dmabuf: bool, acquire_point: bool)
    ensures
        !dmabuf ==> first(dmabuf, acquire_point) == BlockerStep::PassThrough,
        dmabuf && acquire_point ==> first(dmabuf, acquire_point) == BlockerStep::Try(
            Fence::Explicit,
        ),
        dmabuf && !acquire_point ==> first(dmabuf, acquire_point) == BlockerStep::Try(
            Fence::Implicit,
        ),
{
}

/// What becomes of a commit in the end, when each attempt goes as given.
pub open spec fn outcome(
    dmabuf: bool,
    acquire_point: bool,
    explicit: Attempt,
    implicit: Attempt,
) -> BlockerStep {
    match first(dmabuf, acquire_point) {
        BlockerStep::Try(Fence::Explicit) => match after(Fence::Explicit, explicit) {
            BlockerStep::Try(_) => after(Fence::Implicit, implicit),
            over => over,
        },
        BlockerStep::Try(Fence::Implicit) => after(Fence::Implicit, implicit),
        over => over,
    }
}

/// A commit is let through unless it brings a dmabuf and one of the two fences can be waited
/// on, the named point only if there is one. The attempts come to an end either way.
pub proof fn law_a_commit_is_blocked_or_let_through(
    dmabuf: bool,
    acquire_point: bool,
    explicit: Attempt,
    implicit: Attempt,
)
    ensures
        outcome(dmabuf, acquire_point, explicit, implicit) is Block <==> dmabuf && ((acquire_point
            && explicit.generated && explicit.client && explicit.registered) || (
        implicit.generated && implicit.client && implicit.registered)),
        outcome(dmabuf, acquire_point, explicit, implicit) is Block || outcome(
            dmabuf,
            acquire_point,
            explicit,
            implicit,
        ) is PassThrough,
{
}

} // verus!
