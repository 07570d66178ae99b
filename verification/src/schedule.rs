//! What a widget may ask of its host after an event: a repaint, a wake-up at
//! a later clock reading, a new layout pass. The requests of many widgets are
//! folded into one.

use crate::time::Instant;
use vstd::prelude::*;

verus! {

/// When the next frame should be drawn.
#[derive(Clone, Copy, Debug, PartialEq, Eq, Structural)]
pub enum RedrawRequest {
    /// As soon as possible.
    NextFrame,
    /// No earlier than the given clock reading.
    At(Instant),
    /// Nothing asks for a frame.
    Wait,
}

impl RedrawRequest {
    /// Whether a frame drawn as `self` asks comes no later than `other`
    /// asks: the next frame comes before every clock reading, and every
    /// clock reading before waiting.
    pub open spec fn not_after(self, other: RedrawRequest) -> bool {
        match (self, other) {
            (RedrawRequest::NextFrame, _) => true,
            (RedrawRequest::At(mine), RedrawRequest::At(theirs)) => mine@ <= theirs@,
            (RedrawRequest::At(_), RedrawRequest::Wait) => true,
            (RedrawRequest::Wait, RedrawRequest::Wait) => true,
            _ => false,
        }
    }

    /// The request that serves both `self` and `other`: the sooner of the
    /// two, and `self` where neither is sooner.
    pub open spec fn sooner(self, other: RedrawRequest) -> RedrawRequest {
        if self.not_after(other) {
            self
        } else {
            other
        }
    }

    /// Folds two requests into the one that serves both.
    pub fn coalesce(self, other: RedrawRequest) -> (merged: RedrawRequest)
        ensures
            merged == self.sooner(other),
    {
        match (self, other) {
            (RedrawRequest::NextFrame, _) => self,
            (_, RedrawRequest::NextFrame) => other,
            (RedrawRequest::Wait, RedrawRequest::Wait) => self,
            (RedrawRequest::Wait, RedrawRequest::At(_)) => other,
            (RedrawRequest::At(_), RedrawRequest::Wait) => self,
            (RedrawRequest::At(mine), RedrawRequest::At(theirs)) => {
                if theirs.since_origin().as_nanos() < mine.since_origin().as_nanos() {
                    other
                } else {
                    self
                }
            },
        }
    }
}

/// The requests gathered while one event is handled.
#[derive(Clone, Copy, Debug, PartialEq, Eq, Structural)]
pub struct Requests {
    /// When to draw next.
    pub redraw: RedrawRequest,
    /// Whether the measured size of some widget may have changed.
    pub layout_invalid: bool,
}

impl Requests {
    /// What `self` and `other` ask for together.
    pub open spec fn joined(self, other: Requests) -> Requests {
        Requests {
            redraw: self.redraw.sooner(other.redraw),
            layout_invalid: self.layout_invalid || other.layout_invalid,
        }
    }

    /// Nothing asked for.
    pub fn none() -> (requests: Requests)
        ensures
            requests == (Requests { redraw: RedrawRequest::Wait, layout_invalid: false }),
    {
        Requests { redraw: RedrawRequest::Wait, layout_invalid: false }
    }

    /// Asks for a repaint as soon as possible, without a new layout pass.
    pub fn request_redraw(&mut self)
        ensures
            *final(self) == (Requests { redraw: RedrawRequest::NextFrame, ..*old(self) }),
    {
        self.redraw = RedrawRequest::NextFrame;
    }

    /// Asks for a frame no later than `request` says; an earlier request
    /// that is already held stays.
    pub fn request_redraw_at(&mut self, request: RedrawRequest)
        ensures
            *final(self) == (Requests {
                redraw: old(self).redraw.sooner(request),
                ..*old(self)
            }),
    {
        self.redraw = self.redraw.coalesce(request);
    }

    /// Asks for a new layout pass.
    pub fn invalidate_layout(&mut self)
        ensures
            *final(self) == (Requests { layout_invalid: true, ..*old(self) }),
    {
        self.layout_invalid = true;
    }

    /// Takes up what another widget asked for.
    pub fn merge(&mut self, other: Requests)
        ensures
            *final(self) == old(self).joined(other),
    {
        self.redraw = self.redraw.coalesce(other.redraw);
        self.layout_invalid = self.layout_invalid || other.layout_invalid;
    }
}

/// Folding requests never delays a frame: the folded request is one of the
/// two and comes no later than either.
pub proof fn lemma_sooner_is_earliest(a: RedrawRequest, b: RedrawRequest)
    ensures
        a.sooner(b).not_after(a),
        a.sooner(b).not_after(b),
        a.sooner(b) == a || a.sooner(b) == b,
{
}

/// When the folded request falls due does not depend on the order in which
/// the widgets were visited, nor on how their requests were grouped.
pub proof fn lemma_sooner_order_free(a: RedrawRequest, b: RedrawRequest, c: RedrawRequest)
    ensures
        a.sooner(b).not_after(b.sooner(a)),
        b.sooner(a).not_after(a.sooner(b)),
        a.sooner(b).sooner(c) == a.sooner(b.sooner(c)),
{
}

} // verus!
