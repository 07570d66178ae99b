//! The magnifying lens: it remembers where the pointer is over it, and from
//! that alone decides how its content is drawn.
//!
//! A position is whatever the host measures the pointer in; the lens stores
//! it and hands it back, and never looks inside.

use crate::schedule::Requests;
use vstd::prelude::*;
use vstd::std_specs::cmp::PartialEqSpec;

verus! {

/// Where the pointer is over the lens, in the lens's own coordinates, or
/// nothing while the pointer is elsewhere.
pub struct PointerAnchor<P> {
    cursor_over: Option<P>,
}

/// The pointer as the content of the lens is to see it.
#[derive(Clone, Copy, Debug, PartialEq, Eq, Structural)]
pub enum ChildCursor {
    /// The pointer that the host reported.
    Passthrough,
    /// No pointer at all: under magnification the content does not lie
    /// where it is drawn, so it must not react to the pointer.
    Unavailable,
}

/// How the content of the lens is drawn.
pub enum DrawPlan<'a, P> {
    /// Unscaled, as if there were no lens.
    Plain,
    /// Scaled about the given position, which stays where it is.
    Magnified(&'a P),
}

/// The pointer icon over the lens.
#[derive(Clone, Copy, Debug, PartialEq, Eq, Structural)]
pub enum Interaction {
    /// The host's default.
    Idle,
    /// A magnifying glass.
    ZoomIn,
}

impl<'a, P> DrawPlan<'a, P> {
    /// The pointer that the content sees under this plan.
    pub open spec fn cursor_spec(self) -> ChildCursor {
        match self {
            DrawPlan::Plain => ChildCursor::Passthrough,
            DrawPlan::Magnified(_) => ChildCursor::Unavailable,
        }
    }

    /// The pointer that the content sees under this plan.
    pub fn child_cursor(&self) -> (cursor: ChildCursor)
        ensures
            cursor == self.cursor_spec(),
    {
        match self {
            DrawPlan::Plain => ChildCursor::Passthrough,
            DrawPlan::Magnified(_) => ChildCursor::Unavailable,
        }
    }
}

impl<P> PointerAnchor<P> {
    /// The position that is held, if any.
    pub closed spec fn anchor(self) -> Option<P> {
        self.cursor_over
    }

    /// The state of a lens that the pointer has not reached yet.
    pub fn new() -> (state: PointerAnchor<P>)
        ensures
            state.anchor() is None,
    {
        PointerAnchor { cursor_over: None }
    }

    /// The position that is held, if any.
    pub fn cursor_over(&self) -> (position: Option<&P>)
        ensures
            position is Some <==> self.anchor() is Some,
            position matches Some(p) ==> self.anchor() == Some(*p),
    {
        self.cursor_over.as_ref()
    }

    /// Takes up what an event says of the pointer: its position over the
    /// lens, or `None` once it has left. A repaint is asked for when that is
    /// not what was held before, as `==` on positions tells it; a new layout
    /// pass never, since the lens changes nothing of what is measured.
    pub fn update(&mut self, position: Option<P>) -> (requests: Requests) where P: PartialEq
        ensures
            final(self).anchor() == position,
            requests.layout_invalid == false,
            requests.redraw == crate::schedule::RedrawRequest::NextFrame || requests.redraw
                == crate::schedule::RedrawRequest::Wait,
            Option::<P>::obeys_eq_spec() ==> (requests.redraw
                == crate::schedule::RedrawRequest::NextFrame <==> !position.eq_spec(
                &old(self).anchor(),
            )),
    {
        let mut requests = Requests::none();
        if position != self.cursor_over {
            requests.request_redraw();
        }
        self.cursor_over = position;
        requests
    }

    /// How to draw the content: magnified about the pointer exactly when the
    /// pointer is over the lens.
    pub fn draw_plan(&self) -> (plan: DrawPlan<'_, P>)
        ensures
            match plan {
                DrawPlan::Plain => self.anchor() is None,
                DrawPlan::Magnified(p) => self.anchor() == Some(*p),
            },
    {
        match &self.cursor_over {
            Some(position) => DrawPlan::Magnified(position),
            None => DrawPlan::Plain,
        }
    }
}

/// The pointer icon: a magnifying glass while the pointer is over the lens.
pub fn interaction(pointer_is_over: bool) -> (icon: Interaction)
    ensures
        icon == if pointer_is_over {
            Interaction::ZoomIn
        } else {
            Interaction::Idle
        },
{
    if pointer_is_over {
        Interaction::ZoomIn
    } else {
        Interaction::Idle
    }
}

} // verus!
