//! The animated "loading" label: a text followed by a row of dots that grows
//! by one with each step of the animation and starts over with each cycle.

use crate::clock::{index_in_cycle, next_boundary_instant};
use crate::schedule::{RedrawRequest, Requests};
use crate::time::{Instant, Span, StepCount, MAX_NANOS};
use vstd::prelude::*;
use vstd::string::StringExecFns;

verus! {

/// `count` times the character `c`.
pub open spec fn repeated(c: char, count: nat) -> Seq<char> {
    Seq::new(count, |i: int| c)
}

/// What the label shows at step `index` of `steps`: the text, one dot more
/// than the step's number, and blanks for the dots still missing, so that
/// the whole keeps its width.
pub open spec fn rendered_text(label: Seq<char>, index: nat, steps: nat) -> Seq<char> {
    label + repeated('.', index + 1) + repeated(' ', (steps - index - 1) as nat)
}

/// Appends `count` copies of the one-character string `piece` to `text`.
fn pad(text: &mut String, piece: &str, c: char, count: u32)
    requires
        piece@ == seq![c],
    ensures
        final(text)@ == old(text)@ + repeated(c, count as nat),
{
    let mut done: u32 = 0;
    while done < count
        invariant
            done <= count,
            piece@ == seq![c],
            text@ == old(text)@ + repeated(c, done as nat),
        decreases count - done,
    {
        text.append(piece);
        done = done + 1;
        assert(text@ =~= old(text)@ + repeated(c, done as nat));
    }
}

/// The text that the label shows at step `index`.
pub fn make_text(label: &str, index: u32, steps: StepCount) -> (text: String)
    requires
        index < steps@,
    ensures
        text@ == rendered_text(label@, index as nat, steps@),
{
    let slots: u32 = steps.get();
    let dots: u32 = index + 1;
    let blanks: u32 = slots - dots;
    let mut text = String::from_str(label);
    proof {
        reveal_strlit(".");
        reveal_strlit(" ");
        assert("."@ =~= seq!['.']);
        assert(" "@ =~= seq![' ']);
    }
    pad(&mut text, ".", '.', dots);
    pad(&mut text, " ", ' ', blanks);
    text
}

/// What an animated label remembers from one frame to the next.
#[derive(Clone, Copy, Debug, PartialEq, Eq, Structural)]
pub struct AnimationPhase {
    start: Instant,
    index: u32,
}

impl AnimationPhase {
    /// The clock reading at which the animation began.
    pub closed spec fn started(self) -> Instant {
        self.start
    }

    /// The step that was shown at the last frame.
    pub closed spec fn shown(self) -> nat {
        self.index as nat
    }

    /// An animation that begins at `start`, at step 0.
    pub fn new(start: Instant) -> (phase: AnimationPhase)
        ensures
            phase.started() == start,
            phase.shown() == 0,
    {
        AnimationPhase { start, index: 0 }
    }

    /// The clock reading at which the animation began.
    pub fn start(&self) -> (start: Instant)
        ensures
            start == self.started(),
    {
        self.start
    }

    /// The step that was shown at the last frame.
    pub fn index(&self) -> (index: u32)
        ensures
            index == self.shown(),
    {
        self.index
    }
}

/// What is drawn of a label: a step and the text for it.
struct Face {
    index: u32,
    text: String,
}

/// An animated "loading" label.
pub struct LoadingText {
    label: String,
    cycle: Span,
    steps: StepCount,
    face: Face,
}

impl LoadingText {
    #[verifier::type_invariant]
    spec fn coherent(self) -> bool {
        &&& self.cycle@ > 0
        &&& self.face.index < self.steps@
        &&& self.face.text@ == rendered_text(self.label@, self.face.index as nat, self.steps@)
    }

    /// The text without its dots.
    pub closed spec fn label_text(self) -> Seq<char> {
        self.label@
    }

    /// The length of one animation cycle, in nanoseconds.
    pub closed spec fn cycle_nanos(self) -> nat {
        self.cycle@
    }

    /// The number of steps in a cycle.
    pub closed spec fn step_count(self) -> nat {
        self.steps@
    }

    /// The step whose text is held.
    pub closed spec fn rendered_index(self) -> nat {
        self.face.index as nat
    }

    /// The text that is held for drawing.
    pub closed spec fn rendered(self) -> Seq<char> {
        self.face.text@
    }

    /// A label that shows `label` and runs through three steps every 650
    /// milliseconds; it starts at step 0.
    pub fn new(label: &str) -> (widget: LoadingText)
        ensures
            widget.label_text() == label@,
            widget.cycle_nanos() == 650_000_000,
            widget.step_count() == 3,
            widget.rendered_index() == 0,
            widget.rendered() == rendered_text(label@, 0, 3),
    {
        let steps = match StepCount::new(3) {
            Some(steps) => steps,
            None => vstd::pervasive::unreached(),
        };
        let text = make_text(label, 0, steps);
        LoadingText {
            label: String::from_str(label),
            cycle: Span::from_millis(650),
            steps,
            face: Face { index: 0, text },
        }
    }

    /// The length of one animation cycle.
    pub fn cycle(&self) -> (cycle: Span)
        ensures
            cycle@ == self.cycle_nanos(),
            cycle@ > 0,
    {
        proof {
            use_type_invariant(self);
        }
        self.cycle
    }

    /// The number of steps in a cycle.
    pub fn steps(&self) -> (steps: StepCount)
        ensures
            steps@ == self.step_count(),
    {
        self.steps
    }

    /// The step whose text is held.
    pub fn index(&self) -> (index: u32)
        ensures
            index == self.rendered_index(),
            index < self.step_count(),
    {
        proof {
            use_type_invariant(self);
        }
        self.face.index
    }

    /// The text to draw: the label with the dots of the step that is held.
    pub fn text(&self) -> (text: &str)
        ensures
            text@ == self.rendered(),
            text@ == rendered_text(self.label_text(), self.rendered_index(), self.step_count()),
    {
        proof {
            use_type_invariant(self);
        }
        self.face.text.as_str()
    }

    /// Shows step `index`. The text is made anew only when the step differs
    /// from the one that is held.
    pub fn set_index(&mut self, index: u32)
        requires
            index < old(self).step_count(),
        ensures
            final(self).label_text() == old(self).label_text(),
            final(self).cycle_nanos() == old(self).cycle_nanos(),
            final(self).step_count() == old(self).step_count(),
            final(self).rendered_index() == index,
            final(self).rendered() == rendered_text(
                old(self).label_text(),
                index as nat,
                old(self).step_count(),
            ),
    {
        proof {
            use_type_invariant(&*self);
        }
        if self.face.index != index {
            let text = make_text(self.label.as_str(), index, self.steps);
            self.face = Face { index, text };
        }
    }

    /// Handles a frame drawn at the clock reading `now`.
    ///
    /// The step for `now` is stored in `state`. If it is another than the
    /// one `state` held, the label shows it and asks for a new layout pass;
    /// if not, the label is left as it is. Either way the label asks to be
    /// woken when that step ends.
    pub fn update(&mut self, state: &mut AnimationPhase, now: Instant) -> (requests: Requests)
        requires
            crate::clock::boundary_reading(
                now@,
                old(state).started()@,
                old(self).cycle_nanos(),
                old(self).step_count(),
            ) <= MAX_NANOS,
        ensures
            final(self).label_text() == old(self).label_text(),
            final(self).cycle_nanos() == old(self).cycle_nanos(),
            final(self).step_count() == old(self).step_count(),
            final(state).started() == old(state).started(),
            final(state).shown() == crate::clock::phase_index(
                crate::time::elapsed_between(now@, old(state).started()@),
                old(self).cycle_nanos(),
                old(self).step_count(),
            ),
            requests.layout_invalid == (final(state).shown() != old(state).shown()),
            requests.layout_invalid ==> final(self).rendered_index() == final(state).shown()
                && final(self).rendered() == rendered_text(
                old(self).label_text(),
                final(state).shown(),
                old(self).step_count(),
            ),
            !requests.layout_invalid ==> final(self).rendered_index() == old(self).rendered_index()
                && final(self).rendered() == old(self).rendered(),
            requests.redraw matches RedrawRequest::At(at) && at@ == crate::clock::boundary_reading(
                now@,
                old(state).started()@,
                old(self).cycle_nanos(),
                old(self).step_count(),
            ),
    {
        proof {
            use_type_invariant(&*self);
        }
        let elapsed = now.duration_since(state.start);
        let index = index_in_cycle(elapsed, self.cycle, self.steps);
        let wake = next_boundary_instant(now, state.start, self.cycle, self.steps);
        let mut requests = Requests::none();
        if index != state.index {
            state.index = index;
            self.set_index(index);
            requests.invalidate_layout();
        }
        match wake {
            Some(at) => {
                requests.request_redraw_at(RedrawRequest::At(at));
            },
            None => {
                assert(false);
            },
        }
        requests
    }
}

} // verus!
