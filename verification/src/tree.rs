//! The state tree: one cell for each widget, kept from frame to frame while
//! the widgets themselves are built anew.
//!
//! A cell holds a tag, the state of the shape that the tag names, and the
//! cells of the widget's children in the order in which they were built.
//! Cells are matched to widgets by position alone.

use crate::label::AnimationPhase;
use crate::lens::PointerAnchor;
use crate::time::Instant;
use vstd::prelude::*;

verus! {

/// Names the shape of the state in a cell.
#[derive(Clone, Copy, Debug, PartialEq, Eq, Structural)]
pub enum Tag {
    /// No state.
    Stateless,
    /// The state of an animated label.
    Loading,
    /// The state of a magnifying lens.
    Lens,
}

/// The state in a cell, in one of the shapes a [`Tag`] names.
pub enum State<P> {
    /// No state.
    Empty,
    /// The state of an animated label.
    Loading(AnimationPhase),
    /// The state of a magnifying lens.
    Lens(PointerAnchor<P>),
}

/// What a newly built widget asks of the state tree: the shape of its own
/// state, and the same of each child in the order of building.
pub struct Outline {
    /// The shape of the widget's state.
    pub tag: Tag,
    /// The widget's children.
    pub children: Vec<Outline>,
}

/// A cell of the state tree with the cells below it.
pub struct Tree<P> {
    /// The shape that `state` was made in.
    pub tag: Tag,
    /// The widget's state.
    pub state: State<P>,
    /// The cells of the widget's children.
    pub children: Vec<Tree<P>>,
}

impl<P> State<P> {
    /// The tag that names the shape of this state.
    pub open spec fn shape(self) -> Tag {
        match self {
            State::Empty => Tag::Stateless,
            State::Loading(_) => Tag::Loading,
            State::Lens(_) => Tag::Lens,
        }
    }

    /// The state that a widget of shape `tag` starts with when it enters
    /// the tree at the clock reading `now`.
    pub open spec fn is_initial(self, tag: Tag, now: Instant) -> bool {
        match self {
            State::Empty => tag == Tag::Stateless,
            State::Loading(phase) => tag == Tag::Loading && phase.started() == now && phase.shown()
                == 0,
            State::Lens(anchor) => tag == Tag::Lens && anchor.anchor() is None,
        }
    }

    /// The state that a widget of shape `tag` starts with.
    pub fn initial(tag: Tag, now: Instant) -> (state: State<P>)
        ensures
            state.is_initial(tag, now),
            state.shape() == tag,
    {
        match tag {
            Tag::Stateless => State::Empty,
            Tag::Loading => State::Loading(AnimationPhase::new(now)),
            Tag::Lens => State::Lens(PointerAnchor::new()),
        }
    }
}

/// In `tree` and in every cell below it the state has the shape that the
/// cell's tag names.
pub open spec fn well_formed<P>(tree: Tree<P>) -> bool
    decreases tree,
{
    &&& tree.state.shape() == tree.tag
    &&& forall|i: int|
        0 <= i < tree.children.len() ==> well_formed(#[trigger] tree.children[i])
}

/// `tree` is what a widget with the given outline gets when it enters the
/// state tree at `now`: its tag, the initial state for it, and in the same
/// way a new cell for each child.
pub open spec fn is_fresh<P>(tree: Tree<P>, outline: Outline, now: Instant) -> bool
    decreases outline,
{
    &&& tree.tag == outline.tag
    &&& tree.state.is_initial(outline.tag, now)
    &&& tree.children.len() == outline.children.len()
    &&& forall|i: int|
        0 <= i < outline.children.len() ==> is_fresh(
            tree.children[i],
            #[trigger] outline.children[i],
            now,
        )
}

/// `after` is the cell `before` once it has been matched to a widget with
/// the given outline: tag and state are those of `before`, whatever the
/// outline's tag, and the children have been matched position by position.
pub open spec fn is_diffed<P>(before: Tree<P>, after: Tree<P>, outline: Outline, now: Instant) -> bool
    decreases outline,
{
    &&& after.tag == before.tag
    &&& after.state == before.state
    &&& after.children.len() == outline.children.len()
    &&& forall|i: int|
        0 <= i < outline.children.len() ==> if i < before.children.len() {
            is_diffed(before.children[i], after.children[i], #[trigger] outline.children[i], now)
        } else {
            is_fresh(after.children[i], outline.children[i], now)
        }
}

/// `after` is the list of cells `before` matched to a list of widgets: as
/// long as the list of widgets, with the cell at each position kept where
/// there was one and made new where there was none.
pub open spec fn is_reconciled<P>(
    before: Seq<Tree<P>>,
    after: Seq<Tree<P>>,
    outlines: Seq<Outline>,
    now: Instant,
) -> bool {
    &&& after.len() == outlines.len()
    &&& forall|i: int|
        0 <= i < outlines.len() ==> if i < before.len() {
            is_diffed(before[i], after[i], #[trigger] outlines[i], now)
        } else {
            is_fresh(after[i], outlines[i], now)
        }
}

/// A new cell is well formed.
pub proof fn lemma_fresh_is_well_formed<P>(tree: Tree<P>, outline: Outline, now: Instant)
    requires
        is_fresh(tree, outline, now),
    ensures
        well_formed(tree),
    decreases outline,
{
    assert forall|i: int| 0 <= i < tree.children.len() implies well_formed(
        #[trigger] tree.children[i],
    ) by {
        lemma_fresh_is_well_formed(tree.children[i], outline.children[i], now);
    }
}

/// Matching a well-formed cell to a widget leaves it well formed.
pub proof fn lemma_diff_keeps_well_formed<P>(
    before: Tree<P>,
    after: Tree<P>,
    outline: Outline,
    now: Instant,
)
    requires
        well_formed(before),
        is_diffed(before, after, outline, now),
    ensures
        well_formed(after),
    decreases outline,
{
    assert forall|i: int| 0 <= i < after.children.len() implies well_formed(
        #[trigger] after.children[i],
    ) by {
        if i < before.children.len() {
            lemma_diff_keeps_well_formed(
                before.children[i],
                after.children[i],
                outline.children[i],
                now,
            );
        } else {
            lemma_fresh_is_well_formed(after.children[i], outline.children[i], now);
        }
    }
}

/// Matching by position keeps the cell of every position that both lists
/// have, with its tag and its state, and gives the result the length of the
/// list of widgets: cells beyond that length are gone, and positions beyond
/// the old cells hold new ones.
pub proof fn lemma_reconciled_keeps_cells<P>(
    before: Seq<Tree<P>>,
    after: Seq<Tree<P>>,
    outlines: Seq<Outline>,
    now: Instant,
)
    requires
        is_reconciled(before, after, outlines, now),
    ensures
        after.len() == outlines.len(),
        forall|i: int|
            0 <= i < before.len() && i < outlines.len() ==> (#[trigger] after[i]).tag
                == before[i].tag && after[i].state == before[i].state,
        forall|i: int|
            before.len() <= i < outlines.len() ==> (#[trigger] after[i]).tag == outlines[i].tag
                && after[i].state.is_initial(outlines[i].tag, now),
{
    assert forall|i: int| 0 <= i < before.len() && i < outlines.len() implies (#[trigger] after[i]).tag
        == before[i].tag && after[i].state == before[i].state by {
        assert(is_diffed(before[i], after[i], outlines[i], now));
    }
    assert forall|i: int| before.len() <= i < outlines.len() implies (#[trigger] after[i]).tag
        == outlines[i].tag && after[i].state.is_initial(outlines[i].tag, now) by {
        assert(is_fresh(after[i], outlines[i], now));
    }
}

impl<P> Tree<P> {
    /// A cell without state and without children.
    pub fn empty() -> (tree: Tree<P>)
        ensures
            tree.tag == Tag::Stateless,
            tree.state is Empty,
            tree.children@.len() == 0,
            well_formed(tree),
    {
        Tree { tag: Tag::Stateless, state: State::Empty, children: Vec::new() }
    }

    /// A cell that holds `state` under the tag of its shape, without
    /// children.
    pub fn with_state(state: State<P>) -> (tree: Tree<P>)
        ensures
            tree.tag == state.shape(),
            tree.state == state,
            tree.children@.len() == 0,
            well_formed(tree),
    {
        let tag = match &state {
            State::Empty => Tag::Stateless,
            State::Loading(_) => Tag::Loading,
            State::Lens(_) => Tag::Lens,
        };
        Tree { tag, state, children: Vec::new() }
    }

    /// The state of the animated label whose cell this is.
    ///
    /// The caller names the shape it expects by choosing this function; a
    /// cell of another tag must not be read so.
    pub fn loading(&self) -> (phase: &AnimationPhase)
        requires
            self.tag == Tag::Loading,
            self.state.shape() == self.tag,
        ensures
            self.state == State::<P>::Loading(*phase),
    {
        match &self.state {
            State::Loading(phase) => phase,
            _ => vstd::pervasive::unreached(),
        }
    }

    /// The state of the animated label whose cell this is, for writing.
    pub fn loading_mut(&mut self) -> (phase: &mut AnimationPhase)
        requires
            old(self).tag == Tag::Loading,
            old(self).state.shape() == old(self).tag,
        ensures
            old(self).state == State::<P>::Loading(*phase),
            final(self).state == State::<P>::Loading(*final(phase)),
            final(self).tag == old(self).tag,
            final(self).children == old(self).children,
    {
        match &mut self.state {
            State::Loading(phase) => phase,
            _ => vstd::pervasive::unreached(),
        }
    }

    /// The state of the lens whose cell this is.
    pub fn lens(&self) -> (anchor: &PointerAnchor<P>)
        requires
            self.tag == Tag::Lens,
            self.state.shape() == self.tag,
        ensures
            self.state == State::Lens(*anchor),
    {
        match &self.state {
            State::Lens(anchor) => anchor,
            _ => vstd::pervasive::unreached(),
        }
    }

    /// The state of the lens whose cell this is, for writing.
    pub fn lens_mut(&mut self) -> (anchor: &mut PointerAnchor<P>)
        requires
            old(self).tag == Tag::Lens,
            old(self).state.shape() == old(self).tag,
        ensures
            old(self).state == State::Lens(*anchor),
            final(self).state == State::Lens(*final(anchor)),
            final(self).tag == old(self).tag,
            final(self).children == old(self).children,
    {
        match &mut self.state {
            State::Lens(anchor) => anchor,
            _ => vstd::pervasive::unreached(),
        }
    }

    /// The cells for a widget that enters the tree at `now`.
    pub fn new(outline: &Outline, now: Instant) -> (tree: Tree<P>)
        ensures
            is_fresh(tree, *outline, now),
            well_formed(tree),
        decreases outline,
    {
        let mut children: Vec<Tree<P>> = Vec::new();
        let mut i: usize = 0;
        while i < outline.children.len()
            invariant
                i <= outline.children.len(),
                children.len() == i,
                forall|j: int|
                    0 <= j < i ==> is_fresh(children[j], #[trigger] outline.children[j], now),
            decreases outline.children.len() - i,
        {
            let child = Tree::new(&outline.children[i], now);
            children.push(child);
            i = i + 1;
        }
        let tree = Tree { tag: outline.tag, state: State::initial(outline.tag, now), children };
        proof {
            lemma_fresh_is_well_formed(tree, *outline, now);
        }
        tree
    }

    /// Matches this cell to the widget that now stands in its place. The
    /// cell keeps its tag and its state, whatever the widget's tag is: a
    /// widget of another shape finds that out when it reads the state.
    /// The cells below are matched to the widget's children.
    pub fn diff(&mut self, outline: &Outline, now: Instant)
        ensures
            is_diffed(*old(self), *final(self), *outline, now),
            well_formed(*old(self)) ==> well_formed(*final(self)),
        decreases outline, 1nat,
    {
        self.diff_children(&outline.children, now);
        proof {
            if well_formed(*old(self)) {
                lemma_diff_keeps_well_formed(*old(self), *self, *outline, now);
            }
        }
    }

    /// Matches the cells below this one to a list of widgets, position by
    /// position: cells past the end of the list are dropped with all that is
    /// below them, each cell that stays is matched to the widget at its
    /// position, and each widget past the last cell gets new cells.
    pub fn diff_children(&mut self, outlines: &Vec<Outline>, now: Instant)
        ensures
            final(self).tag == old(self).tag,
            final(self).state == old(self).state,
            is_reconciled(old(self).children@, final(self).children@, outlines@, now),
        decreases outlines, 0nat,
    {
        let wanted = outlines.len();
        if self.children.len() > wanted {
            self.children.truncate(wanted);
        }
        let kept = self.children.len();
        let mut i: usize = 0;
        while i < kept
            invariant
                i <= kept,
                kept <= wanted,
                wanted == outlines.len(),
                kept == self.children.len(),
                kept <= old(self).children.len(),
                self.tag == old(self).tag,
                self.state == old(self).state,
                forall|j: int|
                    0 <= j < i ==> is_diffed(
                        old(self).children[j],
                        self.children[j],
                        #[trigger] outlines[j],
                        now,
                    ),
                forall|j: int| i <= j < kept ==> self.children[j] == old(self).children[j],
            decreases kept - i,
        {
            let child = &mut self.children[i];
            child.diff(&outlines[i], now);
            i = i + 1;
        }
        while i < wanted
            invariant
                kept <= i <= wanted,
                wanted == outlines.len(),
                i == self.children.len(),
                kept <= old(self).children.len(),
                kept < wanted ==> kept == old(self).children.len(),
                self.tag == old(self).tag,
                self.state == old(self).state,
                forall|j: int|
                    0 <= j < kept ==> is_diffed(
                        old(self).children[j],
                        self.children[j],
                        #[trigger] outlines[j],
                        now,
                    ),
                forall|j: int|
                    kept <= j < i ==> is_fresh(self.children[j], #[trigger] outlines[j], now),
            decreases wanted - i,
        {
            let child = Tree::new(&outlines[i], now);
            self.children.push(child);
            i = i + 1;
        }
    }
}

} // verus!
