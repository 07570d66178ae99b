//! An operation that a host carries through the widget tree: it snaps the
//! scrollable with a given identifier to a given offset and leaves every
//! other widget alone.

use vstd::prelude::*;
use vstd::std_specs::cmp::PartialEqSpecImpl;

verus! {

/// The identifier of a widget: a number that the host handed out, or a name
/// that the application chose.
#[derive(Clone, Debug)]
pub struct Id {
    kind: IdKind,
}

#[derive(Clone, Debug)]
enum IdKind {
    Unique(u64),
    Custom(String),
}

/// What an [`Id`] stands for.
pub enum IdView {
    /// The number that the host handed out.
    Unique(nat),
    /// The name that the application chose.
    Custom(Seq<char>),
}

impl View for Id {
    type V = IdView;

    closed spec fn view(&self) -> IdView {
        match self.kind {
            IdKind::Unique(serial) => IdView::Unique(serial as nat),
            IdKind::Custom(name) => IdView::Custom(name@),
        }
    }
}

impl Id {
    /// The identifier with the name `name`.
    pub fn new(name: &str) -> (id: Id)
        ensures
            id@ == IdView::Custom(name@),
    {
        Id { kind: IdKind::Custom(name.to_owned()) }
    }

    /// The identifier with the number `serial`. Two identifiers made so are
    /// the same only if their numbers are: the host hands out each number
    /// once.
    pub fn unique(serial: u64) -> (id: Id)
        ensures
            id@ == IdView::Unique(serial as nat),
    {
        Id { kind: IdKind::Unique(serial) }
    }
}

impl PartialEq for Id {
    fn eq(&self, other: &Id) -> (same: bool) {
        match (&self.kind, &other.kind) {
            (IdKind::Unique(mine), IdKind::Unique(theirs)) => *mine == *theirs,
            (IdKind::Custom(mine), IdKind::Custom(theirs)) => mine.eq(theirs),
            _ => false,
        }
    }
}

impl PartialEqSpecImpl for Id {
    open spec fn obeys_eq_spec() -> bool {
        true
    }

    open spec fn eq_spec(&self, other: &Id) -> bool {
        self@ == other@
    }
}

/// The state of a widget that can be scrolled.
pub trait Scrollable<O> {
    /// The offset that the widget was last snapped to.
    spec fn snapped_to(&self) -> O;

    /// Snaps the scroll of the widget to `percentage`.
    fn snap_to(&mut self, percentage: O)
        ensures
            final(self).snapped_to() == percentage,
    ;
}

/// The operation that snaps one scrollable, made by [`snap_to`].
pub struct SnapTo<O> {
    target: Id,
    percentage: O,
}

/// The operation that snaps the widget with the identifier `target` to
/// `percentage`.
pub fn snap_to<O: Copy>(target: Id, percentage: O) -> (operation: SnapTo<O>)
    ensures
        operation.target_id() == target@,
        operation.offset() == percentage,
{
    SnapTo { target, percentage }
}

impl<O: Copy> SnapTo<O> {
    /// The identifier of the widget that is snapped.
    pub closed spec fn target_id(self) -> IdView {
        self.target@
    }

    /// The offset that it is snapped to.
    pub closed spec fn offset(self) -> O {
        self.percentage
    }

    /// Whether the operation is meant for a widget with the identifier `id`.
    pub open spec fn applies_to(self, id: Option<&Id>) -> bool {
        match id {
            Some(id) => id@ == self.target_id(),
            None => false,
        }
    }

    /// Visits a container. The operation goes on into the children of
    /// every container, whatever its identifier: the result says so.
    pub fn container(&self, id: Option<&Id>) -> (descend: bool)
        ensures
            descend,
    {
        true
    }

    /// Visits a scrollable: snaps it if its identifier is the target's, and
    /// leaves it as it is if not. The result tells whether it was snapped.
    pub fn scrollable<S: Scrollable<O>>(&self, state: &mut S, id: Option<&Id>) -> (snapped: bool)
        ensures
            snapped == self.applies_to(id),
            snapped ==> final(state).snapped_to() == self.offset(),
            !snapped ==> *final(state) == *old(state),
    {
        let hit = match id {
            Some(id) => *id == self.target,
            None => false,
        };
        if hit {
            state.snap_to(self.percentage);
        }
        hit
    }
}

} // verus!
