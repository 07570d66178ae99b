use loupe::label::AnimationPhase;
use loupe::lens::PointerAnchor;
use loupe::time::{Instant, Span};
use loupe::tree::{Outline, State, Tag, Tree};

type Cell = Tree<(i32, i32)>;

fn reading(millis: u64) -> Instant {
    Instant::from_origin(Span::from_millis(millis))
}

fn leaf(tag: Tag) -> Outline {
    Outline { tag, children: Vec::new() }
}

fn node(tag: Tag, children: Vec<Outline>) -> Outline {
    Outline { tag, children }
}

fn step_of(cell: &Cell) -> u32 {
    assert_eq!(cell.tag, Tag::Loading);
    cell.loading().index()
}

/// A label cell that has lived: its step is `step`, which no new cell has.
fn lived(step: u32) -> Cell {
    let start = reading(0);
    let mut phase = AnimationPhase::new(start);
    let mut label = loupe::label::LoadingText::new("x");
    let at = match step {
        0 => 0,
        1 => 300,
        _ => 500,
    };
    label.update(&mut phase, reading(at));
    assert_eq!(phase.index(), step);
    Tree::with_state(State::Loading(phase))
}

#[test]
fn a_new_tree_mirrors_the_outline() {
    let outline = node(Tag::Lens, vec![leaf(Tag::Loading), node(Tag::Stateless, vec![leaf(Tag::Lens)])]);
    let tree: Cell = Tree::new(&outline, reading(77));
    assert_eq!(tree.tag, Tag::Lens);
    assert!(tree.lens().cursor_over().is_none());
    assert_eq!(tree.children.len(), 2);
    assert_eq!(tree.children[0].tag, Tag::Loading);
    assert_eq!(tree.children[0].loading().start(), reading(77));
    assert_eq!(tree.children[0].loading().index(), 0);
    assert_eq!(tree.children[1].tag, Tag::Stateless);
    assert!(matches!(tree.children[1].state, State::Empty));
    assert_eq!(tree.children[1].children.len(), 1);
    assert_eq!(tree.children[1].children[0].tag, Tag::Lens);
}

#[test]
fn an_empty_cell_has_no_state() {
    let tree: Cell = Tree::empty();
    assert_eq!(tree.tag, Tag::Stateless);
    assert!(matches!(tree.state, State::Empty));
    assert!(tree.children.is_empty());
}

#[test]
fn three_cells_with_unchanged_tags_are_all_kept() {
    let mut root: Cell = Tree::empty();
    root.children = vec![lived(1), lived(2), lived(1)];
    let widgets = vec![leaf(Tag::Loading), leaf(Tag::Loading), leaf(Tag::Loading)];
    root.diff_children(&widgets, reading(9_000));
    assert_eq!(root.children.len(), 3);
    assert_eq!(step_of(&root.children[0]), 1);
    assert_eq!(step_of(&root.children[1]), 2);
    assert_eq!(step_of(&root.children[2]), 1);
    for child in &root.children {
        assert_eq!(child.loading().start(), reading(0));
    }
}

#[test]
fn a_shorter_list_drops_the_last_cell_and_what_is_below_it() {
    let mut third = lived(2);
    third.children = vec![lived(1)];
    let mut root: Cell = Tree::empty();
    root.children = vec![lived(1), lived(2), third];
    let widgets = vec![leaf(Tag::Loading), leaf(Tag::Loading)];
    root.diff_children(&widgets, reading(9_000));
    assert_eq!(root.children.len(), 2);
    assert_eq!(step_of(&root.children[0]), 1);
    assert_eq!(step_of(&root.children[1]), 2);
    // a widget that comes back gets a new cell, not the old one
    let widgets = vec![leaf(Tag::Loading), leaf(Tag::Loading), node(Tag::Loading, vec![leaf(Tag::Loading)])];
    root.diff_children(&widgets, reading(9_500));
    assert_eq!(root.children.len(), 3);
    assert_eq!(step_of(&root.children[2]), 0);
    assert_eq!(root.children[2].loading().start(), reading(9_500));
    assert_eq!(root.children[2].children.len(), 1);
    assert_eq!(root.children[2].children[0].loading().start(), reading(9_500));
}

#[test]
fn a_longer_list_gets_new_cells_at_the_end() {
    let mut root: Cell = Tree::empty();
    root.children = vec![lived(2)];
    let widgets = vec![leaf(Tag::Loading), leaf(Tag::Lens), leaf(Tag::Stateless)];
    root.diff_children(&widgets, reading(123));
    assert_eq!(root.children.len(), 3);
    assert_eq!(step_of(&root.children[0]), 2);
    assert_eq!(root.children[1].tag, Tag::Lens);
    assert!(root.children[1].lens().cursor_over().is_none());
    assert_eq!(root.children[2].tag, Tag::Stateless);
}

#[test]
fn matching_is_by_position_whatever_the_tag() {
    let mut root: Cell = Tree::empty();
    root.children = vec![lived(1), lived(2)];
    // a lens is put in front: the label's widget now stands at position 1
    let widgets = vec![leaf(Tag::Lens), leaf(Tag::Loading), leaf(Tag::Loading)];
    root.diff_children(&widgets, reading(50));
    assert_eq!(root.children.len(), 3);
    // position 0 keeps the label's cell under the lens
    assert_eq!(root.children[0].tag, Tag::Loading);
    assert_eq!(step_of(&root.children[0]), 1);
    // the first label reads what was the second label's state
    assert_eq!(step_of(&root.children[1]), 2);
    assert_eq!(step_of(&root.children[2]), 0);
}

#[test]
fn diff_goes_down_into_the_children() {
    let mut inner: Cell = Tree::empty();
    inner.children = vec![lived(2), lived(1)];
    let mut root: Cell = Tree::with_state(State::Lens(PointerAnchor::new()));
    root.lens_mut().update(Some((4, 5)));
    root.children = vec![inner];
    let outline = node(Tag::Lens, vec![node(Tag::Stateless, vec![leaf(Tag::Loading)])]);
    root.diff(&outline, reading(1));
    assert_eq!(root.tag, Tag::Lens);
    assert_eq!(root.lens().cursor_over(), Some(&(4, 5)));
    assert_eq!(root.children.len(), 1);
    assert_eq!(root.children[0].children.len(), 1);
    assert_eq!(step_of(&root.children[0].children[0]), 2);
}

#[test]
fn diff_with_no_widgets_empties_the_list() {
    let mut root: Cell = Tree::empty();
    root.children = vec![lived(1), lived(2)];
    root.diff_children(&Vec::new(), reading(1));
    assert!(root.children.is_empty());
    assert_eq!(root.tag, Tag::Stateless);
}

#[test]
fn state_is_written_through_the_cell() {
    let mut cell: Cell = Tree::new(&leaf(Tag::Loading), reading(0));
    let mut label = loupe::label::LoadingText::new("x");
    let requests = label.update(cell.loading_mut(), reading(500));
    assert!(requests.layout_invalid);
    assert_eq!(cell.loading().index(), 2);
    assert_eq!(cell.tag, Tag::Loading);
}
