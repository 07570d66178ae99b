use loupe::lens::{interaction, ChildCursor, DrawPlan, Interaction, PointerAnchor};
use loupe::schedule::RedrawRequest;

#[test]
fn a_new_lens_draws_plainly() {
    let state: PointerAnchor<(f32, f32)> = PointerAnchor::new();
    assert!(state.cursor_over().is_none());
    let plan = state.draw_plan();
    assert!(matches!(plan, DrawPlan::Plain));
    assert_eq!(plan.child_cursor(), ChildCursor::Passthrough);
}

#[test]
fn the_pointer_over_the_lens_magnifies_and_hides_the_cursor() {
    let mut state: PointerAnchor<(f32, f32)> = PointerAnchor::new();
    let requests = state.update(Some((50.0, 50.0)));
    assert_eq!(requests.redraw, RedrawRequest::NextFrame);
    assert!(!requests.layout_invalid);
    assert_eq!(state.cursor_over(), Some(&(50.0, 50.0)));
    match state.draw_plan() {
        DrawPlan::Magnified(position) => assert_eq!(*position, (50.0, 50.0)),
        DrawPlan::Plain => panic!("the pointer is over the lens"),
    }
    assert_eq!(state.draw_plan().child_cursor(), ChildCursor::Unavailable);
}

#[test]
fn a_pointer_that_rests_asks_for_nothing() {
    let mut state: PointerAnchor<(i32, i32)> = PointerAnchor::new();
    assert_eq!(state.update(None).redraw, RedrawRequest::Wait);
    assert_eq!(state.update(Some((1, 2))).redraw, RedrawRequest::NextFrame);
    assert_eq!(state.update(Some((1, 2))).redraw, RedrawRequest::Wait);
    assert_eq!(state.update(Some((1, 3))).redraw, RedrawRequest::NextFrame);
    assert_eq!(state.update(None).redraw, RedrawRequest::NextFrame);
    assert!(state.cursor_over().is_none());
    assert!(matches!(state.draw_plan(), DrawPlan::Plain));
}

#[test]
fn the_icon_is_a_magnifying_glass_over_the_lens() {
    assert_eq!(interaction(true), Interaction::ZoomIn);
    assert_eq!(interaction(false), Interaction::Idle);
}
