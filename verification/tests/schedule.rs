use loupe::schedule::{RedrawRequest, Requests};
use loupe::time::{Instant, Span};

fn at(millis: u64) -> RedrawRequest {
    RedrawRequest::At(Instant::from_origin(Span::from_millis(millis)))
}

#[test]
fn the_sooner_request_wins() {
    assert_eq!(at(10).coalesce(at(20)), at(10));
    assert_eq!(at(20).coalesce(at(10)), at(10));
    assert_eq!(at(20).coalesce(RedrawRequest::NextFrame), RedrawRequest::NextFrame);
    assert_eq!(RedrawRequest::NextFrame.coalesce(at(20)), RedrawRequest::NextFrame);
    assert_eq!(RedrawRequest::Wait.coalesce(at(20)), at(20));
    assert_eq!(at(20).coalesce(RedrawRequest::Wait), at(20));
    assert_eq!(RedrawRequest::Wait.coalesce(RedrawRequest::Wait), RedrawRequest::Wait);
    assert_eq!(RedrawRequest::Wait.coalesce(RedrawRequest::NextFrame), RedrawRequest::NextFrame);
}

#[test]
fn coalescing_does_not_depend_on_the_order() {
    let all = [RedrawRequest::NextFrame, at(5), at(6), RedrawRequest::Wait];
    for a in all {
        for b in all {
            assert_eq!(a.coalesce(b), b.coalesce(a));
            for c in all {
                assert_eq!(a.coalesce(b).coalesce(c), a.coalesce(b.coalesce(c)));
            }
        }
    }
}

#[test]
fn requests_start_empty() {
    let requests = Requests::none();
    assert_eq!(requests.redraw, RedrawRequest::Wait);
    assert!(!requests.layout_invalid);
}

#[test]
fn a_wake_request_keeps_an_earlier_one() {
    let mut requests = Requests::none();
    requests.request_redraw_at(at(30));
    assert_eq!(requests.redraw, at(30));
    requests.request_redraw_at(at(40));
    assert_eq!(requests.redraw, at(30));
    requests.request_redraw_at(at(20));
    assert_eq!(requests.redraw, at(20));
    assert!(!requests.layout_invalid);
    requests.request_redraw();
    assert_eq!(requests.redraw, RedrawRequest::NextFrame);
    requests.request_redraw_at(at(1));
    assert_eq!(requests.redraw, RedrawRequest::NextFrame);
}

#[test]
fn invalidating_the_layout_leaves_the_redraw_request() {
    let mut requests = Requests::none();
    requests.request_redraw_at(at(30));
    requests.invalidate_layout();
    assert!(requests.layout_invalid);
    assert_eq!(requests.redraw, at(30));
}

#[test]
fn merging_takes_the_sooner_frame_and_either_invalidation() {
    let mut first = Requests::none();
    first.request_redraw_at(at(30));
    let mut second = Requests::none();
    second.request_redraw_at(at(12));
    second.invalidate_layout();
    first.merge(second);
    assert_eq!(first, Requests { redraw: at(12), layout_invalid: true });
    let mut third = Requests::none();
    third.merge(first);
    assert_eq!(third, first);
    third.merge(Requests::none());
    assert_eq!(third, first);
}
