use loupe::operation::{snap_to, Id, Scrollable};

#[derive(Debug, PartialEq)]
struct Pane {
    offset: (f32, f32),
    snaps: u32,
}

impl Scrollable<(f32, f32)> for Pane {
    fn snapped_to(&self) -> (f32, f32) {
        self.offset
    }

    fn snap_to(&mut self, percentage: (f32, f32)) {
        self.offset = percentage;
        self.snaps += 1;
    }
}

fn pane() -> Pane {
    Pane { offset: (0.0, 0.0), snaps: 0 }
}

#[test]
fn the_target_is_snapped() {
    let operation = snap_to(Id::new("log"), (0.5, 1.0));
    let mut state = pane();
    assert!(operation.scrollable(&mut state, Some(&Id::new("log"))));
    assert_eq!(state, Pane { offset: (0.5, 1.0), snaps: 1 });
}

#[test]
fn other_scrollables_are_left_alone() {
    let operation = snap_to(Id::new("log"), (0.5, 1.0));
    let mut state = pane();
    assert!(!operation.scrollable(&mut state, Some(&Id::new("list"))));
    assert!(!operation.scrollable(&mut state, Some(&Id::unique(3))));
    assert!(!operation.scrollable(&mut state, None));
    assert_eq!(state, pane());
}

#[test]
fn numbered_identifiers_match_by_number() {
    let operation = snap_to(Id::unique(7), (1.0, 0.0));
    let mut state = pane();
    assert!(!operation.scrollable(&mut state, Some(&Id::unique(8))));
    assert!(operation.scrollable(&mut state, Some(&Id::unique(7))));
    assert_eq!(state.offset, (1.0, 0.0));
}

#[test]
fn the_operation_enters_every_container() {
    let operation = snap_to(Id::new("log"), (0.0, 0.0));
    assert!(operation.container(None));
    assert!(operation.container(Some(&Id::new("log"))));
    assert!(operation.container(Some(&Id::new("other"))));
}

#[test]
fn identifiers_compare_by_what_they_stand_for() {
    assert!(Id::new("a") == Id::new("a"));
    assert!(Id::new("a") != Id::new("b"));
    assert!(Id::unique(1) == Id::unique(1));
    assert!(Id::unique(1) != Id::unique(2));
    assert!(Id::unique(1) != Id::new("1"));
    assert!(Id::new("a").clone() == Id::new("a"));
}
