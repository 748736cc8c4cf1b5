use viewport_canvas::{FrameInput, FramePlan, Hover, InteractionMode, ViewportController};

type Cutout = (i32, i32, i32, i32);

fn quiet() -> FrameInput {
    FrameInput {
        hover: Hover::Inside,
        scroll_beyond_dead_zone: false,
        drag_started: false,
        drag_released: false,
        reset_requested: false,
    }
}

const NOTHING: FramePlan = FramePlan { reset: false, zoom: false, pan: false };

#[test]
fn starts_at_rest() {
    let v: ViewportController<Cutout> = ViewportController::new((0, 0, 10, 10));
    assert_eq!(v.mode(), InteractionMode::Normal);
    assert_eq!(*v.cutout(), (0, 0, 10, 10));
}

#[test]
fn reset_twice_is_reset_once() {
    let mut once: ViewportController<Cutout> = ViewportController::new((5, 5, 7, 9));
    let mut twice: ViewportController<Cutout> = ViewportController::new((5, 5, 7, 9));
    once.reset((0, 0, 100, 100));
    twice.reset((0, 0, 100, 100));
    twice.reset((0, 0, 100, 100));
    assert_eq!(*once.cutout(), *twice.cutout());
    assert_eq!(once.mode(), twice.mode());
    assert_eq!(*once.cutout(), (0, 0, 100, 100));
}

#[test]
fn scroll_zooms_only_with_hover_and_beyond_dead_zone() {
    let mut v: ViewportController<Cutout> = ViewportController::new((0, 0, 10, 10));
    let plan = v.step(FrameInput { scroll_beyond_dead_zone: true, ..quiet() });
    assert_eq!(plan, FramePlan { reset: false, zoom: true, pan: false });
    let plan = v.step(FrameInput { scroll_beyond_dead_zone: true, hover: Hover::Outside, ..quiet() });
    assert!(plan.zoom);
    let plan = v.step(FrameInput { scroll_beyond_dead_zone: true, hover: Hover::Absent, ..quiet() });
    assert_eq!(plan, NOTHING);
    let plan = v.step(quiet());
    assert_eq!(plan, NOTHING);
    assert_eq!(v.mode(), InteractionMode::Normal);
}

#[test]
fn reset_request_at_rest() {
    let mut v: ViewportController<Cutout> = ViewportController::new((0, 0, 10, 10));
    let plan = v.step(FrameInput { reset_requested: true, ..quiet() });
    assert_eq!(plan, FramePlan { reset: true, zoom: false, pan: false });
    assert_eq!(*v.cutout(), (0, 0, 10, 10));
}

#[test]
fn drag_lifecycle() {
    let mut v: ViewportController<Cutout> = ViewportController::new((0, 0, 10, 10));
    let plan = v.step(FrameInput { drag_started: true, ..quiet() });
    assert_eq!(plan, NOTHING);
    assert_eq!(v.mode(), InteractionMode::Dragging);

    let plan = v.step(quiet());
    assert_eq!(plan, FramePlan { reset: false, zoom: false, pan: true });
    v.set_cutout((1, 2, 11, 12));
    assert_eq!(v.mode(), InteractionMode::Dragging);

    // scrolling and reset requests are ignored while dragging
    let plan = v.step(FrameInput { scroll_beyond_dead_zone: true, reset_requested: true, ..quiet() });
    assert_eq!(plan, FramePlan { reset: false, zoom: false, pan: true });

    let plan = v.step(FrameInput { drag_released: true, ..quiet() });
    assert_eq!(plan, NOTHING);
    assert_eq!(v.mode(), InteractionMode::Normal);
    assert_eq!(*v.cutout(), (1, 2, 11, 12));
}

#[test]
fn drag_outside_drawing_area_does_not_start() {
    let mut v: ViewportController<Cutout> = ViewportController::new((0, 0, 10, 10));
    v.step(FrameInput { drag_started: true, hover: Hover::Outside, ..quiet() });
    assert_eq!(v.mode(), InteractionMode::Normal);
    v.step(FrameInput { drag_started: true, hover: Hover::Absent, ..quiet() });
    assert_eq!(v.mode(), InteractionMode::Normal);
}

#[test]
fn release_at_rest_changes_nothing() {
    let mut v: ViewportController<Cutout> = ViewportController::new((0, 0, 10, 10));
    let plan = v.step(FrameInput { drag_released: true, ..quiet() });
    assert_eq!(plan, NOTHING);
    assert_eq!(v.mode(), InteractionMode::Normal);
}
