use cosmic_shot::selection::{
    apply_escape, apply_press, apply_release, OverlayAction, OverlayEvent, OverlayModel, SelectionState,
};

#[derive(Debug, Clone, Copy, PartialEq)]
struct Point {
    x: f32,
    y: f32,
}

impl Point {
    fn new(x: f32, y: f32) -> Self {
        Point { x, y }
    }
}

#[derive(Debug, Clone, Copy, PartialEq)]
struct Rectangle {
    x: f32,
    y: f32,
    width: f32,
    height: f32,
}

/// The overlay's rectangle from two corners: top-left origin, sides at least 1.
fn normalize_rect(a: Point, b: Point) -> Rectangle {
    Rectangle {
        x: a.x.min(b.x),
        y: a.y.min(b.y),
        width: (a.x - b.x).abs().max(1.0),
        height: (a.y - b.y).abs().max(1.0),
    }
}

type State = SelectionState<Point, Rectangle>;

#[test]
fn selection_idle_to_drawing_on_press() {
    let s: State = apply_press(SelectionState::Idle, Point::new(100.0, 200.0));
    assert_eq!(s, SelectionState::Drawing { start: Point::new(100.0, 200.0) });
}

#[test]
fn selection_drawing_to_selected_on_release() {
    let s: State = apply_release(
        SelectionState::Drawing { start: Point::new(10.0, 20.0) },
        Point::new(110.0, 80.0),
        normalize_rect,
    );
    assert_eq!(
        s,
        SelectionState::Selected { rect: Rectangle { x: 10.0, y: 20.0, width: 100.0, height: 60.0 } }
    );
}

#[test]
fn selection_escape_from_idle_signals_close() {
    let (_, should_close) = apply_escape::<Point, Rectangle>(SelectionState::Idle);
    assert!(should_close);
}

#[test]
fn selection_escape_from_drawing_resets_to_idle() {
    let (next, should_close) =
        apply_escape::<Point, Rectangle>(SelectionState::Drawing { start: Point::new(0.0, 0.0) });
    assert_eq!(next, SelectionState::Idle);
    assert!(!should_close);
}

#[test]
fn selection_escape_from_selected_resets_to_idle() {
    let (next, should_close) = apply_escape::<Point, Rectangle>(SelectionState::Selected {
        rect: Rectangle { x: 0.0, y: 0.0, width: 100.0, height: 100.0 },
    });
    assert_eq!(next, SelectionState::Idle);
    assert!(!should_close);
}

#[test]
fn press_while_selected_keeps_selection() {
    let selected: State = SelectionState::Selected { rect: Rectangle { x: 1.0, y: 2.0, width: 3.0, height: 4.0 } };
    assert_eq!(apply_press(selected, Point::new(50.0, 50.0)), selected);
    let drawing: State = SelectionState::Drawing { start: Point::new(5.0, 5.0) };
    assert_eq!(apply_press(drawing, Point::new(50.0, 50.0)), drawing);
}

#[test]
fn release_while_idle_keeps_idle() {
    let s: State = apply_release(SelectionState::Idle, Point::new(1.0, 1.0), normalize_rect);
    assert_eq!(s, SelectionState::Idle);
}

#[test]
fn second_escape_always_closes() {
    let drawing: State = SelectionState::Drawing { start: Point::new(3.0, 4.0) };
    let (next, first_close) = apply_escape(drawing);
    let (_, second_close) = apply_escape(next);
    assert!(!first_close);
    assert!(second_close);
}

#[test]
fn overlay_drag_selects_and_escape_exits() {
    let mut model: OverlayModel<Point, Rectangle> = OverlayModel::new(Point::new(0.0, 0.0));
    assert_eq!(model.update(OverlayEvent::CursorMoved(Point::new(110.0, 80.0)), normalize_rect), OverlayAction::Continue);
    assert_eq!(model.update(OverlayEvent::MousePressed, normalize_rect), OverlayAction::Continue);
    assert_eq!(model.selection, SelectionState::Drawing { start: Point::new(110.0, 80.0) });
    model.update(OverlayEvent::CursorMoved(Point::new(10.0, 20.0)), normalize_rect);
    model.update(OverlayEvent::MouseReleased, normalize_rect);
    assert_eq!(
        model.selection,
        SelectionState::Selected { rect: Rectangle { x: 10.0, y: 20.0, width: 100.0, height: 60.0 } }
    );
    assert_eq!(model.update(OverlayEvent::Other, normalize_rect), OverlayAction::Continue);
    assert_eq!(model.update(OverlayEvent::EscapePressed, normalize_rect), OverlayAction::Continue);
    assert_eq!(model.selection, SelectionState::Idle);
    assert_eq!(model.update(OverlayEvent::EscapePressed, normalize_rect), OverlayAction::Exit);
}
