use geomcanvas::fixed::Fixed;
use geomcanvas::ui::docking::{dock, layout, DockingDirection, Rect};

fn n(value: i32) -> Fixed {
    Fixed::from_int(value)
}

fn rect(x: i32, y: i32, width: i32, height: i32) -> Rect<Fixed> {
    Rect { x: n(x), y: n(y), width: n(width), height: n(height) }
}

#[test]
fn a_panel_at_the_top() {
    let mut free = rect(10, 20, 800, 600);
    assert_eq!(dock(&mut free, DockingDirection::Top, n(50)), rect(10, 20, 800, 50));
    assert_eq!(free, rect(10, 70, 800, 550));
}

#[test]
fn a_panel_at_the_bottom() {
    let mut free = rect(10, 20, 800, 600);
    assert_eq!(dock(&mut free, DockingDirection::Bottom, n(50)), rect(10, 570, 800, 50));
    assert_eq!(free, rect(10, 20, 800, 550));
}

#[test]
fn a_panel_at_the_left() {
    let mut free = rect(10, 20, 800, 600);
    assert_eq!(dock(&mut free, DockingDirection::Left, n(200)), rect(10, 20, 200, 600));
    assert_eq!(free, rect(210, 20, 600, 600));
}

#[test]
fn a_panel_at_the_right() {
    let mut free = rect(10, 20, 800, 600);
    assert_eq!(dock(&mut free, DockingDirection::Right, n(200)), rect(610, 20, 200, 600));
    assert_eq!(free, rect(10, 20, 600, 600));
}

#[test]
fn panels_are_docked_in_their_order() {
    let mut free = rect(0, 19, 756, 737);
    let places = layout(
        &mut free,
        &[
            (DockingDirection::Top, n(30)),
            (DockingDirection::Left, n(100)),
            (DockingDirection::Bottom, n(40)),
            (DockingDirection::Right, n(56)),
            (DockingDirection::Left, n(100)),
        ],
    );
    assert_eq!(
        places,
        vec![
            rect(0, 19, 756, 30),
            rect(0, 49, 100, 707),
            rect(100, 716, 656, 40),
            rect(700, 49, 56, 667),
            rect(100, 49, 100, 667),
        ]
    );
    assert_eq!(free, rect(200, 49, 500, 667));
}

#[test]
fn no_panels_leave_everything_free() {
    let mut free = rect(1, 2, 3, 4);
    assert!(layout(&mut free, &[]).is_empty());
    assert_eq!(free, rect(1, 2, 3, 4));
}

#[test]
fn directions_compare() {
    assert_eq!(DockingDirection::Top, DockingDirection::Top);
    assert_ne!(DockingDirection::Left, DockingDirection::Right);
}
