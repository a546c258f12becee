use note_rust::layout::{note_body_input, note_title_input, Rect};

#[test]
fn title_popup_is_centered_with_height_three() {
    let screen = Rect { x: 0, y: 0, width: 100, height: 30 };
    let p = note_title_input(60, screen);
    assert_eq!(p, Rect { x: 30, y: 13, width: 40, height: 3 });
}

#[test]
fn body_popup_is_centered_with_height_nine() {
    let screen = Rect { x: 0, y: 0, width: 100, height: 30 };
    let p = note_body_input(60, screen);
    assert_eq!(p, Rect { x: 30, y: 10, width: 40, height: 9 });
}

#[test]
fn popup_stays_inside_an_offset_area() {
    let area = Rect { x: 5, y: 7, width: 51, height: 20 };
    let p = note_title_input(60, area);
    assert!(p.x >= area.x);
    assert!(p.y >= area.y);
    assert!(p.x + p.width <= area.x + area.width);
    assert!(p.y + p.height <= area.y + area.height);
    assert_eq!(p.width, 51 * 60 / 150);
}
