//! Geometry of the centered text-entry popups that the modal flows show
//! over the list view.

use vstd::prelude::*;

verus! {

/// A rectangle on the terminal grid, in cells.
#[derive(Clone, Copy, PartialEq, Eq, Structural, Debug)]
pub struct Rect {
    pub x: u16,
    pub y: u16,
    pub width: u16,
    pub height: u16,
}

/// Height of the one-line title or line-number popup.
pub const TITLE_POPUP_HEIGHT: u16 = 3;

/// Height of the taller body popup.
pub const BODY_POPUP_HEIGHT: u16 = 9;

/// A popup `percent_x / 150` of the enclosing width, of the given height,
/// centered in the enclosing area and contained in it.
fn centered_popup(percent_x: u16, height: u16, r: Rect) -> (p: Rect)
    requires
        percent_x <= 150,
        r.height >= height,
        r.x + r.width <= u16::MAX,
        r.y + r.height <= u16::MAX,
    ensures
        p.width == r.width * percent_x / 150,
        p.height == height,
        p.x == r.x + (r.width - p.width) / 2,
        p.y == r.y + (r.height - height) / 2,
        r.x <= p.x && p.x + p.width <= r.x + r.width,
        r.y <= p.y && p.y + p.height <= r.y + r.height,
{
    proof {
        vstd::arithmetic::mul::lemma_mul_inequality(percent_x as int, 150, r.width as int);
        vstd::arithmetic::div_mod::lemma_div_multiples_vanish(r.width as int, 150);
        vstd::arithmetic::div_mod::lemma_div_is_ordered(
            r.width as int * percent_x as int,
            r.width as int * 150,
            150,
        );
        assert(r.width as int * percent_x as int == percent_x as int * r.width as int)
            by (nonlinear_arith);
    }
    let popup_width = ((r.width as u32) * (percent_x as u32) / 150) as u16;
    proof {
        vstd::arithmetic::div_mod::lemma_div_is_ordered(
            0,
            (r.width - popup_width) as int,
            2,
        );
        vstd::arithmetic::div_mod::lemma_div_is_ordered(
            (r.width - popup_width) as int,
            2 * (r.width - popup_width) as int,
            2,
        );
        vstd::arithmetic::div_mod::lemma_div_multiples_vanish(
            (r.width - popup_width) as int,
            2,
        );
        vstd::arithmetic::div_mod::lemma_div_is_ordered(
            0,
            (r.height - height) as int,
            2,
        );
        vstd::arithmetic::div_mod::lemma_div_is_ordered(
            (r.height - height) as int,
            2 * (r.height - height) as int,
            2,
        );
        vstd::arithmetic::div_mod::lemma_div_multiples_vanish((r.height - height) as int, 2);
    }
    let popup_x = r.x + (r.width - popup_width) / 2;
    let popup_y = r.y + (r.height - height) / 2;
    Rect { x: popup_x, y: popup_y, width: popup_width, height }
}

/// The area of the one-line input popup (titles and line numbers).
pub fn note_title_input(percent_x: u16, r: Rect) -> (p: Rect)
    requires
        percent_x <= 150,
        r.height >= TITLE_POPUP_HEIGHT,
        r.x + r.width <= u16::MAX,
        r.y + r.height <= u16::MAX,
    ensures
        p.width == r.width * percent_x / 150,
        p.height == TITLE_POPUP_HEIGHT,
        p.x == r.x + (r.width - p.width) / 2,
        p.y == r.y + (r.height - TITLE_POPUP_HEIGHT) / 2,
        r.x <= p.x && p.x + p.width <= r.x + r.width,
        r.y <= p.y && p.y + p.height <= r.y + r.height,
{
    centered_popup(percent_x, TITLE_POPUP_HEIGHT, r)
}

/// The area of the taller body input popup.
pub fn note_body_input(percent_x: u16, r: Rect) -> (p: Rect)
    requires
        percent_x <= 150,
        r.height >= BODY_POPUP_HEIGHT,
        r.x + r.width <= u16::MAX,
        r.y + r.height <= u16::MAX,
    ensures
        p.width == r.width * percent_x / 150,
        p.height == BODY_POPUP_HEIGHT,
        p.x == r.x + (r.width - p.width) / 2,
        p.y == r.y + (r.height - BODY_POPUP_HEIGHT) / 2,
        r.x <= p.x && p.x + p.width <= r.x + r.width,
        r.y <= p.y && p.y + p.height <= r.y + r.height,
{
    centered_popup(percent_x, BODY_POPUP_HEIGHT, r)
}

} // verus!
