//! Where the application's pop-up menus are placed on the window's overlay.
//! Positions and sizes are `i32` pixels; each step of the placement is
//! computed in `i32`, so the inputs are those on which no step overflows.
use vstd::prelude::*;

verus! {

/// A value kept between two bounds (the upper one wins when they cross).
pub open spec fn clamp_int(v: int, lo: int, hi: int) -> int {
    if v < lo { lo } else if v > hi { hi } else { v }
}

/// The larger of two numbers.
pub open spec fn max_int(a: int, b: int) -> int {
    if a >= b { a } else { b }
}

/// Whether a value fits in an `i32`.
pub open spec fn fits_i32(v: int) -> bool {
    i32::MIN <= v <= i32::MAX
}

/// Whether no step of placing a menu at a point overflows `i32`.
pub open spec fn point_menu_computable(overlay_w: int, overlay_h: int, width: int, est_h: int) -> bool {
    let ow = max_int(overlay_w, width + 24);
    let oh = max_int(overlay_h, est_h + 24);
    &&& fits_i32(width + 24)
    &&& fits_i32(est_h + 24)
    &&& fits_i32(ow - width)
    &&& fits_i32(ow - width - 8)
    &&& fits_i32(oh - est_h)
    &&& fits_i32(oh - est_h - 8)
}

/// Whether no step of placing a menu from a button overflows `i32`.
pub open spec fn anchor_menu_computable(
    anchor: Option<(int, int)>,
    anchor_w: int,
    anchor_h: int,
    overlay_w: int,
    overlay_h: int,
    width: int,
    est_h: int,
    above: bool,
    end_margin: int,
) -> bool {
    let ow = max_int(overlay_w, width + end_margin + 12);
    let oh = max_int(overlay_h, est_h + 24);
    &&& fits_i32(width + end_margin)
    &&& fits_i32(width + end_margin + 12)
    &&& fits_i32(est_h + 24)
    &&& match anchor {
        Some(p) => {
            &&& fits_i32(p.0 + anchor_w)
            &&& fits_i32(p.0 + anchor_w - width)
            &&& if above {
                fits_i32(p.1 - est_h) && fits_i32(p.1 - est_h - 8)
            } else {
                fits_i32(p.1 + anchor_h) && fits_i32(p.1 + anchor_h + 8)
            }
        },
        None => {
            &&& fits_i32(ow - width)
            &&& fits_i32(ow - width - end_margin)
            &&& above ==> fits_i32(oh - est_h) && fits_i32(oh - est_h - 18)
        },
    }
    &&& fits_i32(ow - width)
    &&& fits_i32(ow - width - 12)
    &&& fits_i32(oh - est_h)
    &&& fits_i32(oh - est_h - 12)
}

fn clamp_i32(v: i32, lo: i32, hi: i32) -> (r: i32)
    requires
        lo <= hi,
    ensures
        r as int == clamp_int(v as int, lo as int, hi as int),
{
    if v < lo { lo } else if v > hi { hi } else { v }
}

fn max_i32(a: i32, b: i32) -> (r: i32)
    ensures
        r as int == max_int(a as int, b as int),
{
    if a >= b { a } else { b }
}

/// Where a context menu opened at a point goes: at the point, kept 8 pixels
/// inside the overlay (which counts as at least as large as the menu with
/// its margins).
pub open spec fn spec_point_menu(px: int, py: int, overlay_w: int, overlay_h: int, width: int, est_h: int) -> (int, int) {
    let ow = max_int(overlay_w, width + 24);
    let oh = max_int(overlay_h, est_h + 24);
    (clamp_int(px, 8, max_int(ow - width - 8, 8)), clamp_int(py, 8, max_int(oh - est_h - 8, 8)))
}

/// The position of a context menu opened at a point of the overlay.
pub fn point_menu_position(px: i32, py: i32, overlay_w: i32, overlay_h: i32, width: i32, est_h: i32) -> (r: (i32, i32))
    requires
        point_menu_computable(overlay_w as int, overlay_h as int, width as int, est_h as int),
    ensures
        (r.0 as int, r.1 as int) == spec_point_menu(px as int, py as int, overlay_w as int, overlay_h as int, width as int, est_h as int),
        r.0 >= 8,
        r.1 >= 8,
{
    let ow = max_i32(overlay_w, width + 24);
    let oh = max_i32(overlay_h, est_h + 24);
    let x = clamp_i32(px, 8, max_i32(ow - width - 8, 8));
    let y = clamp_i32(py, 8, max_i32(oh - est_h - 8, 8));
    (x, y)
}

/// Where a menu opened from a button goes: right-aligned with the button,
/// above or below it; without the button's position, at the overlay's end
/// (the given margin from its right edge), near its bottom or top; in
/// either case kept 12 pixels inside the overlay.
pub open spec fn spec_anchor_menu(
    anchor: Option<(int, int)>,
    anchor_w: int,
    anchor_h: int,
    overlay_w: int,
    overlay_h: int,
    width: int,
    est_h: int,
    above: bool,
    end_margin: int,
) -> (int, int) {
    let ow = max_int(overlay_w, width + end_margin + 12);
    let oh = max_int(overlay_h, est_h + 24);
    let (x, y) = match anchor {
        Some(p) => (p.0 + anchor_w - width, if above { p.1 - est_h - 8 } else { p.1 + anchor_h + 8 }),
        None => (ow - width - end_margin, if above { oh - est_h - 18 } else { 12 }),
    };
    (clamp_int(x, 12, max_int(ow - width - 12, 12)), clamp_int(y, 12, max_int(oh - est_h - 12, 12)))
}

/// The position of a menu opened from a button.
pub fn anchor_menu_position(
    anchor: Option<(i32, i32)>,
    anchor_w: i32,
    anchor_h: i32,
    overlay_w: i32,
    overlay_h: i32,
    width: i32,
    est_h: i32,
    above: bool,
    end_margin: i32,
) -> (r: (i32, i32))
    requires
        anchor_menu_computable(
            match anchor {
                Some(p) => Some((p.0 as int, p.1 as int)),
                None => None,
            },
            anchor_w as int,
            anchor_h as int,
            overlay_w as int,
            overlay_h as int,
            width as int,
            est_h as int,
            above,
            end_margin as int,
        ),
    ensures
        (r.0 as int, r.1 as int) == spec_anchor_menu(
            match anchor {
                Some(p) => Some((p.0 as int, p.1 as int)),
                None => None,
            },
            anchor_w as int,
            anchor_h as int,
            overlay_w as int,
            overlay_h as int,
            width as int,
            est_h as int,
            above,
            end_margin as int,
        ),
        r.0 >= 12,
        r.1 >= 12,
{
    let ow = max_i32(overlay_w, width + end_margin + 12);
    let oh = max_i32(overlay_h, est_h + 24);
    let (x, y): (i32, i32) = match anchor {
        Some((ax, ay)) => (ax + anchor_w - width, if above { ay - est_h - 8 } else { ay + anchor_h + 8 }),
        None => (ow - width - end_margin, if above { oh - est_h - 18 } else { 12 }),
    };
    let x2 = clamp_i32(x, 12, max_i32(ow - width - 12, 12));
    let y2 = clamp_i32(y, 12, max_i32(oh - est_h - 12, 12));
    (x2, y2)
}

/// A menu placed at a point stays inside the overlay's margins: it starts
/// at least 8 pixels from the left and top edges, and when the overlay is at
/// least 24 pixels wider (taller) than the menu, it ends at least 8 pixels
/// from the right (bottom) edge.
pub proof fn law_point_menu_inside(px: int, py: int, overlay_w: int, overlay_h: int, width: int, est_h: int)
    requires
        width >= 0,
        est_h >= 0,
    ensures
        ({
            let p = spec_point_menu(px, py, overlay_w, overlay_h, width, est_h);
            &&& p.0 >= 8
            &&& p.1 >= 8
            &&& overlay_w >= width + 24 ==> p.0 + width + 8 <= overlay_w
            &&& overlay_h >= est_h + 24 ==> p.1 + est_h + 8 <= overlay_h
        }),
{
}

} // verus!
