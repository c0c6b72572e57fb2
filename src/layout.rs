//! Contain-fit placement of an image in the available area.
use vstd::prelude::*;

verus! {

/// Where an image is drawn inside the available area, in pixels from the
/// area's top-left corner.
#[derive(Clone, Copy, Debug, PartialEq, Eq, Structural)]
pub struct DisplayRect {
    pub x: u32,
    pub y: u32,
    pub width: u32,
    pub height: u32,
}

/// The largest size of the image's aspect ratio that fits the area: the full
/// width where the image is relatively wider than the area, else the full
/// height. `None` where the area or the image has no height.
pub open spec fn fit_size(aw: u32, ah: u32, iw: u32, ih: u32) -> Option<(u32, u32)> {
    if ah == 0 || ih == 0 {
        None
    } else if iw * ah > aw * ih {
        Some((aw, ((aw * ih) / (iw as int)) as u32))
    } else {
        Some((((ah * iw) / (ih as int)) as u32, ah))
    }
}

/// The contain-fit size of an `image_width` × `image_height` image in an
/// `available_width` × `available_height` area; it never exceeds the area.
pub fn calculate_display_size(
    available_width: u32,
    available_height: u32,
    image_width: u32,
    image_height: u32,
) -> (r: Option<(u32, u32)>)
    ensures
        r == fit_size(available_width, available_height, image_width, image_height),
        r matches Some((w, h)) ==> w <= available_width && h <= available_height,
{
    if available_height == 0 || image_height == 0 {
        return None;
    }
    let aw = available_width as u64;
    let ah = available_height as u64;
    let iw = image_width as u64;
    let ih = image_height as u64;
    assert(iw * ah <= u32::MAX * u32::MAX) by (nonlinear_arith)
        requires
            iw <= u32::MAX,
            ah <= u32::MAX,
    ;
    assert(aw * ih <= u32::MAX * u32::MAX) by (nonlinear_arith)
        requires
            aw <= u32::MAX,
            ih <= u32::MAX,
    ;
    if iw * ah > aw * ih {
        assert((aw * ih) / (iw as int) < ah) by (nonlinear_arith)
            requires
                iw * ah > aw * ih,
                iw > 0,
        ;
        Some((available_width, (aw * ih / iw) as u32))
    } else {
        assert((ah * iw) / (ih as int) <= aw) by (nonlinear_arith)
            requires
                iw * ah <= aw * ih,
                ih > 0,
        ;
        Some(((ah * iw / ih) as u32, available_height))
    }
}

/// The contain-fit rectangle, centred in the area on both axes.
pub fn display_rect(
    available_width: u32,
    available_height: u32,
    image_width: u32,
    image_height: u32,
) -> (r: Option<DisplayRect>)
    ensures
        match fit_size(available_width, available_height, image_width, image_height) {
            Some((w, h)) => r == Some(
                (DisplayRect {
                    x: ((available_width - w) / 2) as u32,
                    y: ((available_height - h) / 2) as u32,
                    width: w,
                    height: h,
                }),
            ),
            None => r is None,
        },
{
    match calculate_display_size(available_width, available_height, image_width, image_height) {
        Some((w, h)) => Some(
            DisplayRect {
                x: (available_width - w) / 2,
                y: (available_height - h) / 2,
                width: w,
                height: h,
            },
        ),
        None => None,
    }
}

} // verus!
