use xpui_rp2040::paced_fill::{area_pixels, route, Area, DrawRequest, Forward, PacedFill};

const SCREEN: Area = Area {
    x: 0,
    y: 0,
    width: 320,
    height: 240,
};

#[test]
fn a_solid_fill_goes_out_one_colour_per_pixel() {
    let area = Area {
        x: 3,
        y: 4,
        width: 5,
        height: 6,
    };
    assert_eq!(
        route(DrawRequest::Solid { area, color: 0xffffu16 }, SCREEN),
        Forward::EachPixel {
            area,
            color: 0xffff
        }
    );
}

#[test]
fn a_clear_covers_the_whole_display() {
    assert_eq!(
        route(DrawRequest::Clear { color: 0u16 }, SCREEN),
        Forward::EachPixel {
            area: SCREEN,
            color: 0
        }
    );
}

#[test]
fn pixels_and_contiguous_fills_pass_through() {
    assert_eq!(
        route(DrawRequest::<u16>::Pixels, SCREEN),
        Forward::<u16>::Pixels
    );
    let area = Area {
        x: -2,
        y: 1,
        width: 2,
        height: 2,
    };
    assert_eq!(
        route(DrawRequest::<u16>::Contiguous { area }, SCREEN),
        Forward::<u16>::Contiguous { area }
    );
}

#[test]
fn a_whole_screen_is_seventy_six_thousand_eight_hundred_pixels() {
    assert_eq!(area_pixels(SCREEN), 76_800);
    assert_eq!(
        area_pixels(Area {
            x: 0,
            y: 0,
            width: u32::MAX,
            height: u32::MAX
        }),
        (u32::MAX as u64) * (u32::MAX as u64)
    );
}

#[test]
fn the_wrapper_keeps_its_display() {
    let mut p = PacedFill::new(vec![1u8, 2, 3]);
    assert_eq!(p.display(), &vec![1, 2, 3]);
    p.display_mut().push(4);
    assert_eq!(p.into_inner(), vec![1, 2, 3, 4]);
}
