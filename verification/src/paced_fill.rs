//! A display whose solid fills go out one pixel at a time.
//!
//! An 8080-style parallel panel latches a byte on the rising edge of its
//! write strobe, and the ST7789v has a minimum write cycle of 66 ns. A driver
//! that sends a run of one colour can skip setting the data lines and only
//! pulse the strobe, which on a 125 MHz RP2040 outruns that minimum, so the
//! fill arrives as noise. For `Rgb565` over an 8-bit bus that run is taken by
//! every pixel whose two bytes match, black and white among them.
//!
//! So a solid fill, and a clear, are routed onto the contiguous path, which
//! has a colour for every pixel and therefore no run to shorten. The wrapper
//! only decides where a request goes; the panel does the drawing.

use vstd::prelude::*;

verus! {

/// A rectangle of the panel: its top-left corner and its size in pixels.
#[derive(Clone, Copy, Debug, PartialEq, Eq, Structural)]
pub struct Area {
    /// Left edge.
    pub x: i32,
    /// Top edge.
    pub y: i32,
    /// Width in pixels.
    pub width: u32,
    /// Height in pixels.
    pub height: u32,
}

/// What a caller asks of the wrapped display.
#[derive(Clone, Copy, Debug, PartialEq, Eq)]
pub enum DrawRequest<C> {
    /// Individual pixels.
    Pixels,
    /// One colour for every pixel of `area`, supplied by the caller.
    Contiguous { area: Area },
    /// `area` filled with `color`.
    Solid { area: Area, color: C },
    /// The whole display filled with `color`.
    Clear { color: C },
}

/// What the wrapped display is asked to do in turn.
#[derive(Clone, Copy, Debug, PartialEq, Eq)]
pub enum Forward<C> {
    /// The caller's pixels, unchanged.
    Pixels,
    /// The caller's colours for `area`, unchanged.
    Contiguous { area: Area },
    /// One `color` per pixel of `area`, handed over as a contiguous fill.
    EachPixel { area: Area, color: C },
}

/// Where a request goes: a solid fill becomes one colour per pixel of the
/// same area, and a clear becomes that over the whole display; pixels and
/// contiguous fills pass straight through.
pub open spec fn route_spec<C>(request: DrawRequest<C>, bounds: Area) -> Forward<C> {
    match request {
        DrawRequest::Pixels => Forward::Pixels,
        DrawRequest::Contiguous { area } => Forward::Contiguous { area },
        DrawRequest::Solid { area, color } => Forward::EachPixel { area, color },
        DrawRequest::Clear { color } => Forward::EachPixel { area: bounds, color },
    }
}

/// Decides where `request` goes, for a display whose bounding box is
/// `bounds`.
pub fn route<C: Copy>(request: DrawRequest<C>, bounds: Area) -> (f: Forward<C>)
    ensures
        f == route_spec(request, bounds),
{
    match request {
        DrawRequest::Pixels => Forward::Pixels,
        DrawRequest::Contiguous { area } => Forward::Contiguous { area },
        DrawRequest::Solid { area, color } => Forward::EachPixel { area, color },
        DrawRequest::Clear { color } => Forward::EachPixel { area: bounds, color },
    }
}

/// How many pixels `area` covers, and so how many colours a contiguous fill
/// of it takes.
pub open spec fn pixel_count(area: Area) -> nat {
    (area.width as nat) * (area.height as nat)
}

/// How many pixels `area` covers.
pub fn area_pixels(area: Area) -> (n: u64)
    ensures
        n == pixel_count(area),
{
    proof {
        assert(area.width as nat * area.height as nat <= 0xffff_ffff * 0xffff_ffff) by (nonlinear_arith)
            requires
                area.width <= 0xffff_ffff,
                area.height <= 0xffff_ffff,
        ;
    }
    (area.width as u64) * (area.height as u64)
}

/// Wraps a display, replacing its repeated-pixel path with a per-pixel one.
pub struct PacedFill<D> {
    display: D,
}

impl<D> PacedFill<D> {
    /// The display it wraps.
    pub closed spec fn inner(&self) -> D {
        self.display
    }

    /// Wraps `display`.
    pub fn new(display: D) -> (p: PacedFill<D>)
        ensures
            p.inner() == display,
    {
        PacedFill { display }
    }

    /// The wrapped display.
    pub fn display(&self) -> (d: &D)
        ensures
            *d == self.inner(),
    {
        &self.display
    }

    /// The wrapped display, to draw on.
    pub fn display_mut(&mut self) -> (d: &mut D)
        ensures
            *d == old(self).inner(),
            final(self).inner() == *final(d),
    {
        &mut self.display
    }

    /// Gives the display back.
    pub fn into_inner(self) -> (d: D)
        ensures
            d == self.inner(),
    {
        self.display
    }
}

/// A wrapped display is never asked for a solid fill: a solid fill reaches
/// it as one colour per pixel of the area asked for, and a clear as one
/// colour per pixel of the whole display. That is the whole purpose of the
/// wrapper; everything else passes through as it came.
pub proof fn law_no_solid_fill_reaches_the_panel<C>(area: Area, color: C, bounds: Area)
    ensures
        route_spec((DrawRequest::Solid { area, color }), bounds) == (Forward::EachPixel {
            area,
            color,
        }),
        route_spec((DrawRequest::Clear { color }), bounds) == (Forward::EachPixel {
            area: bounds,
            color,
        }),
        route_spec(DrawRequest::<C>::Pixels, bounds) == Forward::<C>::Pixels,
        route_spec((DrawRequest::<C>::Contiguous { area }), bounds) == (Forward::<
            C,
        >::Contiguous { area }),
{
}

} // verus!
