//! The interaction plane of a surface: the pixel-addressed region in front
//! of a panel, and what it saw of the input sources in the current frame.

use crate::arbitration::{PlaneReport, PlaneReportView};
use crate::input::InputSource;
use crate::units::{physical_size_of, PixelSize, Size2};
use vstd::prelude::*;

verus! {

/// A rectangular region addressed in pixels that tracks the input sources
/// hovering over it and touching it.
#[derive(Debug)]
pub struct InteractionPlane {
    size: Size2,
    pixels: PixelSize,
    enabled: bool,
    seen: PlaneReport,
}

/// The mathematical value of an [`InteractionPlane`].
pub struct InteractionPlaneView {
    /// Physical width and height.
    pub size: Size2,
    /// The addressable pixels are `[0, pixels.x)` by `[0, pixels.y)`.
    pub pixels: PixelSize,
    /// Whether the plane takes input.
    pub enabled: bool,
    /// The hover set, the touch set and the touch edges of the current frame.
    pub seen: PlaneReportView,
}

impl InteractionPlaneView {
    /// The plane made for `pixels`: enabled, with nothing seen yet.
    pub open spec fn fresh(pixels: PixelSize) -> InteractionPlaneView {
        InteractionPlaneView {
            size: physical_size_of(pixels),
            pixels,
            enabled: true,
            seen: PlaneReportView::idle(),
        }
    }

    /// Whether the physical size is that of the pixel ranges, and a disabled
    /// plane shows no activity.
    pub open spec fn wf(self) -> bool {
        &&& self.size == physical_size_of(self.pixels)
        &&& !self.enabled ==> self.seen == PlaneReportView::idle()
    }

    /// Whether the pixel `(x, y)` is addressable on the plane.
    pub open spec fn addressable(self, x: int, y: int) -> bool {
        0 <= x < self.pixels.x && 0 <= y < self.pixels.y
    }

    /// The plane after a resize to `pixels`.
    pub open spec fn resized(self, pixels: PixelSize) -> InteractionPlaneView {
        InteractionPlaneView { size: physical_size_of(pixels), pixels, ..self }
    }

    /// The plane after a frame in which the host reported `report`: an
    /// enabled plane holds the report, a disabled one stays idle.
    pub open spec fn advanced(self, report: PlaneReportView) -> InteractionPlaneView {
        InteractionPlaneView {
            seen: if self.enabled {
                report
            } else {
                PlaneReportView::idle()
            },
            ..self
        }
    }

    /// The plane after it was enabled or disabled: disabling drops what was
    /// seen, and neither changes the geometry.
    pub open spec fn with_enabled(self, enabled: bool) -> InteractionPlaneView {
        InteractionPlaneView {
            enabled,
            seen: if enabled {
                self.seen
            } else {
                PlaneReportView::idle()
            },
            ..self
        }
    }
}

impl View for InteractionPlane {
    type V = InteractionPlaneView;

    closed spec fn view(&self) -> InteractionPlaneView {
        InteractionPlaneView {
            size: self.size,
            pixels: self.pixels,
            enabled: self.enabled,
            seen: self.seen@,
        }
    }
}

impl InteractionPlane {
    /// Makes the plane for a region of `pixels`.
    pub fn create(pixels: PixelSize) -> (plane: InteractionPlane)
        ensures
            plane@ == InteractionPlaneView::fresh(pixels),
            plane@.wf(),
    {
        InteractionPlane {
            size: pixels.physical(),
            pixels,
            enabled: true,
            seen: PlaneReport::idle(),
        }
    }

    /// Gives the plane the size and the pixel ranges of `pixels`.
    pub fn set_size(&mut self, pixels: PixelSize)
        ensures
            final(self)@ == old(self)@.resized(pixels),
            old(self)@.wf() ==> final(self)@.wf(),
    {
        self.size = pixels.physical();
        self.pixels = pixels;
    }

    /// Sets whether the plane takes input.
    pub fn set_enabled(&mut self, enabled: bool)
        ensures
            final(self)@ == old(self)@.with_enabled(enabled),
            old(self)@.wf() ==> final(self)@.wf(),
    {
        self.enabled = enabled;
        if !enabled {
            self.seen = PlaneReport::idle();
        }
    }

    /// Takes in what the host reported of the current frame.
    pub fn update(&mut self, report: PlaneReport)
        ensures
            final(self)@ == old(self)@.advanced(report@),
            old(self)@.wf() ==> final(self)@.wf(),
    {
        if self.enabled {
            self.seen = report;
        } else {
            self.seen = PlaneReport::idle();
        }
    }

    /// The physical width and height.
    pub fn size(&self) -> (size: Size2)
        ensures
            size == self@.size,
    {
        self.size
    }

    /// The pixel size: the exclusive upper ends of the two pixel ranges.
    pub fn pixels(&self) -> (pixels: PixelSize)
        ensures
            pixels == self@.pixels,
    {
        self.pixels
    }

    /// Whether the plane takes input.
    pub fn enabled(&self) -> (enabled: bool)
        ensures
            enabled == self@.enabled,
    {
        self.enabled
    }

    /// Whether the pixel `(x, y)` is addressable on the plane.
    pub fn contains_pixel(&self, x: u32, y: u32) -> (inside: bool)
        ensures
            inside == self@.addressable(x as int, y as int),
    {
        x < self.pixels.x && y < self.pixels.y
    }

    /// What the plane saw in the current frame.
    pub fn seen(&self) -> (report: &PlaneReport)
        ensures
            report@ == self@.seen,
    {
        &self.seen
    }

    /// The sources hovering in front of the plane.
    pub fn hovering_inputs(&self) -> (sources: &Vec<InputSource>)
        ensures
            sources@ == self@.seen.hovering,
    {
        &self.seen.hovering
    }

    /// The sources in active contact with the plane.
    pub fn interacting_inputs(&self) -> (sources: &Vec<InputSource>)
        ensures
            sources@ == self@.seen.touching,
    {
        &self.seen.touching
    }

    /// Whether the plane got its first touch in the current frame.
    pub fn touch_started(&self) -> (started: bool)
        ensures
            started == self@.seen.touch_started,
    {
        self.seen.touch_started
    }

    /// Whether the last touch left the plane in the current frame.
    pub fn touch_stopped(&self) -> (stopped: bool)
        ensures
            stopped == self@.seen.touch_stopped,
    {
        self.seen.touch_stopped
    }
}

} // verus!
