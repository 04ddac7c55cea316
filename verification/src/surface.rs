//! One drawable region of a remote application as a panel in space.

use crate::arbitration::{arbitrate, frame_events, PlaneReport, PlaneReportView, PointerEvent};
use crate::plane::{InteractionPlane, InteractionPlaneView};
use crate::units::{physical_size_of, Bounds3, Geometry, Length, PixelOffset, PixelSize, Point3};
use crate::units::{Size2, UNITS_PER_PIXEL};
use vstd::prelude::*;

verus! {

/// How far to the left of a surface's origin its keyboard handler sits:
/// a hundredth of a metre.
pub const KEYBOARD_INSET: i64 = 30_000;

/// Names a drawable region within one session.
#[derive(Clone, Debug, PartialEq, Eq, Hash)]
pub enum SurfaceId {
    /// The root surface of the session.
    Toplevel,
    /// A child surface, by the identifier the host gave it.
    Child(String),
}

/// The mathematical value of a [`SurfaceId`].
pub enum SurfaceIdView {
    Toplevel,
    Child(Seq<char>),
}

impl View for SurfaceId {
    type V = SurfaceIdView;

    open spec fn view(&self) -> SurfaceIdView {
        match self {
            SurfaceId::Toplevel => SurfaceIdView::Toplevel,
            SurfaceId::Child(uid) => SurfaceIdView::Child(uid@),
        }
    }
}

impl SurfaceId {
    /// A copy of this identifier.
    pub fn duplicate(&self) -> (r: SurfaceId)
        ensures
            r@ == self@,
    {
        match self {
            SurfaceId::Toplevel => SurfaceId::Toplevel,
            SurfaceId::Child(uid) => SurfaceId::Child(uid.clone()),
        }
    }

    /// Whether the two identifiers name the same region.
    pub fn same(&self, other: &SurfaceId) -> (r: bool)
        ensures
            r == (self@ == other@),
    {
        match (self, other) {
            (SurfaceId::Toplevel, SurfaceId::Toplevel) => true,
            (SurfaceId::Child(a), SurfaceId::Child(b)) => *a == *b,
            _ => false,
        }
    }
}

/// Why a surface could not be built.
#[derive(Clone, Copy, Debug, PartialEq, Eq, Structural)]
pub enum SurfaceError {
    /// A side of the pixel size is zero, or the thickness is not positive.
    InvalidGeometry,
    /// The surface would lie deeper in its tree than a length can say.
    DepthOutOfRange,
    /// The surface to place a child on is not in the window.
    UnknownParent,
}

/// Where a surface's own frame lies.
#[derive(Clone, Copy, Debug, PartialEq, Eq, Structural)]
pub struct Frame {
    /// The origin of the frame, in the frame of the parent.
    pub position: Point3,
    /// How far the frame lies in front of the root frame of its tree.
    pub depth: Length,
}

/// Whether a surface can be built from this pixel size and thickness.
pub open spec fn valid_geometry(px_size: PixelSize, thickness: Length) -> bool {
    !px_size.is_empty() && thickness.units > 0
}

/// The box a panel of pixel size `px_size` and thickness `thickness` fills
/// in its surface's frame: its top left corner at the origin, its front
/// face in the plane of depth zero.
pub open spec fn panel_bounds_of(px_size: PixelSize, thickness: Length) -> Bounds3 {
    Bounds3 {
        min: Point3 {
            x: Length { units: 0 },
            y: Length { units: (-(px_size.y * UNITS_PER_PIXEL)) as i64 },
            z: Length { units: (-thickness.units) as i64 },
        },
        max: Point3 {
            x: Length { units: (px_size.x * UNITS_PER_PIXEL) as i64 },
            y: Length { units: 0 },
            z: Length { units: 0 },
        },
    }
}

/// The centre of the interaction plane of a surface of pixel size `px_size`
/// in the surface's frame: half the width to the right of the origin, half
/// the height below it, in the plane of depth zero.
pub open spec fn plane_centre_of(px_size: PixelSize) -> Point3 {
    Point3 {
        x: Length { units: (px_size.x * (UNITS_PER_PIXEL / 2)) as i64 },
        y: Length { units: (-(px_size.y * (UNITS_PER_PIXEL / 2))) as i64 },
        z: Length { units: 0 },
    }
}

/// Where the keyboard handler of a surface of pixel size `px_size` sits:
/// just left of the panel, at half its height.
pub open spec fn keyboard_anchor_of(px_size: PixelSize) -> Point3 {
    Point3 {
        x: Length { units: (-KEYBOARD_INSET) as i64 },
        y: Length { units: (-(px_size.y * (UNITS_PER_PIXEL / 2))) as i64 },
        z: Length { units: 0 },
    }
}

/// Where a surface at pixel offset `px_offset` lies in the frame of a parent
/// of thickness `parent_thickness`: at the offset, in front of the parent by
/// the parent's thickness.
pub open spec fn offset_position(px_offset: PixelOffset, parent_thickness: Length) -> Point3 {
    Point3 {
        x: Length { units: (px_offset.x * UNITS_PER_PIXEL) as i64 },
        y: Length { units: (px_offset.y * UNITS_PER_PIXEL) as i64 },
        z: parent_thickness,
    }
}

/// The mathematical value of a [`Surface`].
pub struct SurfaceView {
    pub id: SurfaceIdView,
    /// The origin of the surface's frame, in the frame of its parent.
    pub position: Point3,
    /// How far the surface lies in front of the root frame of its tree.
    pub depth: Length,
    /// The thickness of the parent; zero for a root.
    pub parent_thickness: Length,
    pub thickness: Length,
    pub px_size: PixelSize,
    pub physical_size: Size2,
    pub plane: InteractionPlaneView,
    pub enabled: bool,
}

impl SurfaceView {
    /// The surface as built at `position` with no parent.
    pub open spec fn fresh(
        id: SurfaceIdView,
        position: Point3,
        px_size: PixelSize,
        thickness: Length,
    ) -> SurfaceView {
        SurfaceView {
            id,
            position,
            depth: Length { units: 0 },
            parent_thickness: Length { units: 0 },
            thickness,
            px_size,
            physical_size: physical_size_of(px_size),
            plane: InteractionPlaneView::fresh(px_size),
            enabled: true,
        }
    }

    /// The surface as built for the child `uid` of `parent`.
    pub open spec fn fresh_child(
        parent: SurfaceView,
        uid: Seq<char>,
        geometry: Geometry,
        thickness: Length,
    ) -> SurfaceView {
        SurfaceView {
            depth: Length { units: (parent.depth.units + parent.thickness.units) as i64 },
            parent_thickness: parent.thickness,
            ..SurfaceView::fresh(
                SurfaceIdView::Child(uid),
                offset_position(geometry.origin, parent.thickness),
                geometry.size,
                thickness,
            )
        }
    }

    /// What holds of every surface: it has a positive thickness, lies at or
    /// in front of its root, has the physical size of its pixel size, and
    /// its plane has its pixel size and is enabled when it is.
    pub open spec fn wf(self) -> bool {
        &&& self.thickness.units > 0
        &&& self.depth.units >= 0
        &&& self.parent_thickness.units >= 0
        &&& self.physical_size == physical_size_of(self.px_size)
        &&& self.plane.wf()
        &&& self.plane.pixels == self.px_size
        &&& self.plane.enabled == self.enabled
    }

    /// Whether the surface is placed as a child of `parent`: in front of
    /// it by its thickness.
    pub open spec fn is_child_of(self, parent: SurfaceView) -> bool {
        &&& self.parent_thickness == parent.thickness
        &&& self.depth.units == parent.depth.units + parent.thickness.units
    }

    /// The surface after a resize to `px_size`.
    pub open spec fn resized(self, px_size: PixelSize) -> SurfaceView {
        SurfaceView {
            px_size,
            physical_size: physical_size_of(px_size),
            plane: self.plane.resized(px_size),
            ..self
        }
    }

    /// The surface after it was moved to the pixel offset `px_offset`.
    pub open spec fn moved(self, px_offset: PixelOffset) -> SurfaceView {
        SurfaceView { position: offset_position(px_offset, self.parent_thickness), ..self }
    }

    /// The surface after a frame in which the host reported `report`.
    pub open spec fn advanced(self, report: PlaneReportView) -> SurfaceView {
        SurfaceView { plane: self.plane.advanced(report), ..self }
    }

    /// The surface after it was enabled or disabled.
    pub open spec fn with_enabled(self, enabled: bool) -> SurfaceView {
        SurfaceView { plane: self.plane.with_enabled(enabled), enabled, ..self }
    }

    /// The events the surface sends in a frame in which the host reported
    /// `report`: those of the report if the surface is enabled, none if not.
    pub open spec fn events(self, report: PlaneReportView) -> Seq<PointerEvent> {
        frame_events(self.plane.advanced(report).seen)
    }
}

/// One drawable region: its place, its size, its panel and its interaction
/// plane.
#[derive(Debug)]
pub struct Surface {
    id: SurfaceId,
    position: Point3,
    depth: Length,
    parent_thickness: Length,
    thickness: Length,
    px_size: PixelSize,
    physical_size: Size2,
    touch_plane: InteractionPlane,
    enabled: bool,
}

impl View for Surface {
    type V = SurfaceView;

    closed spec fn view(&self) -> SurfaceView {
        SurfaceView {
            id: self.id@,
            position: self.position,
            depth: self.depth,
            parent_thickness: self.parent_thickness,
            thickness: self.thickness,
            px_size: self.px_size,
            physical_size: self.physical_size,
            plane: self.touch_plane@,
            enabled: self.enabled,
        }
    }
}

impl Surface {
    /// Builds the surface `id` at `position` in its parent's frame, with the
    /// given pixel size and thickness. Fails exactly when a side of the
    /// pixel size is zero or the thickness is not positive.
    pub fn create(position: Point3, id: SurfaceId, px_size: PixelSize, thickness: Length) -> (r:
        Result<Surface, SurfaceError>)
        ensures
            r is Ok <==> valid_geometry(px_size, thickness),
            r matches Ok(surface) ==> surface@ == SurfaceView::fresh(
                id@,
                position,
                px_size,
                thickness,
            ) && surface@.wf() && surface@.physical_size.width.is_metres(
                px_size.x as int,
                crate::units::PPM as int,
            ) && surface@.physical_size.height.is_metres(
                px_size.y as int,
                crate::units::PPM as int,
            ) && surface@.physical_size.width.units > 0 && surface@.physical_size.height.units
                > 0,
            r matches Err(e) ==> e == SurfaceError::InvalidGeometry,
    {
        if px_size.x == 0 || px_size.y == 0 || thickness.units <= 0 {
            return Err(SurfaceError::InvalidGeometry);
        }
        let physical_size = px_size.physical();
        let touch_plane = InteractionPlane::create(px_size);
        Ok(
            Surface {
                id,
                position,
                depth: Length::zero(),
                parent_thickness: Length::zero(),
                thickness,
                px_size,
                physical_size,
                touch_plane,
                enabled: true,
            },
        )
    }

    /// Builds the child `uid` of `parent` from the geometry the host gave
    /// for it. The child lies in front of its parent by the parent's
    /// thickness, so its depth is strictly greater than its parent's.
    pub fn new_child(parent: &Surface, uid: String, geometry: &Geometry, thickness: Length) -> (r:
        Result<Surface, SurfaceError>)
        requires
            parent@.wf(),
        ensures
            r is Ok <==> valid_geometry(geometry.size, thickness) && parent@.depth.units
                + parent@.thickness.units <= i64::MAX,
            r matches Ok(surface) ==> surface@ == SurfaceView::fresh_child(
                parent@,
                uid@,
                *geometry,
                thickness,
            ) && surface@.wf() && surface@.is_child_of(parent@) && surface@.depth.units
                > parent@.depth.units,
            r matches Err(e) ==> e == if valid_geometry(geometry.size, thickness) {
                SurfaceError::DepthOutOfRange
            } else {
                SurfaceError::InvalidGeometry
            },
    {
        let position = Point3 {
            x: Length::from_pixel_offset(geometry.origin.x),
            y: Length::from_pixel_offset(geometry.origin.y),
            z: parent.thickness,
        };
        match Surface::create(position, SurfaceId::Child(uid), geometry.size, thickness) {
            Ok(mut surface) => {
                match parent.depth.units.checked_add(parent.thickness.units) {
                    Some(depth) => {
                        surface.depth = Length { units: depth };
                        surface.parent_thickness = parent.thickness;
                        Ok(surface)
                    },
                    None => Err(SurfaceError::DepthOutOfRange),
                }
            },
            Err(e) => Err(e),
        }
    }

    /// Runs one frame: takes in what the host reported of the interaction
    /// plane and decides the pointer events to send for this region, in
    /// order. A disabled surface sends none.
    pub fn update(&mut self, report: PlaneReport) -> (events: Vec<PointerEvent>)
        ensures
            final(self)@ == old(self)@.advanced(report@),
            events@ == old(self)@.events(report@),
            old(self)@.wf() ==> final(self)@.wf(),
    {
        self.touch_plane.update(report);
        arbitrate(self.touch_plane.seen())
    }

    /// Moves the surface to a pixel offset in its parent, keeping it in
    /// front of the parent by the parent's thickness.
    pub fn set_offset(&mut self, px_offset: PixelOffset)
        ensures
            final(self)@ == old(self)@.moved(px_offset),
            old(self)@.wf() ==> final(self)@.wf(),
    {
        self.position = Point3 {
            x: Length::from_pixel_offset(px_offset.x),
            y: Length::from_pixel_offset(px_offset.y),
            z: self.parent_thickness,
        };
    }

    /// Gives the surface a new pixel size: the physical size, the panel and
    /// the interaction plane follow; identity, place and thickness stay.
    pub fn resize(&mut self, px_size: PixelSize)
        ensures
            final(self)@ == old(self)@.resized(px_size),
            final(self)@.physical_size.width.is_metres(px_size.x as int, crate::units::PPM as int),
            final(self)@.physical_size.height.is_metres(px_size.y as int, crate::units::PPM as int),
            old(self)@.wf() ==> final(self)@.wf(),
    {
        let physical_size = px_size.physical();
        self.touch_plane.set_size(px_size);
        self.px_size = px_size;
        self.physical_size = physical_size;
    }

    /// Shows or hides the surface and lets its plane take input or not.
    /// Geometry and place stay as they are.
    pub fn set_enabled(&mut self, enabled: bool)
        ensures
            final(self)@ == old(self)@.with_enabled(enabled),
            old(self)@.wf() ==> final(self)@.wf(),
    {
        self.touch_plane.set_enabled(enabled);
        self.enabled = enabled;
    }

    /// The frame of the surface: where children are placed.
    pub fn root(&self) -> (frame: Frame)
        ensures
            frame == (Frame { position: self@.position, depth: self@.depth }),
    {
        Frame { position: self.position, depth: self.depth }
    }

    /// The box of the interaction field in the surface's frame. It is the
    /// box the panel fills.
    pub fn field(&self) -> (bounds: Bounds3)
        requires
            self@.wf(),
        ensures
            bounds == panel_bounds_of(self@.px_size, self@.thickness),
            bounds.max.z.units == 0,
            bounds.max.x == self@.physical_size.width,
            bounds.min.y.units == -self@.physical_size.height.units,
            bounds.max.z.units - bounds.min.z.units == self@.thickness.units,
    {
        let height: i64 = self.physical_size.height.units;
        Bounds3 {
            min: Point3 {
                x: Length::zero(),
                y: Length { units: -height },
                z: Length { units: -self.thickness.units },
            },
            max: Point3 { x: self.physical_size.width, y: Length::zero(), z: Length::zero() },
        }
    }

    /// The centre of the interaction plane in the surface's frame.
    pub fn plane_centre(&self) -> (centre: Point3)
        ensures
            centre == plane_centre_of(self@.px_size),
            self@.wf() ==> 2 * centre.x.units == self@.physical_size.width.units,
            self@.wf() ==> 2 * centre.y.units == -self@.physical_size.height.units,
            centre.z.units == 0,
    {
        let columns: i64 = self.px_size.x as i64;
        let rows: i64 = self.px_size.y as i64;
        Point3 {
            x: Length { units: columns * (UNITS_PER_PIXEL / 2) },
            y: Length { units: -(rows * (UNITS_PER_PIXEL / 2)) },
            z: Length::zero(),
        }
    }

    /// Where the keyboard handler of the surface sits in its frame.
    pub fn keyboard_anchor(&self) -> (anchor: Point3)
        ensures
            anchor == keyboard_anchor_of(self@.px_size),
    {
        let rows: i64 = self.px_size.y as i64;
        Point3 {
            x: Length { units: -KEYBOARD_INSET },
            y: Length { units: -(rows * (UNITS_PER_PIXEL / 2)) },
            z: Length::zero(),
        }
    }

    /// The interaction plane of the surface.
    pub fn touch_plane(&self) -> (plane: &InteractionPlane)
        ensures
            plane@ == self@.plane,
    {
        &self.touch_plane
    }

    /// The physical size: the pixel size divided by the screen density.
    pub fn physical_size(&self) -> (size: Size2)
        ensures
            size == self@.physical_size,
    {
        self.physical_size
    }

    /// The pixel size.
    pub fn px_size(&self) -> (size: PixelSize)
        ensures
            size == self@.px_size,
    {
        self.px_size
    }

    /// The thickness of the panel.
    pub fn thickness(&self) -> (thickness: Length)
        ensures
            thickness == self@.thickness,
    {
        self.thickness
    }

    /// The identifier of the drawable region.
    pub fn id(&self) -> (id: &SurfaceId)
        ensures
            id@ == self@.id,
    {
        &self.id
    }

    /// Whether the surface is shown and takes input.
    pub fn enabled(&self) -> (enabled: bool)
        ensures
            enabled == self@.enabled,
    {
        self.enabled
    }
}

/// The physical size of any pixel size is, side by side, the pixels divided
/// by the density: exactly so, and positive wherever the pixels are.
pub proof fn lemma_physical_size_is_pixels_over_density(px_size: PixelSize)
    ensures
        physical_size_of(px_size).width.is_metres(px_size.x as int, crate::units::PPM as int),
        physical_size_of(px_size).height.is_metres(px_size.y as int, crate::units::PPM as int),
        physical_size_of(px_size).width.units * crate::units::PPM == px_size.x
            * crate::units::UNITS_PER_METRE,
        physical_size_of(px_size).height.units * crate::units::PPM == px_size.y
            * crate::units::UNITS_PER_METRE,
        px_size.x > 0 <==> physical_size_of(px_size).width.units > 0,
        px_size.y > 0 <==> physical_size_of(px_size).height.units > 0,
{
}

/// Whatever the position and the identifier, a surface can be built from
/// every pixel size without a zero side and every positive thickness, and
/// the surface built has the physical size of its pixels over the density.
pub proof fn lemma_created_surface_has_physical_size(
    id: SurfaceIdView,
    position: Point3,
    px_size: PixelSize,
    thickness: Length,
)
    requires
        valid_geometry(px_size, thickness),
    ensures
        SurfaceView::fresh(id, position, px_size, thickness).wf(),
        SurfaceView::fresh(id, position, px_size, thickness).physical_size == physical_size_of(
            px_size,
        ),
        SurfaceView::fresh(id, position, px_size, thickness).physical_size.width.is_metres(
            px_size.x as int,
            crate::units::PPM as int,
        ),
        SurfaceView::fresh(id, position, px_size, thickness).physical_size.height.is_metres(
            px_size.y as int,
            crate::units::PPM as int,
        ),
        SurfaceView::fresh(id, position, px_size, thickness).physical_size.width.units > 0,
        SurfaceView::fresh(id, position, px_size, thickness).physical_size.height.units > 0,
        SurfaceView::fresh(id, position, px_size, thickness).plane.size == physical_size_of(
            px_size,
        ),
{
}

/// A resize gives the surface the physical size of the new pixel size, each
/// side the pixels divided by the density, and its plane that size and the
/// pixel ranges up to the pixel size. A second resize to the same pixel
/// size changes nothing.
pub proof fn lemma_resize_is_idempotent(surface: SurfaceView, px_size: PixelSize)
    ensures
        surface.resized(px_size).resized(px_size) == surface.resized(px_size),
        surface.resized(px_size).physical_size.width.is_metres(
            px_size.x as int,
            crate::units::PPM as int,
        ),
        surface.resized(px_size).physical_size.height.is_metres(
            px_size.y as int,
            crate::units::PPM as int,
        ),
        surface.resized(px_size).plane.size == surface.resized(px_size).physical_size,
        surface.resized(px_size).plane.pixels == px_size,
        surface.wf() ==> surface.resized(px_size).wf(),
{
}

/// A resize to a pixel size with a side of zero leaves a plane of no area
/// on which no pixel is addressable.
pub proof fn lemma_empty_resize_is_degenerate(surface: SurfaceView, px_size: PixelSize)
    requires
        px_size.is_empty(),
    ensures
        forall|x: int, y: int| !surface.resized(px_size).plane.addressable(x, y),
        surface.resized(px_size).plane.size.width.units * surface.resized(
            px_size,
        ).plane.size.height.units == 0,
        surface.wf() ==> surface.resized(px_size).wf(),
{
    let plane = surface.resized(px_size).plane;
    assert(plane.size.width.units * plane.size.height.units == 0) by (nonlinear_arith)
        requires
            plane.size.width.units == 0 || plane.size.height.units == 0,
    ;
}

/// A child lies strictly deeper in its tree than its parent.
pub proof fn lemma_depth_increases_to_child(parent: SurfaceView, child: SurfaceView)
    requires
        parent.wf(),
        child.is_child_of(parent),
    ensures
        child.depth.units > parent.depth.units,
{
}

/// Along any chain of surfaces in which each is the child of the one before
/// it, however long, the depth strictly increases.
pub proof fn lemma_depth_increases_along_chain(chain: Seq<SurfaceView>, i: int, j: int)
    requires
        forall|k: int| 0 <= k < chain.len() ==> (#[trigger] chain[k]).wf(),
        forall|k: int| 0 <= k < chain.len() - 1 ==> (#[trigger] chain[k + 1]).is_child_of(chain[k]),
        0 <= i < j < chain.len(),
    ensures
        chain[i].depth.units < chain[j].depth.units,
    decreases j - i,
{
    assert(chain[j - 1 + 1].is_child_of(chain[j - 1]));
    if i < j - 1 {
        lemma_depth_increases_along_chain(chain, i, j - 1);
    }
}

/// Enabling or disabling a surface changes neither its identity nor its
/// place nor any of its sizes.
pub proof fn lemma_enabling_keeps_geometry(surface: SurfaceView, enabled: bool)
    ensures
        surface.with_enabled(enabled).enabled == enabled,
        surface.with_enabled(enabled).id == surface.id,
        surface.with_enabled(enabled).position == surface.position,
        surface.with_enabled(enabled).depth == surface.depth,
        surface.with_enabled(enabled).thickness == surface.thickness,
        surface.with_enabled(enabled).px_size == surface.px_size,
        surface.with_enabled(enabled).physical_size == surface.physical_size,
        surface.with_enabled(enabled).plane.size == surface.plane.size,
        surface.with_enabled(enabled).plane.pixels == surface.plane.pixels,
        surface.wf() ==> surface.with_enabled(enabled).wf(),
{
}

/// A disabled surface sends nothing, whatever the host reports.
pub proof fn lemma_disabled_surface_is_silent(surface: SurfaceView, report: PlaneReportView)
    requires
        !surface.plane.enabled,
    ensures
        surface.events(report).len() == 0,
{
    crate::arbitration::lemma_idle_frame_is_silent();
}

} // verus!
