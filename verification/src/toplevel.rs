//! One remote application window: its root surface and its child surfaces.

use crate::arbitration::{PlaneReport, PlaneReportView, PointerEvent};
use crate::surface::{Surface, SurfaceError, SurfaceId, SurfaceIdView, SurfaceView};
use crate::units::{Geometry, Length, PixelSize, Point3};
use vstd::prelude::*;

verus! {

/// The thickness of the panel of a root surface: a hundredth of a metre.
pub const TOPLEVEL_THICKNESS: i64 = 30_000;

/// The thickness of the panel of a child surface: half that of a root.
pub const CHILD_THICKNESS: i64 = 15_000;

/// What the host reports of the interaction plane of one surface in one
/// frame.
#[derive(Debug)]
pub struct SurfaceReport {
    pub surface: SurfaceId,
    pub report: PlaneReport,
}

/// The pointer events to send for one surface in one frame, in order.
#[derive(Debug)]
pub struct SurfaceEvents {
    pub surface: SurfaceId,
    pub events: Vec<PointerEvent>,
}

/// What `reports` says of the surface `id`: the first report that names it,
/// or that nothing happened if none does.
pub open spec fn report_for(reports: Seq<SurfaceReport>, id: SurfaceIdView) -> PlaneReportView
    decreases reports.len(),
{
    if reports.len() == 0 {
        PlaneReportView::idle()
    } else if reports[0].surface@ == id {
        reports[0].report@
    } else {
        report_for(reports.drop_first(), id)
    }
}

/// What `reports` says of the surface `id`.
pub fn find_report(reports: &Vec<SurfaceReport>, id: &SurfaceId) -> (r: PlaneReport)
    ensures
        r@ == report_for(reports@, id@),
{
    let mut k: usize = 0;
    assert(reports@.skip(0) == reports@);
    while k < reports.len()
        invariant
            k <= reports.len(),
            report_for(reports@, id@) == report_for(reports@.skip(k as int), id@),
        decreases reports.len() - k,
    {
        assert(reports@.skip(k as int).drop_first() == reports@.skip(k + 1));
        if reports[k].surface.same(id) {
            return reports[k].report.duplicate();
        }
        k = k + 1;
    }
    PlaneReport::idle()
}

/// The mathematical value of a [`Toplevel`].
pub struct ToplevelView {
    pub root: SurfaceView,
    /// The child surfaces, in the order their identifiers were first added.
    pub children: Seq<SurfaceView>,
    pub enabled: bool,
}

impl ToplevelView {
    /// The window as built for a root of pixel size `size`.
    pub open spec fn fresh(size: PixelSize) -> ToplevelView {
        ToplevelView {
            root: SurfaceView::fresh(
                SurfaceIdView::Toplevel,
                Point3 {
                    x: Length { units: 0 },
                    y: Length { units: 0 },
                    z: Length { units: 0 },
                },
                size,
                Length { units: TOPLEVEL_THICKNESS },
            ),
            children: Seq::empty(),
            enabled: true,
        }
    }

    /// What holds of every window: the root is a root of the fixed
    /// thickness, every child lies in front of it by at least that
    /// thickness, no identifier occurs twice, and the surfaces are enabled
    /// or disabled as one.
    pub open spec fn wf(self) -> bool {
        &&& self.root.wf()
        &&& self.root.id == SurfaceIdView::Toplevel
        &&& self.root.depth.units == 0
        &&& self.root.thickness.units == TOPLEVEL_THICKNESS
        &&& self.root.enabled == self.enabled
        &&& forall|i: int|
            0 <= i < self.children.len() ==> {
                &&& (#[trigger] self.children[i]).wf()
                &&& self.children[i].id is Child
                &&& self.children[i].enabled == self.enabled
                &&& self.children[i].depth.units >= self.root.depth.units
                    + self.root.thickness.units
            }
        &&& forall|i: int, j: int|
            0 <= i < j < self.children.len() ==> (#[trigger] self.children[i]).id
                != (#[trigger] self.children[j]).id
    }

    /// Whether the child `uid` stands at place `i`.
    pub open spec fn child_at(self, uid: Seq<char>, i: int) -> bool {
        0 <= i < self.children.len() && self.children[i].id == SurfaceIdView::Child(uid)
    }

    /// Whether the window has a child `uid`.
    pub open spec fn has_child(self, uid: Seq<char>) -> bool {
        exists|i: int| self.child_at(uid, i)
    }

    /// The place of the child `uid`.
    pub open spec fn child_index(self, uid: Seq<char>) -> int {
        choose|i: int| self.child_at(uid, i)
    }

    /// The surface `id` of the window, if it has it: the root, or the child
    /// of that identifier.
    pub open spec fn surface_of(self, id: SurfaceIdView) -> Option<SurfaceView> {
        match id {
            SurfaceIdView::Toplevel => Some(self.root),
            SurfaceIdView::Child(uid) => if self.has_child(uid) {
                Some(self.children[self.child_index(uid)])
            } else {
                None
            },
        }
    }

    /// The child surface as built for `uid` on the surface `parent` from
    /// the geometry `geometry`: a child of `parent` of the fixed thickness,
    /// enabled if the window is.
    pub open spec fn new_child(
        self,
        uid: Seq<char>,
        parent: SurfaceView,
        geometry: Geometry,
    ) -> SurfaceView {
        SurfaceView::fresh_child(
            parent,
            uid,
            geometry,
            Length { units: CHILD_THICKNESS },
        ).with_enabled(self.enabled)
    }

    /// Why the child cannot be added on the surface `parent` with the
    /// geometry `geometry`, if it cannot: the window has no such surface, or
    /// a side of the size is zero, or the child would lie too deep.
    pub open spec fn child_refusal(self, parent: SurfaceIdView, geometry: Geometry) -> Option<
        SurfaceError,
    > {
        match self.surface_of(parent) {
            None => Some(SurfaceError::UnknownParent),
            Some(onto) => if geometry.size.is_empty() {
                Some(SurfaceError::InvalidGeometry)
            } else if onto.depth.units + onto.thickness.units > i64::MAX {
                Some(SurfaceError::DepthOutOfRange)
            } else {
                None
            },
        }
    }

    /// The window with the child `uid` set to `child`: in the place of the
    /// child of that identifier if there is one, else behind all others.
    pub open spec fn with_child(self, uid: Seq<char>, child: SurfaceView) -> ToplevelView {
        ToplevelView {
            children: if self.has_child(uid) {
                self.children.update(self.child_index(uid), child)
            } else {
                self.children.push(child)
            },
            ..self
        }
    }

    /// The window without the child `uid`.
    pub open spec fn without_child(self, uid: Seq<char>) -> ToplevelView {
        ToplevelView {
            children: if self.has_child(uid) {
                self.children.remove(self.child_index(uid))
            } else {
                self.children
            },
            ..self
        }
    }

    /// The window after its root was resized to `size`.
    pub open spec fn resized(self, size: PixelSize) -> ToplevelView {
        ToplevelView { root: self.root.resized(size), ..self }
    }

    /// The window after the child `uid` was moved and resized to `geometry`.
    pub open spec fn child_repositioned(self, uid: Seq<char>, geometry: Geometry) -> ToplevelView {
        ToplevelView {
            children: if self.has_child(uid) {
                self.children.update(
                    self.child_index(uid),
                    self.children[self.child_index(uid)].moved(geometry.origin).resized(
                        geometry.size,
                    ),
                )
            } else {
                self.children
            },
            ..self
        }
    }

    /// The window after a frame in which the host reported `reports`.
    pub open spec fn advanced(self, reports: Seq<SurfaceReport>) -> ToplevelView {
        ToplevelView {
            root: self.root.advanced(report_for(reports, self.root.id)),
            children: Seq::new(
                self.children.len(),
                |i: int| self.children[i].advanced(report_for(reports, self.children[i].id)),
            ),
            ..self
        }
    }

    /// The window after all its surfaces were enabled or disabled.
    pub open spec fn with_enabled(self, enabled: bool) -> ToplevelView {
        ToplevelView {
            root: self.root.with_enabled(enabled),
            children: Seq::new(
                self.children.len(),
                |i: int| self.children[i].with_enabled(enabled),
            ),
            enabled,
        }
    }

    /// Whether `out` is what the window sends in a frame in which the host
    /// reported `reports`: one entry for the root and then one for each
    /// child in order, each with the events of its surface.
    pub open spec fn sends(self, reports: Seq<SurfaceReport>, out: Seq<SurfaceEvents>) -> bool {
        &&& out.len() == 1 + self.children.len()
        &&& out[0].surface@ == self.root.id
        &&& out[0].events@ == self.root.events(report_for(reports, self.root.id))
        &&& forall|i: int|
            0 <= i < self.children.len() ==> {
                &&& (#[trigger] out[i + 1]).surface@ == self.children[i].id
                &&& out[i + 1].events@ == self.children[i].events(
                    report_for(reports, self.children[i].id),
                )
            }
    }
}

/// One remote application window: a root surface and the child surfaces,
/// such as menus and tooltips, that the application opened on it.
#[derive(Debug)]
pub struct Toplevel {
    surface: Surface,
    children: Vec<Surface>,
    enabled: bool,
}

impl View for Toplevel {
    type V = ToplevelView;

    closed spec fn view(&self) -> ToplevelView {
        ToplevelView {
            root: self.surface@,
            children: self.children@.map_values(|s: Surface| s@),
            enabled: self.enabled,
        }
    }
}

impl Toplevel {
    /// Builds the window for a root of pixel size `size`. Fails exactly
    /// when a side of the size is zero.
    pub fn create(size: PixelSize) -> (r: Result<Toplevel, SurfaceError>)
        ensures
            r is Ok <==> !size.is_empty(),
            r matches Ok(toplevel) ==> toplevel@ == ToplevelView::fresh(size) && toplevel@.wf(),
            r matches Err(e) ==> e == SurfaceError::InvalidGeometry,
    {
        let origin = Point3 { x: Length::zero(), y: Length::zero(), z: Length::zero() };
        match Surface::create(
            origin,
            SurfaceId::Toplevel,
            size,
            Length { units: TOPLEVEL_THICKNESS },
        ) {
            Ok(surface) => {
                let toplevel = Toplevel { surface, children: Vec::new(), enabled: true };
                assert(toplevel@.children == Seq::<SurfaceView>::empty());
                Ok(toplevel)
            },
            Err(e) => Err(e),
        }
    }

    /// The place of the child `uid`, if the window has it.
    fn find_child(&self, uid: &String) -> (r: Option<usize>)
        ensures
            r is Some <==> self@.has_child(uid@),
            r matches Some(i) ==> self@.child_at(uid@, i as int),
            r matches Some(i) ==> self@.wf() ==> i == self@.child_index(uid@),
    {
        let wanted = SurfaceId::Child(uid.clone());
        let mut k: usize = 0;
        while k < self.children.len()
            invariant
                k <= self.children.len(),
                wanted@ == SurfaceIdView::Child(uid@),
                forall|j: int| 0 <= j < k ==> !self@.child_at(uid@, j),
            decreases self.children.len() - k,
        {
            if self.children[k].id().same(&wanted) {
                assert(self@.child_at(uid@, k as int));
                proof {
                    if self@.wf() {
                        let c = self@.child_index(uid@);
                        assert(self@.child_at(uid@, c));
                        if k < c {
                            assert(self@.children[k as int].id != self@.children[c].id);
                        }
                    }
                }
                return Some(k);
            }
            k = k + 1;
        }
        None
    }

    /// The surface `id` of the window, if it has it.
    pub fn get(&self, id: &SurfaceId) -> (found: Option<&Surface>)
        ensures
            found is Some <==> self@.surface_of(id@) is Some,
            found matches Some(surface) ==> surface@.id == id@ || id@ == SurfaceIdView::Toplevel,
            found matches Some(surface) ==> self@.wf() ==> Some(surface@) == self@.surface_of(id@),
    {
        match id {
            SurfaceId::Toplevel => Some(&self.surface),
            SurfaceId::Child(uid) => match self.find_child(uid) {
                Some(i) => {
                    assert(self@.children[i as int] == self.children[i as int]@);
                    Some(&self.children[i])
                },
                None => None,
            },
        }
    }

    /// Adds the child `uid` on the surface `parent` with the geometry the
    /// host gave for it, in place of a child of the same identifier if
    /// there is one. The child lies in front of its parent by the parent's
    /// thickness. Fails, and leaves the window as it was, where the window
    /// has no surface `parent`, where a side of the size is zero, and where
    /// the child would lie deeper than a length can say.
    pub fn add_child(&mut self, uid: String, parent: &SurfaceId, geometry: &Geometry) -> (r: Result<
        (),
        SurfaceError,
    >)
        requires
            old(self)@.wf(),
        ensures
            final(self)@.wf(),
            r is Ok <==> old(self)@.child_refusal(parent@, *geometry) is None,
            r is Ok ==> final(self)@ == old(self)@.with_child(
                uid@,
                old(self)@.new_child(uid@, old(self)@.surface_of(parent@)->Some_0, *geometry),
            ),
            r matches Err(e) ==> Some(e) == old(self)@.child_refusal(parent@, *geometry)
                && final(self)@ == old(self)@,
    {
        let place = self.find_child(&uid);
        let ghost name = uid@;
        let built = match self.get(parent) {
            Some(onto) => Surface::new_child(
                onto,
                uid,
                geometry,
                Length { units: CHILD_THICKNESS },
            ),
            None => Err(SurfaceError::UnknownParent),
        };
        match built {
            Ok(mut child) => {
                child.set_enabled(self.enabled);
                match place {
                    Some(i) => {
                        self.children[i] = child;
                        assert(self@.children == old(self)@.children.update(i as int, child@));
                    },
                    None => {
                        self.children.push(child);
                        assert(self@.children == old(self)@.children.push(child@));
                    },
                }
                proof {
                    assert forall|i: int, j: int| 0 <= i < j < self@.children.len() implies (
                    #[trigger] self@.children[i]).id != (#[trigger] self@.children[j]).id by {
                        if self@.children[i].id == self@.children[j].id {
                            if old(self)@.has_child(name) {
                                let c = old(self)@.child_index(name);
                                if i == c {
                                    assert(old(self)@.child_at(name, j));
                                    assert(old(self)@.children[c].id != old(self)@.children[j].id);
                                } else if j == c {
                                    assert(old(self)@.child_at(name, i));
                                    assert(old(self)@.children[i].id != old(self)@.children[c].id);
                                } else {
                                    assert(old(self)@.children[i].id != old(self)@.children[j].id);
                                }
                            } else {
                                if j == old(self)@.children.len() {
                                    assert(old(self)@.child_at(name, i));
                                } else {
                                    assert(old(self)@.children[i].id != old(self)@.children[j].id);
                                }
                            }
                        }
                    }
                }
                Ok(())
            },
            Err(e) => Err(e),
        }
    }

    /// Removes the child `uid`, if the window has it, and says whether it
    /// had.
    pub fn remove_child(&mut self, uid: &str) -> (removed: bool)
        requires
            old(self)@.wf(),
        ensures
            final(self)@.wf(),
            removed == old(self)@.has_child(uid@),
            final(self)@ == old(self)@.without_child(uid@),
            !final(self)@.has_child(uid@),
    {
        let owned = uid.to_owned();
        match self.find_child(&owned) {
            Some(i) => {
                let _ = self.children.remove(i);
                assert(self@.children == old(self)@.children.remove(i as int));
                proof {
                    assert forall|a: int, b: int| 0 <= a < b < self@.children.len() implies (
                    #[trigger] self@.children[a]).id != (#[trigger] self@.children[b]).id by {
                        let oa = if a < i { a } else { a + 1 };
                        let ob = if b < i { b } else { b + 1 };
                        assert(old(self)@.children[oa].id != old(self)@.children[ob].id);
                    }
                    assert forall|k: int| !self@.child_at(uid@, k) by {
                        if self@.child_at(uid@, k) {
                            let ok = if k < i { k } else { k + 1 };
                            assert(old(self)@.children[ok].id != old(self)@.children[i as int].id);
                        }
                    }
                }
                true
            },
            None => false,
        }
    }

    /// Gives the root surface a new pixel size.
    pub fn resize(&mut self, size: PixelSize)
        requires
            old(self)@.wf(),
        ensures
            final(self)@.wf(),
            final(self)@ == old(self)@.resized(size),
    {
        self.surface.resize(size);
    }

    /// Moves and resizes the child `uid` to `geometry`, if the window has
    /// it, and says whether it had.
    pub fn reposition_child(&mut self, uid: &str, geometry: &Geometry) -> (found: bool)
        requires
            old(self)@.wf(),
        ensures
            final(self)@.wf(),
            found == old(self)@.has_child(uid@),
            final(self)@ == old(self)@.child_repositioned(uid@, *geometry),
    {
        let owned = uid.to_owned();
        match self.find_child(&owned) {
            Some(i) => {
                self.children[i].set_offset(geometry.origin);
                self.children[i].resize(geometry.size);
                assert(self@.children == old(self)@.children.update(
                    i as int,
                    old(self)@.children[i as int].moved(geometry.origin).resized(geometry.size),
                ));
                true
            },
            None => false,
        }
    }

    /// Enables or disables the root and every child.
    pub fn set_enabled(&mut self, enabled: bool)
        requires
            old(self)@.wf(),
        ensures
            final(self)@.wf(),
            final(self)@ == old(self)@.with_enabled(enabled),
    {
        self.surface.set_enabled(enabled);
        self.enabled = enabled;
        let mut k: usize = 0;
        while k < self.children.len()
            invariant
                k <= self.children.len(),
                self.children.len() == old(self).children.len(),
                self.surface@ == old(self)@.root.with_enabled(enabled),
                self.enabled == enabled,
                forall|j: int|
                    0 <= j < k ==> (#[trigger] self.children[j])@
                        == old(self)@.children[j].with_enabled(enabled),
                forall|j: int|
                    k <= j < self.children.len() ==> (#[trigger] self.children[j])@
                        == old(self)@.children[j],
            decreases self.children.len() - k,
        {
            self.children[k].set_enabled(enabled);
            k = k + 1;
        }
        assert(self@.children == old(self)@.with_enabled(enabled).children);
    }

    /// Runs one frame on the root and then on every child, each with what
    /// `reports` says of it, and returns what each surface sends.
    pub fn update(&mut self, reports: &Vec<SurfaceReport>) -> (out: Vec<SurfaceEvents>)
        requires
            old(self)@.wf(),
        ensures
            final(self)@.wf(),
            final(self)@ == old(self)@.advanced(reports@),
            old(self)@.sends(reports@, out@),
    {
        let mut out: Vec<SurfaceEvents> = Vec::new();
        let report = find_report(reports, self.surface.id());
        let surface = self.surface.id().duplicate();
        let events = self.surface.update(report);
        out.push(SurfaceEvents { surface, events });
        let mut k: usize = 0;
        while k < self.children.len()
            invariant
                k <= self.children.len(),
                self.children.len() == old(self).children.len(),
                self.surface@ == old(self)@.advanced(reports@).root,
                self.enabled == old(self).enabled,
                out.len() == 1 + k,
                out[0].surface@ == old(self)@.root.id,
                out[0].events@ == old(self)@.root.events(
                    report_for(reports@, old(self)@.root.id),
                ),
                forall|j: int|
                    0 <= j < k ==> {
                        &&& (#[trigger] out[j + 1]).surface@ == old(self)@.children[j].id
                        &&& out[j + 1].events@ == old(self)@.children[j].events(
                            report_for(reports@, old(self)@.children[j].id),
                        )
                    },
                forall|j: int|
                    0 <= j < k ==> (#[trigger] self.children[j])@
                        == old(self)@.children[j].advanced(
                        report_for(reports@, old(self)@.children[j].id),
                    ),
                forall|j: int|
                    k <= j < self.children.len() ==> (#[trigger] self.children[j])@
                        == old(self)@.children[j],
            decreases self.children.len() - k,
        {
            let report = find_report(reports, self.children[k].id());
            let surface = self.children[k].id().duplicate();
            let events = self.children[k].update(report);
            out.push(SurfaceEvents { surface, events });
            k = k + 1;
        }
        assert(self@.children == old(self)@.advanced(reports@).children);
        out
    }

    /// The root surface.
    pub fn surface(&self) -> (surface: &Surface)
        ensures
            surface@ == self@.root,
    {
        &self.surface
    }

    /// The child `uid`, if the window has it.
    pub fn child(&self, uid: &str) -> (child: Option<&Surface>)
        ensures
            child is Some <==> self@.has_child(uid@),
            child matches Some(surface) ==> self@.children.contains(surface@) && surface@.id
                == SurfaceIdView::Child(uid@),
            child matches Some(surface) ==> self@.wf() ==> surface@
                == self@.children[self@.child_index(uid@)],
    {
        let owned = uid.to_owned();
        match self.find_child(&owned) {
            Some(i) => {
                assert(self@.children[i as int] == self.children[i as int]@);
                Some(&self.children[i])
            },
            None => None,
        }
    }

    /// How many children the window has.
    pub fn child_count(&self) -> (count: usize)
        ensures
            count == self@.children.len(),
    {
        self.children.len()
    }

    /// Whether the window is shown and takes input.
    pub fn enabled(&self) -> (enabled: bool)
        ensures
            enabled == self@.enabled,
    {
        self.enabled
    }
}

/// Every child of a window lies strictly deeper than the root.
pub proof fn lemma_children_lie_in_front_of_root(toplevel: ToplevelView, i: int)
    requires
        toplevel.wf(),
        0 <= i < toplevel.children.len(),
    ensures
        toplevel.children[i].depth.units > toplevel.root.depth.units,
{
}

/// A child added on a surface of a window lies strictly deeper than that
/// surface, on whichever surface of the window it is added.
pub proof fn lemma_added_child_lies_in_front_of_parent(
    toplevel: ToplevelView,
    uid: Seq<char>,
    parent: SurfaceIdView,
    geometry: Geometry,
)
    requires
        toplevel.wf(),
        toplevel.child_refusal(parent, geometry) is None,
    ensures
        toplevel.new_child(uid, toplevel.surface_of(parent)->Some_0, geometry).is_child_of(
            toplevel.surface_of(parent)->Some_0,
        ),
        toplevel.new_child(uid, toplevel.surface_of(parent)->Some_0, geometry).depth.units
            > toplevel.surface_of(parent)->Some_0.depth.units,
{
    let onto = toplevel.surface_of(parent)->Some_0;
    match parent {
        SurfaceIdView::Toplevel => {},
        SurfaceIdView::Child(name) => {
            assert(toplevel.child_at(name, toplevel.child_index(name)));
        },
    }
    assert(onto.wf());
}

/// Disabling a window and enabling it again leaves it enabled, with every
/// surface where and as large as it was.
pub proof fn lemma_capture_and_release_keep_geometry(toplevel: ToplevelView)
    ensures
        !toplevel.with_enabled(false).enabled,
        toplevel.with_enabled(false).with_enabled(true).enabled,
        toplevel.with_enabled(false).root.px_size == toplevel.root.px_size,
        toplevel.with_enabled(false).root.physical_size == toplevel.root.physical_size,
        toplevel.with_enabled(false).root.position == toplevel.root.position,
        toplevel.with_enabled(false).with_enabled(true).root.px_size == toplevel.root.px_size,
        toplevel.with_enabled(false).with_enabled(true).root.physical_size
            == toplevel.root.physical_size,
        toplevel.with_enabled(false).with_enabled(true).root.position == toplevel.root.position,
        toplevel.with_enabled(false).with_enabled(true).children.len() == toplevel.children.len(),
        forall|i: int|
            #![trigger toplevel.children[i]]
            0 <= i < toplevel.children.len() ==> {
                &&& toplevel.with_enabled(false).with_enabled(true).children[i].px_size
                    == toplevel.children[i].px_size
                &&& toplevel.with_enabled(false).with_enabled(true).children[i].physical_size
                    == toplevel.children[i].physical_size
                &&& toplevel.with_enabled(false).with_enabled(true).children[i].position
                    == toplevel.children[i].position
                &&& toplevel.with_enabled(false).with_enabled(true).children[i].id
                    == toplevel.children[i].id
            },
        toplevel.wf() ==> toplevel.with_enabled(false).wf() && toplevel.with_enabled(
            false,
        ).with_enabled(true).wf(),
{
}

/// A disabled window sends nothing: every entry it returns is empty.
pub proof fn lemma_disabled_window_is_silent(
    toplevel: ToplevelView,
    reports: Seq<SurfaceReport>,
    out: Seq<SurfaceEvents>,
)
    requires
        toplevel.wf(),
        !toplevel.enabled,
        toplevel.sends(reports, out),
    ensures
        forall|i: int| 0 <= i < out.len() ==> (#[trigger] out[i]).events@.len() == 0,
{
    crate::arbitration::lemma_idle_frame_is_silent();
    assert forall|i: int| 0 <= i < out.len() implies (#[trigger] out[i]).events@.len() == 0 by {
        if i > 0 {
            assert(out[(i - 1) + 1].events@ == toplevel.children[i - 1].events(
                report_for(reports, toplevel.children[i - 1].id),
            ));
        }
    }
}

} // verus!
