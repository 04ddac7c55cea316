use sphereland::arbitration::{PlaneReport, PointerEvent};
use sphereland::input::{InputKind, InputSource};
use sphereland::surface::{Frame, SurfaceError, SurfaceId};
use sphereland::toplevel::{
    find_report, SurfaceReport, Toplevel, CHILD_THICKNESS, TOPLEVEL_THICKNESS,
};
use sphereland::units::{Geometry, Length, PixelOffset, PixelSize, Point3};

fn geometry(x: i32, y: i32, width: u32, height: u32) -> Geometry {
    Geometry { origin: PixelOffset { x, y }, size: PixelSize { x: width, y: height } }
}

fn hover(handle: u64) -> PlaneReport {
    PlaneReport {
        hovering: vec![InputSource {
            handle,
            kind: InputKind::Pointer,
            distance: 1000,
            scroll_continuous: None,
            scroll_discrete: None,
        }],
        touching: vec![],
        touch_started: false,
        touch_stopped: false,
    }
}

fn child(uid: &str) -> SurfaceId {
    SurfaceId::Child(uid.to_string())
}

fn moved(handle: u64) -> Vec<PointerEvent> {
    vec![
        PointerEvent::Motion { source: handle },
        PointerEvent::Scroll { continuous: None, discrete: None },
    ]
}

#[test]
fn thicknesses_are_a_centimetre_and_half_of_it() {
    assert_eq!(Length { units: TOPLEVEL_THICKNESS }, Length::from_micrometres(10_000));
    assert_eq!(Length { units: CHILD_THICKNESS }, Length::from_micrometres(5_000));
}

#[test]
fn a_created_window_has_a_root_and_no_children() {
    let toplevel = Toplevel::create(PixelSize { x: 1000, y: 2000 }).unwrap();
    assert!(toplevel.enabled());
    assert_eq!(toplevel.child_count(), 0);
    let root = toplevel.surface();
    assert_eq!(*root.id(), SurfaceId::Toplevel);
    assert_eq!(root.px_size(), PixelSize { x: 1000, y: 2000 });
    assert_eq!(root.physical_size().width, Length { units: 1_000_000 });
    assert_eq!(root.physical_size().height, Length { units: 2_000_000 });
    assert_eq!(root.thickness(), Length { units: TOPLEVEL_THICKNESS });
    assert_eq!(
        root.root(),
        Frame {
            position: Point3 { x: Length::zero(), y: Length::zero(), z: Length::zero() },
            depth: Length::zero(),
        }
    );
}

#[test]
fn a_window_without_pixels_is_not_created() {
    assert_eq!(
        Toplevel::create(PixelSize { x: 0, y: 0 }).err(),
        Some(SurfaceError::InvalidGeometry)
    );
    assert_eq!(
        Toplevel::create(PixelSize { x: 5, y: 0 }).err(),
        Some(SurfaceError::InvalidGeometry)
    );
}

#[test]
fn an_added_child_is_placed_on_the_root() {
    let mut toplevel = Toplevel::create(PixelSize { x: 100, y: 100 }).unwrap();
    assert_eq!(toplevel.add_child("menu".to_string(), &SurfaceId::Toplevel, &geometry(10, 20, 30, 40)), Ok(()));
    assert_eq!(toplevel.child_count(), 1);
    let menu = toplevel.child("menu").unwrap();
    assert_eq!(*menu.id(), child("menu"));
    assert_eq!(menu.px_size(), PixelSize { x: 30, y: 40 });
    assert_eq!(menu.thickness(), Length { units: CHILD_THICKNESS });
    assert_eq!(
        menu.root(),
        Frame {
            position: Point3 {
                x: Length { units: 10_000 },
                y: Length { units: 20_000 },
                z: Length { units: TOPLEVEL_THICKNESS },
            },
            depth: Length { units: TOPLEVEL_THICKNESS },
        }
    );
    assert!(menu.root().depth.units > toplevel.surface().root().depth.units);
    assert!(toplevel.child("tooltip").is_none());
}

#[test]
fn a_child_without_pixels_is_refused_and_changes_nothing() {
    let mut toplevel = Toplevel::create(PixelSize { x: 100, y: 100 }).unwrap();
    toplevel.add_child("menu".to_string(), &SurfaceId::Toplevel, &geometry(1, 2, 3, 4)).unwrap();
    assert_eq!(
        toplevel.add_child("menu".to_string(), &SurfaceId::Toplevel, &geometry(0, 0, 0, 4)),
        Err(SurfaceError::InvalidGeometry)
    );
    assert_eq!(
        toplevel.add_child("other".to_string(), &SurfaceId::Toplevel, &geometry(0, 0, 4, 0)),
        Err(SurfaceError::InvalidGeometry)
    );
    assert_eq!(toplevel.child_count(), 1);
    assert_eq!(toplevel.child("menu").unwrap().px_size(), PixelSize { x: 3, y: 4 });
}

#[test]
fn a_second_child_of_the_same_name_replaces_the_first() {
    let mut toplevel = Toplevel::create(PixelSize { x: 100, y: 100 }).unwrap();
    toplevel.add_child("a".to_string(), &SurfaceId::Toplevel, &geometry(0, 0, 1, 1)).unwrap();
    toplevel.add_child("b".to_string(), &SurfaceId::Toplevel, &geometry(0, 0, 2, 2)).unwrap();
    toplevel.add_child("c".to_string(), &SurfaceId::Toplevel, &geometry(0, 0, 3, 3)).unwrap();
    let mut seen = toplevel.update(&vec![SurfaceReport { surface: child("b"), report: hover(1) }]);
    assert_eq!(seen.remove(2).events, moved(1));
    toplevel.add_child("b".to_string(), &SurfaceId::Toplevel, &geometry(5, 5, 20, 20)).unwrap();
    assert_eq!(toplevel.child_count(), 3);
    let b = toplevel.child("b").unwrap();
    assert_eq!(b.px_size(), PixelSize { x: 20, y: 20 });
    assert!(b.touch_plane().hovering_inputs().is_empty());
    let order: Vec<SurfaceId> =
        toplevel.update(&vec![]).into_iter().map(|entry| entry.surface).collect();
    assert_eq!(order, vec![SurfaceId::Toplevel, child("a"), child("b"), child("c")]);
}

#[test]
fn a_removed_child_is_gone() {
    let mut toplevel = Toplevel::create(PixelSize { x: 100, y: 100 }).unwrap();
    toplevel.add_child("a".to_string(), &SurfaceId::Toplevel, &geometry(0, 0, 1, 1)).unwrap();
    toplevel.add_child("b".to_string(), &SurfaceId::Toplevel, &geometry(0, 0, 2, 2)).unwrap();
    assert!(toplevel.remove_child("a"));
    assert!(!toplevel.remove_child("a"));
    assert!(!toplevel.remove_child("zzz"));
    assert_eq!(toplevel.child_count(), 1);
    assert!(toplevel.child("a").is_none());
    assert_eq!(toplevel.child("b").unwrap().px_size(), PixelSize { x: 2, y: 2 });
    let out = toplevel
        .update(&vec![SurfaceReport { surface: child("a"), report: hover(1) }]);
    assert_eq!(out.len(), 2);
    assert_eq!(out[1].surface, child("b"));
    assert!(out.iter().all(|entry| entry.events.is_empty()));
}

#[test]
fn resizing_a_window_resizes_its_root_only() {
    let mut toplevel = Toplevel::create(PixelSize { x: 100, y: 100 }).unwrap();
    toplevel.add_child("a".to_string(), &SurfaceId::Toplevel, &geometry(0, 0, 1, 1)).unwrap();
    toplevel.resize(PixelSize { x: 600, y: 300 });
    assert_eq!(toplevel.surface().px_size(), PixelSize { x: 600, y: 300 });
    assert_eq!(toplevel.surface().physical_size().width, Length { units: 600_000 });
    assert_eq!(toplevel.child("a").unwrap().px_size(), PixelSize { x: 1, y: 1 });
    assert_eq!(toplevel.child_count(), 1);
    toplevel.resize(PixelSize { x: 0, y: 0 });
    assert_eq!(toplevel.surface().px_size(), PixelSize { x: 0, y: 0 });
    assert!(!toplevel.surface().touch_plane().contains_pixel(0, 0));
}

#[test]
fn repositioning_moves_and_resizes_a_child() {
    let mut toplevel = Toplevel::create(PixelSize { x: 100, y: 100 }).unwrap();
    toplevel.add_child("a".to_string(), &SurfaceId::Toplevel, &geometry(0, 0, 1, 1)).unwrap();
    toplevel.add_child("b".to_string(), &SurfaceId::Toplevel, &geometry(0, 0, 2, 2)).unwrap();
    assert!(toplevel.reposition_child("b", &geometry(-3, 4, 50, 60)));
    assert!(!toplevel.reposition_child("c", &geometry(-3, 4, 50, 60)));
    let b = toplevel.child("b").unwrap();
    assert_eq!(b.px_size(), PixelSize { x: 50, y: 60 });
    assert_eq!(
        b.root(),
        Frame {
            position: Point3 {
                x: Length { units: -3000 },
                y: Length { units: 4000 },
                z: Length { units: TOPLEVEL_THICKNESS },
            },
            depth: Length { units: TOPLEVEL_THICKNESS },
        }
    );
    assert_eq!(toplevel.child("a").unwrap().px_size(), PixelSize { x: 1, y: 1 });
    assert_eq!(toplevel.child_count(), 2);
}

#[test]
fn an_update_runs_the_root_and_then_the_children() {
    let mut toplevel = Toplevel::create(PixelSize { x: 100, y: 100 }).unwrap();
    toplevel.add_child("a".to_string(), &SurfaceId::Toplevel, &geometry(0, 0, 1, 1)).unwrap();
    toplevel.add_child("b".to_string(), &SurfaceId::Toplevel, &geometry(0, 0, 2, 2)).unwrap();
    let reports = vec![
        SurfaceReport { surface: child("b"), report: hover(2) },
        SurfaceReport { surface: SurfaceId::Toplevel, report: hover(1) },
        SurfaceReport { surface: child("b"), report: hover(3) },
        SurfaceReport { surface: child("unknown"), report: hover(4) },
    ];
    let out = toplevel.update(&reports);
    assert_eq!(out.len(), 3);
    assert_eq!(out[0].surface, SurfaceId::Toplevel);
    assert_eq!(out[0].events, moved(1));
    assert_eq!(out[1].surface, child("a"));
    assert_eq!(out[1].events, vec![]);
    assert_eq!(out[2].surface, child("b"));
    assert_eq!(out[2].events, moved(2));
    assert_eq!(*toplevel.surface().touch_plane().seen(), hover(1));
    assert_eq!(*toplevel.child("a").unwrap().touch_plane().seen(), PlaneReport::idle());
    assert_eq!(*toplevel.child("b").unwrap().touch_plane().seen(), hover(2));
}

#[test]
fn the_first_report_that_names_a_surface_counts() {
    let reports = vec![
        SurfaceReport { surface: child("b"), report: hover(2) },
        SurfaceReport { surface: child("b"), report: hover(3) },
    ];
    assert_eq!(find_report(&reports, &child("b")), hover(2));
    assert_eq!(find_report(&reports, &child("a")), PlaneReport::idle());
    assert_eq!(find_report(&reports, &SurfaceId::Toplevel), PlaneReport::idle());
    assert_eq!(find_report(&vec![], &SurfaceId::Toplevel), PlaneReport::idle());
}

#[test]
fn disabling_a_window_disables_every_surface() {
    let mut toplevel = Toplevel::create(PixelSize { x: 100, y: 100 }).unwrap();
    toplevel.add_child("a".to_string(), &SurfaceId::Toplevel, &geometry(1, 2, 3, 4)).unwrap();
    toplevel.add_child("b".to_string(), &SurfaceId::Toplevel, &geometry(5, 6, 7, 8)).unwrap();
    toplevel.set_enabled(false);
    assert!(!toplevel.enabled());
    assert!(!toplevel.surface().enabled());
    assert!(!toplevel.child("a").unwrap().enabled());
    assert!(!toplevel.child("b").unwrap().enabled());
    assert_eq!(toplevel.child_count(), 2);
    assert_eq!(toplevel.child("b").unwrap().px_size(), PixelSize { x: 7, y: 8 });
    let reports = vec![
        SurfaceReport { surface: SurfaceId::Toplevel, report: hover(1) },
        SurfaceReport { surface: child("a"), report: hover(2) },
    ];
    let out = toplevel.update(&reports);
    assert_eq!(out.len(), 3);
    assert!(out.iter().all(|entry| entry.events.is_empty()));
    toplevel.set_enabled(true);
    assert!(toplevel.enabled());
    assert!(toplevel.surface().enabled());
    assert!(toplevel.child("a").unwrap().enabled());
    assert!(toplevel.child("b").unwrap().enabled());
    let out = toplevel.update(&reports);
    assert_eq!(out[0].events, moved(1));
    assert_eq!(out[1].events, moved(2));
    assert_eq!(out[2].events, vec![]);
}

#[test]
fn a_child_added_to_a_disabled_window_is_disabled() {
    let mut toplevel = Toplevel::create(PixelSize { x: 100, y: 100 }).unwrap();
    toplevel.set_enabled(false);
    toplevel.add_child("a".to_string(), &SurfaceId::Toplevel, &geometry(1, 2, 3, 4)).unwrap();
    assert!(!toplevel.child("a").unwrap().enabled());
    toplevel.set_enabled(true);
    assert!(toplevel.child("a").unwrap().enabled());
}

#[test]
fn a_child_of_a_child_lies_in_front_of_it() {
    let mut toplevel = Toplevel::create(PixelSize { x: 100, y: 100 }).unwrap();
    toplevel.add_child("menu".to_string(), &SurfaceId::Toplevel, &geometry(1, 2, 30, 40)).unwrap();
    toplevel.add_child("sub".to_string(), &child("menu"), &geometry(3, 4, 5, 6)).unwrap();
    toplevel.add_child("leaf".to_string(), &child("sub"), &geometry(7, 8, 9, 10)).unwrap();
    let menu = toplevel.child("menu").unwrap().root();
    let sub = toplevel.child("sub").unwrap().root();
    let leaf = toplevel.child("leaf").unwrap().root();
    assert_eq!(menu.depth, Length { units: TOPLEVEL_THICKNESS });
    assert_eq!(sub.depth, Length { units: TOPLEVEL_THICKNESS + CHILD_THICKNESS });
    assert_eq!(leaf.depth, Length { units: TOPLEVEL_THICKNESS + 2 * CHILD_THICKNESS });
    assert!(toplevel.surface().root().depth.units < menu.depth.units);
    assert!(menu.depth.units < sub.depth.units);
    assert!(sub.depth.units < leaf.depth.units);
    assert_eq!(
        sub.position,
        Point3 {
            x: Length { units: 3000 },
            y: Length { units: 4000 },
            z: Length { units: CHILD_THICKNESS },
        }
    );
    assert_eq!(leaf.position.z, Length { units: CHILD_THICKNESS });
    assert_eq!(toplevel.child_count(), 3);
}

#[test]
fn a_child_on_an_unknown_surface_is_refused() {
    let mut toplevel = Toplevel::create(PixelSize { x: 100, y: 100 }).unwrap();
    toplevel.add_child("menu".to_string(), &SurfaceId::Toplevel, &geometry(1, 2, 30, 40)).unwrap();
    assert_eq!(
        toplevel.add_child("sub".to_string(), &child("gone"), &geometry(3, 4, 5, 6)),
        Err(SurfaceError::UnknownParent)
    );
    assert_eq!(
        toplevel.add_child("sub".to_string(), &child("gone"), &geometry(3, 4, 0, 0)),
        Err(SurfaceError::UnknownParent)
    );
    assert_eq!(
        toplevel.add_child("sub".to_string(), &child("sub"), &geometry(3, 4, 5, 6)),
        Err(SurfaceError::UnknownParent)
    );
    assert_eq!(toplevel.child_count(), 1);
    assert!(toplevel.child("sub").is_none());
}

#[test]
fn a_child_outlives_the_surface_it_was_placed_on() {
    let mut toplevel = Toplevel::create(PixelSize { x: 100, y: 100 }).unwrap();
    toplevel.add_child("menu".to_string(), &SurfaceId::Toplevel, &geometry(1, 2, 30, 40)).unwrap();
    toplevel.add_child("sub".to_string(), &child("menu"), &geometry(3, 4, 5, 6)).unwrap();
    let sub = toplevel.child("sub").unwrap().root();
    assert!(toplevel.remove_child("menu"));
    assert_eq!(toplevel.child("sub").unwrap().root(), sub);
    assert!(toplevel.reposition_child("sub", &geometry(1, 1, 2, 2)));
    assert_eq!(toplevel.child("sub").unwrap().root().depth, sub.depth);
    assert_eq!(toplevel.child("sub").unwrap().root().position.z, Length { units: CHILD_THICKNESS });
}

#[test]
fn surfaces_are_found_by_their_identifier() {
    let mut toplevel = Toplevel::create(PixelSize { x: 100, y: 100 }).unwrap();
    toplevel.add_child("menu".to_string(), &SurfaceId::Toplevel, &geometry(1, 2, 30, 40)).unwrap();
    assert_eq!(*toplevel.get(&SurfaceId::Toplevel).unwrap().id(), SurfaceId::Toplevel);
    assert_eq!(toplevel.get(&child("menu")).unwrap().px_size(), PixelSize { x: 30, y: 40 });
    assert!(toplevel.get(&child("gone")).is_none());
}
