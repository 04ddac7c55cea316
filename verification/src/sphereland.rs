//! The registry of sessions: one window for each live session of a remote
//! application, kept in step with what the host says of the sessions.

use crate::surface::SurfaceError;
use crate::toplevel::{SurfaceEvents, SurfaceReport, Toplevel, ToplevelView};
use crate::units::PixelSize;
use rustc_hash::FxBuildHasher;
use rustc_hash::FxHashMap;
use vstd::prelude::*;

verus! {

/// The hasher factory of `rustc_hash`, declared so that a map built with it
/// can be held. Nothing is known of what is inside.
#[verifier::external_type_specification]
#[verifier::external_body]
pub struct ExFxBuildHasher(FxBuildHasher);

/// The entries of a session map: the window stored under each key.
pub uninterp spec fn panel_items_of(items: FxHashMap<String, Toplevel>) -> Map<Seq<char>, Toplevel>;

/// `FxHashMap::default`: a new map has no entries.
#[verifier::external_body]
fn items_new() -> (items: FxHashMap<String, Toplevel>)
    ensures
        panel_items_of(items).dom() == Set::<Seq<char>>::empty(),
{
    FxHashMap::default()
}

/// `HashMap::insert`: afterwards the map holds `toplevel` under `uid`, in
/// place of what it held under that key, and every other entry as before.
#[verifier::external_body]
fn items_insert(items: &mut FxHashMap<String, Toplevel>, uid: String, toplevel: Toplevel)
    ensures
        panel_items_of(*final(items)) == panel_items_of(*old(items)).insert(uid@, toplevel),
{
    items.insert(uid, toplevel);
}

/// `HashMap::remove`: afterwards the map holds nothing under `uid`, and
/// every other entry as before.
#[verifier::external_body]
fn items_remove(items: &mut FxHashMap<String, Toplevel>, uid: &str)
    ensures
        panel_items_of(*final(items)) == panel_items_of(*old(items)).remove(uid@),
{
    items.remove(uid);
}

/// `HashMap::get`: the window stored under `uid`, or nothing where the map
/// has no such key.
#[verifier::external_body]
fn items_get<'a>(items: &'a FxHashMap<String, Toplevel>, uid: &str) -> (found: Option<
    &'a Toplevel,
>)
    ensures
        found is Some <==> panel_items_of(*items).contains_key(uid@),
        found matches Some(toplevel) ==> *toplevel == panel_items_of(*items)[uid@],
{
    items.get(uid)
}

/// `HashMap::get_mut`: the window stored under `uid`, to be changed in
/// place, or nothing where the map has no such key. Whatever the caller
/// leaves in the window is what the map then holds under `uid`; every other
/// entry stays as before.
#[verifier::external_body]
fn items_get_mut<'a>(items: &'a mut FxHashMap<String, Toplevel>, uid: &str) -> (found: Option<
    &'a mut Toplevel,
>)
    ensures
        found is Some <==> panel_items_of(*old(items)).contains_key(uid@),
        found matches Some(toplevel) ==> *toplevel == panel_items_of(*old(items))[uid@]
            && panel_items_of(*final(items)) == panel_items_of(*old(items)).insert(
            uid@,
            *final(toplevel),
        ),
        found is None ==> panel_items_of(*final(items)) == panel_items_of(*old(items)),
{
    items.get_mut(uid)
}

/// `HashMap::keys`, copied out: every key of the map once, in no stated
/// order.
#[verifier::external_body]
fn items_keys(items: &FxHashMap<String, Toplevel>) -> (keys: Vec<String>)
    ensures
        forall|i: int|
            0 <= i < keys.len() ==> panel_items_of(*items).contains_key((#[trigger] keys[i])@),
        forall|i: int, j: int|
            0 <= i < j < keys.len() ==> (#[trigger] keys[i])@ != (#[trigger] keys[j])@,
        forall|uid: Seq<char>|
            panel_items_of(*items).contains_key(uid) ==> exists|i: int|
                0 <= i < keys.len() && (#[trigger] keys[i])@ == uid,
{
    items.keys().cloned().collect()
}

/// What the host reports of the surfaces of one session in one frame.
#[derive(Debug)]
pub struct SessionReport {
    pub session: String,
    pub surfaces: Vec<SurfaceReport>,
}

/// What the surfaces of one session send in one frame.
#[derive(Debug)]
pub struct SessionEvents {
    pub session: String,
    pub surfaces: Vec<SurfaceEvents>,
}

/// What the host is to do after a session was captured or released.
#[derive(Clone, Copy, Debug, PartialEq, Eq, Structural)]
pub struct Transition {
    /// Whether to reset the pending touches of the session's drawable.
    pub reset_touches: bool,
    /// Whether the session is known, so that its surfaces changed.
    pub known: bool,
}

/// What `reports` says of the surfaces of `session`: the reports of the
/// first entry that names it, or none if no entry does.
pub open spec fn reports_for(reports: Seq<SessionReport>, session: Seq<char>) -> Seq<
    SurfaceReport,
>
    decreases reports.len(),
{
    if reports.len() == 0 {
        Seq::empty()
    } else if reports[0].session@ == session {
        reports[0].surfaces@
    } else {
        reports_for(reports.drop_first(), session)
    }
}

/// The place in `reports` of the first entry that names `session`.
fn find_session(reports: &Vec<SessionReport>, session: &String) -> (r: Option<usize>)
    ensures
        r matches Some(i) ==> i < reports.len() && reports[i as int].surfaces@ == reports_for(
            reports@,
            session@,
        ),
        r is None ==> reports_for(reports@, session@) == Seq::<SurfaceReport>::empty(),
{
    let mut k: usize = 0;
    assert(reports@.skip(0) == reports@);
    while k < reports.len()
        invariant
            k <= reports.len(),
            reports_for(reports@, session@) == reports_for(reports@.skip(k as int), session@),
        decreases reports.len() - k,
    {
        assert(reports@.skip(k as int).drop_first() == reports@.skip(k + 1));
        if reports[k].session == *session {
            return Some(k);
        }
        k = k + 1;
    }
    None
}

/// Whether `out` is what the sessions `sessions` send in a frame in which
/// the host reported `reports`: one entry for each enabled session, none
/// for any other, each with what the window of the session sends.
pub open spec fn frame_sends(
    sessions: Map<Seq<char>, ToplevelView>,
    reports: Seq<SessionReport>,
    out: Seq<SessionEvents>,
) -> bool {
    &&& forall|i: int|
        0 <= i < out.len() ==> {
            &&& sessions.contains_key((#[trigger] out[i]).session@)
            &&& sessions[out[i].session@].enabled
            &&& sessions[out[i].session@].sends(
                reports_for(reports, out[i].session@),
                out[i].surfaces@,
            )
        }
    &&& forall|i: int, j: int|
        0 <= i < j < out.len() ==> (#[trigger] out[i]).session@ != (#[trigger] out[j]).session@
    &&& forall|uid: Seq<char>|
        sessions.contains_key(uid) && sessions[uid].enabled ==> exists|i: int|
            0 <= i < out.len() && (#[trigger] out[i]).session@ == uid
}

/// The window of the session `uid` after a frame in which the host
/// reported `reports`: an enabled window has run the frame, a disabled one
/// is as before.
pub open spec fn session_after_frame(
    toplevel: ToplevelView,
    reports: Seq<SessionReport>,
    uid: Seq<char>,
) -> ToplevelView {
    if toplevel.enabled {
        toplevel.advanced(reports_for(reports, uid))
    } else {
        toplevel
    }
}

/// Whether `after` are the sessions `before` after a frame in which the
/// host reported `reports`: the same sessions, each window after the frame.
pub open spec fn frame_advances(
    before: Map<Seq<char>, ToplevelView>,
    reports: Seq<SessionReport>,
    after: Map<Seq<char>, ToplevelView>,
) -> bool {
    &&& after.dom() == before.dom()
    &&& forall|uid: Seq<char>|
        before.contains_key(uid) ==> #[trigger] after[uid] == session_after_frame(
            before[uid],
            reports,
            uid,
        )
}

/// Once a session is removed, no frame names it: it is not among the
/// sessions afterwards, and nothing is sent for it.
pub proof fn lemma_removed_session_is_silent(
    sessions: Map<Seq<char>, ToplevelView>,
    uid: Seq<char>,
    reports: Seq<SessionReport>,
    after: Map<Seq<char>, ToplevelView>,
    out: Seq<SessionEvents>,
)
    requires
        frame_advances(sessions.remove(uid), reports, after),
        frame_sends(sessions.remove(uid), reports, out),
    ensures
        !after.contains_key(uid),
        forall|i: int| 0 <= i < out.len() ==> (#[trigger] out[i]).session@ != uid,
{
}

/// The sessions after the window of `uid` was enabled or disabled: the
/// window of that session, if it is known, changed with all its surfaces,
/// and every other window as before.
pub open spec fn sessions_with_enabled(
    sessions: Map<Seq<char>, ToplevelView>,
    uid: Seq<char>,
    enabled: bool,
) -> Map<Seq<char>, ToplevelView> {
    if sessions.contains_key(uid) {
        sessions.insert(uid, sessions[uid].with_enabled(enabled))
    } else {
        sessions
    }
}

/// The registry: the window of every live session, by session identifier.
pub struct Sphereland {
    panel_items: FxHashMap<String, Toplevel>,
}

impl Sphereland {
    /// The live sessions and the window of each.
    pub closed spec fn sessions(&self) -> Map<Seq<char>, ToplevelView> {
        panel_items_of(self.panel_items).map_values(|toplevel: Toplevel| toplevel@)
    }

    /// What holds of every registry: each window in it is well formed.
    pub open spec fn wf(&self) -> bool {
        forall|uid: Seq<char>|
            self.sessions().contains_key(uid) ==> (#[trigger] self.sessions()[uid]).wf()
    }

    /// A registry without sessions.
    pub fn new() -> (registry: Sphereland)
        ensures
            registry.sessions() == Map::<Seq<char>, ToplevelView>::empty(),
            registry.wf(),
    {
        let registry = Sphereland { panel_items: items_new() };
        registry
    }

    /// A session was created with a root of pixel size `size`: registers a
    /// new window under `uid`, in place of any window registered under it.
    /// Where the window cannot be built, which is exactly where a side of
    /// the size is zero, the event is ignored and the registry stays as it
    /// was.
    pub fn add_item(&mut self, uid: &str, size: PixelSize) -> (registered: bool)
        requires
            old(self).wf(),
        ensures
            final(self).wf(),
            registered == !size.is_empty(),
            registered ==> final(self).sessions() == old(self).sessions().insert(
                uid@,
                ToplevelView::fresh(size),
            ),
            !registered ==> final(self).sessions() == old(self).sessions(),
    {
        let Ok(toplevel) = Toplevel::create(size) else {
            return false;
        };
        items_insert(&mut self.panel_items, uid.to_owned(), toplevel);
        assert(self.sessions() =~= old(self).sessions().insert(uid@, ToplevelView::fresh(size)));
        true
    }

    /// A session ended: drops its window with all its surfaces. Nothing
    /// happens where the session is not known.
    pub fn remove_item(&mut self, uid: &str)
        requires
            old(self).wf(),
        ensures
            final(self).wf(),
            final(self).sessions() == old(self).sessions().remove(uid@),
            !final(self).sessions().contains_key(uid@),
    {
        items_remove(&mut self.panel_items, uid);
        assert(self.sessions() =~= old(self).sessions().remove(uid@));
    }

    /// Enables or disables the window of `uid`, if the session is known.
    fn toggle(&mut self, uid: &str, enabled: bool) -> (transition: Transition)
        requires
            old(self).wf(),
        ensures
            final(self).wf(),
            transition == (Transition {
                reset_touches: true,
                known: old(self).sessions().contains_key(uid@),
            }),
            final(self).sessions() == sessions_with_enabled(old(self).sessions(), uid@, enabled),
    {
        let known = match items_get_mut(&mut self.panel_items, uid) {
            Some(toplevel) => {
                toplevel.set_enabled(enabled);
                true
            },
            None => false,
        };
        assert(self.sessions() =~= sessions_with_enabled(old(self).sessions(), uid@, enabled));
        Transition { reset_touches: true, known }
    }

    /// A session was captured: its window, if the session is known, is
    /// disabled with all its surfaces and otherwise left as it is. The host
    /// is asked to reset the pending touches in either case.
    pub fn item_captured(&mut self, uid: &str) -> (transition: Transition)
        requires
            old(self).wf(),
        ensures
            final(self).wf(),
            transition == (Transition {
                reset_touches: true,
                known: old(self).sessions().contains_key(uid@),
            }),
            final(self).sessions() == sessions_with_enabled(old(self).sessions(), uid@, false),
    {
        self.toggle(uid, false)
    }

    /// A session was released: its window, if the session is known, is
    /// enabled with all its surfaces and otherwise left as it is. The host
    /// is asked to reset the pending touches in either case.
    pub fn item_released(&mut self, uid: &str) -> (transition: Transition)
        requires
            old(self).wf(),
        ensures
            final(self).wf(),
            transition == (Transition {
                reset_touches: true,
                known: old(self).sessions().contains_key(uid@),
            }),
            final(self).sessions() == sessions_with_enabled(old(self).sessions(), uid@, true),
    {
        self.toggle(uid, true)
    }

    /// Runs one frame on the window of the known session `session`, if it is
    /// enabled, and returns what it sends.
    fn frame_session(&mut self, session: String, reports: &Vec<SessionReport>) -> (entry: Option<
        SessionEvents,
    >)
        requires
            old(self).wf(),
            old(self).sessions().contains_key(session@),
        ensures
            final(self).wf(),
            final(self).sessions() == old(self).sessions().insert(
                session@,
                session_after_frame(old(self).sessions()[session@], reports@, session@),
            ),
            entry is Some <==> old(self).sessions()[session@].enabled,
            entry matches Some(e) ==> e.session@ == session@
                && old(self).sessions()[session@].sends(
                reports_for(reports@, session@),
                e.surfaces@,
            ),
    {
        let place = find_session(reports, &session);
        let ghost uid = session@;
        let ghost was = old(self).sessions()[uid];
        let mut sent: Option<Vec<SurfaceEvents>> = None;
        match items_get_mut(&mut self.panel_items, session.as_str()) {
            Some(toplevel) => {
                if toplevel.enabled() {
                    match place {
                        Some(p) => {
                            sent = Some(toplevel.update(&reports[p].surfaces));
                        },
                        None => {
                            let none: Vec<SurfaceReport> = Vec::new();
                            sent = Some(toplevel.update(&none));
                        },
                    }
                }
            },
            None => {},
        }
        assert(self.sessions() =~= old(self).sessions().insert(
            uid,
            session_after_frame(was, reports@, uid),
        ));
        match sent {
            Some(surfaces) => Some(SessionEvents { session, surfaces }),
            None => None,
        }
    }

    /// Runs one frame: every enabled window runs it with what `reports`
    /// says of its session, and what each sends is returned, one entry for
    /// a session. Disabled windows are left alone and send nothing. The
    /// order of the entries is that in which the map hands out its keys.
    pub fn frame(&mut self, reports: &Vec<SessionReport>) -> (out: Vec<SessionEvents>)
        requires
            old(self).wf(),
        ensures
            final(self).wf(),
            frame_advances(old(self).sessions(), reports@, final(self).sessions()),
            frame_sends(old(self).sessions(), reports@, out@),
    {
        let mut out: Vec<SessionEvents> = Vec::new();
        let keys = items_keys(&self.panel_items);
        let mut k: usize = 0;
        while k < keys.len()
            invariant
                k <= keys.len(),
                old(self).wf(),
                self.wf(),
                self.sessions().dom() == old(self).sessions().dom(),
                forall|i: int|
                    0 <= i < keys.len() ==> old(self).sessions().contains_key(
                        (#[trigger] keys[i])@,
                    ),
                forall|i: int, j: int|
                    0 <= i < j < keys.len() ==> (#[trigger] keys[i])@ != (#[trigger] keys[j])@,
                forall|i: int|
                    k <= i < keys.len() ==> self.sessions()[(#[trigger] keys[i])@]
                        == old(self).sessions()[keys[i]@],
                forall|i: int|
                    0 <= i < k ==> self.sessions()[(#[trigger] keys[i])@]
                        == session_after_frame(old(self).sessions()[keys[i]@], reports@, keys[i]@),
                forall|i: int|
                    0 <= i < out.len() ==> {
                        &&& old(self).sessions().contains_key((#[trigger] out[i]).session@)
                        &&& old(self).sessions()[out[i].session@].enabled
                        &&& old(self).sessions()[out[i].session@].sends(
                            reports_for(reports@, out[i].session@),
                            out[i].surfaces@,
                        )
                        &&& exists|j: int| 0 <= j < k && (#[trigger] keys[j])@ == out[i].session@
                    },
                forall|i: int, j: int|
                    0 <= i < j < out.len() ==> (#[trigger] out[i]).session@ != (
                    #[trigger] out[j]).session@,
                forall|j: int|
                    0 <= j < k && old(self).sessions()[(#[trigger] keys[j])@].enabled
                        ==> exists|i: int| 0 <= i < out.len() && (#[trigger] out[i]).session@
                        == keys[j]@,
            decreases keys.len() - k,
        {
            let ghost before = self.sessions();
            let ghost sent = out@;
            let entry = self.frame_session(keys[k].clone(), reports);
            proof {
                assert forall|i: int| k < i < keys.len() implies self.sessions()[(
                #[trigger] keys[i])@] == old(self).sessions()[keys[i]@] by {
                    assert(keys[k as int]@ != keys[i]@);
                }
                assert forall|i: int| 0 <= i < k implies self.sessions()[(#[trigger] keys[i])@]
                    == before[keys[i]@] by {
                    assert(keys[i]@ != keys[k as int]@);
                }
            }
            match entry {
                Some(e) => {
                    proof {
                        assert forall|i: int| 0 <= i < sent.len() implies (
                        #[trigger] sent[i]).session@ != e.session@ by {
                            let j = choose|j: int|
                                0 <= j < k && (#[trigger] keys[j])@ == sent[i].session@;
                            assert(keys[j]@ != keys[k as int]@);
                        }
                    }
                    out.push(e);
                    assert(forall|i: int| 0 <= i < sent.len() ==> out[i] == sent[i]);
                    assert(out[sent.len() as int].session@ == keys[k as int]@);
                },
                None => {},
            }
            k = k + 1;
        }
        proof {
            assert forall|uid: Seq<char>|
                old(self).sessions().contains_key(uid) implies #[trigger] self.sessions()[uid]
                == session_after_frame(old(self).sessions()[uid], reports@, uid) by {
                assert(panel_items_of(old(self).panel_items).contains_key(uid));
                let i = choose|i: int| 0 <= i < keys.len() && (#[trigger] keys[i])@ == uid;
                assert(keys[i]@ == uid);
            }
            assert forall|uid: Seq<char>|
                old(self).sessions().contains_key(uid)
                    && old(self).sessions()[uid].enabled implies exists|i: int|
                0 <= i < out.len() && (#[trigger] out[i]).session@ == uid by {
                assert(panel_items_of(old(self).panel_items).contains_key(uid));
                let j = choose|j: int| 0 <= j < keys.len() && (#[trigger] keys[j])@ == uid;
                assert(old(self).sessions()[keys[j]@].enabled);
            }
        }
        out
    }

    /// The window of the session `uid`, if the session is known.
    pub fn toplevel(&self, uid: &str) -> (found: Option<&Toplevel>)
        ensures
            found is Some <==> self.sessions().contains_key(uid@),
            found matches Some(toplevel) ==> toplevel@ == self.sessions()[uid@],
    {
        items_get(&self.panel_items, uid)
    }

    /// The window of the session `uid`, to be changed in place, if the
    /// session is known. What the caller leaves in it is what the registry
    /// then holds for the session.
    pub fn toplevel_mut(&mut self, uid: &str) -> (found: Option<&mut Toplevel>)
        ensures
            found is Some <==> old(self).sessions().contains_key(uid@),
            found matches Some(toplevel) ==> toplevel@ == old(self).sessions()[uid@]
                && final(self).sessions() =~= old(self).sessions().insert(uid@, final(toplevel)@),
            found is None ==> final(self).sessions() =~= old(self).sessions(),
    {
        items_get_mut(&mut self.panel_items, uid)
    }
}

} // verus!
