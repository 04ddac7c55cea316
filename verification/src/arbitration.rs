//! From what an interaction plane saw in a frame to the pointer events the
//! remote application is sent.

use crate::input::{closest_pointer, has_pointer, is_closest_pointer, select_closest_pointer};
use crate::input::{lemma_closest_pointer_exists, InputSource, ScrollVector};
use vstd::prelude::*;

verus! {

/// A pointer event for one drawable region.
#[derive(Clone, Copy, Debug, PartialEq, Eq)]
pub enum PointerEvent {
    /// The pointer moved to where the source `source` meets the surface.
    Motion { source: u64 },
    /// The pointer scrolled by whichever amounts are present.
    Scroll { continuous: Option<ScrollVector>, discrete: Option<ScrollVector> },
    /// The primary button went down (`pressed`) or up.
    Button { pressed: bool },
}

/// What an interaction plane reports of one frame.
#[derive(Clone, Debug, PartialEq, Eq)]
pub struct PlaneReport {
    /// The sources hovering in front of the plane, in the order met.
    pub hovering: Vec<InputSource>,
    /// The sources in active contact with the plane, in the order met.
    pub touching: Vec<InputSource>,
    /// Whether the plane got its first touch in this frame.
    pub touch_started: bool,
    /// Whether the last touch left the plane in this frame.
    pub touch_stopped: bool,
}

/// The mathematical value of a [`PlaneReport`].
pub struct PlaneReportView {
    pub hovering: Seq<InputSource>,
    pub touching: Seq<InputSource>,
    pub touch_started: bool,
    pub touch_stopped: bool,
}

impl View for PlaneReport {
    type V = PlaneReportView;

    open spec fn view(&self) -> PlaneReportView {
        PlaneReportView {
            hovering: self.hovering@,
            touching: self.touching@,
            touch_started: self.touch_started,
            touch_stopped: self.touch_stopped,
        }
    }
}

impl PlaneReportView {
    /// The report of a frame in which nothing happened.
    pub open spec fn idle() -> PlaneReportView {
        PlaneReportView {
            hovering: Seq::empty(),
            touching: Seq::empty(),
            touch_started: false,
            touch_stopped: false,
        }
    }
}

impl PlaneReport {
    /// The report of a frame in which nothing happened.
    pub fn idle() -> (r: PlaneReport)
        ensures
            r@ == PlaneReportView::idle(),
    {
        PlaneReport {
            hovering: Vec::new(),
            touching: Vec::new(),
            touch_started: false,
            touch_stopped: false,
        }
    }

    /// A copy of this report.
    pub fn duplicate(&self) -> (r: PlaneReport)
        ensures
            r@ == self@,
    {
        PlaneReport {
            hovering: copy_sources(&self.hovering),
            touching: copy_sources(&self.touching),
            touch_started: self.touch_started,
            touch_stopped: self.touch_stopped,
        }
    }
}

/// A copy of `sources`.
pub fn copy_sources(sources: &Vec<InputSource>) -> (r: Vec<InputSource>)
    ensures
        r@ == sources@,
{
    let mut out: Vec<InputSource> = Vec::new();
    let mut k: usize = 0;
    while k < sources.len()
        invariant
            k <= sources.len(),
            out@ == sources@.take(k as int),
        decreases sources.len() - k,
    {
        out.push(sources[k]);
        assert(sources@.take(k + 1) == sources@.take(k as int).push(sources@[k as int]));
        k = k + 1;
    }
    assert(sources@.take(k as int) == sources@);
    out
}

/// `first` followed by `second`.
pub fn chain_sources(first: &Vec<InputSource>, second: &Vec<InputSource>) -> (r: Vec<InputSource>)
    ensures
        r@ == first@ + second@,
{
    let mut out: Vec<InputSource> = copy_sources(first);
    let mut k: usize = 0;
    while k < second.len()
        invariant
            k <= second.len(),
            out@ == first@ + second@.take(k as int),
        decreases second.len() - k,
    {
        out.push(second[k]);
        assert(second@.take(k + 1) == second@.take(k as int).push(second@[k as int]));
        assert(first@ + second@.take(k + 1) == (first@ + second@.take(k as int)).push(
            second@[k as int],
        ));
        k = k + 1;
    }
    assert(second@.take(k as int) == second@);
    out
}

/// The events of the hover group: the closest pointer among the hovering
/// sources followed by the touching ones moves the pointer and scrolls by
/// what its payload holds. The scroll is sent even when it holds neither
/// amount. No pointer, no event.
pub open spec fn hover_events(hovering: Seq<InputSource>, touching: Seq<InputSource>) -> Seq<
    PointerEvent,
> {
    match closest_pointer(hovering + touching) {
        Some(winner) => seq![
            PointerEvent::Motion { source: winner.handle },
            PointerEvent::Scroll {
                continuous: winner.scroll_continuous,
                discrete: winner.scroll_discrete,
            },
        ],
        None => Seq::empty(),
    }
}

/// The events of the touch group: the closest pointer among the touching
/// sources moves the pointer once more. No pointer, no event.
pub open spec fn touch_events(touching: Seq<InputSource>) -> Seq<PointerEvent> {
    match closest_pointer(touching) {
        Some(winner) => seq![PointerEvent::Motion { source: winner.handle }],
        None => Seq::empty(),
    }
}

/// The events of the touch edges, one for each edge the frame reports: down
/// if a touch started, then up if the touch stopped.
pub open spec fn button_events(touch_started: bool, touch_stopped: bool) -> Seq<PointerEvent> {
    let down: Seq<PointerEvent> = if touch_started {
        seq![PointerEvent::Button { pressed: true }]
    } else {
        Seq::empty()
    };
    let up: Seq<PointerEvent> = if touch_stopped {
        seq![PointerEvent::Button { pressed: false }]
    } else {
        Seq::empty()
    };
    down + up
}

/// All events of one frame of one surface, in the order they are sent: hover
/// group, touch group, touch edges.
pub open spec fn frame_events(report: PlaneReportView) -> Seq<PointerEvent> {
    hover_events(report.hovering, report.touching) + touch_events(report.touching) + button_events(
        report.touch_started,
        report.touch_stopped,
    )
}

/// How many of `events` move the pointer.
pub open spec fn motion_count(events: Seq<PointerEvent>) -> nat
    decreases events.len(),
{
    if events.len() == 0 {
        0
    } else {
        motion_count(events.drop_last()) + if events.last() is Motion {
            1nat
        } else {
            0nat
        }
    }
}

/// How many of `events` press or release the button.
pub open spec fn button_count(events: Seq<PointerEvent>) -> nat
    decreases events.len(),
{
    if events.len() == 0 {
        0
    } else {
        button_count(events.drop_last()) + if events.last() is Button {
            1nat
        } else {
            0nat
        }
    }
}

/// What a single event counts for.
pub proof fn lemma_count_single(event: PointerEvent)
    ensures
        motion_count(seq![event]) == if event is Motion {
            1nat
        } else {
            0nat
        },
        button_count(seq![event]) == if event is Button {
            1nat
        } else {
            0nat
        },
{
    reveal_with_fuel(motion_count, 2);
    reveal_with_fuel(button_count, 2);
    assert(seq![event].drop_last().len() == 0);
    assert(seq![event].last() == event);
}

/// Counting motions in two runs of events adds up.
pub proof fn lemma_motion_count_add(a: Seq<PointerEvent>, b: Seq<PointerEvent>)
    ensures
        motion_count(a + b) == motion_count(a) + motion_count(b),
    decreases b.len(),
{
    if b.len() == 0 {
        assert(a + b == a);
    } else {
        lemma_motion_count_add(a, b.drop_last());
        assert((a + b).drop_last() == a + b.drop_last());
    }
}

/// Counting button events in two runs of events adds up.
pub proof fn lemma_button_count_add(a: Seq<PointerEvent>, b: Seq<PointerEvent>)
    ensures
        button_count(a + b) == button_count(a) + button_count(b),
    decreases b.len(),
{
    if b.len() == 0 {
        assert(a + b == a);
    } else {
        lemma_button_count_add(a, b.drop_last());
        assert((a + b).drop_last() == a + b.drop_last());
    }
}

/// Whether `event` moves the pointer to a pointer of `group` that is the
/// first of those than which no pointer of the group is closer.
pub open spec fn names_closest_pointer(group: Seq<InputSource>, event: PointerEvent) -> bool {
    exists|i: int|
        {
            &&& is_closest_pointer(group, i)
            &&& event == PointerEvent::Motion { source: #[trigger] group[i].handle }
            &&& forall|j: int|
                0 <= j < group.len() && (#[trigger] group[j]).is_pointer()
                    ==> group[i].distance <= group[j].distance
        }
}

/// For any hovering and touching sources, the hover group moves the pointer
/// exactly once if one of them is a pointer and not at all otherwise; the
/// motion names a pointer of the group than which none is closer.
pub proof fn lemma_hover_group_selects_closest(
    hovering: Seq<InputSource>,
    touching: Seq<InputSource>,
)
    ensures
        motion_count(hover_events(hovering, touching)) == if has_pointer(hovering + touching) {
            1nat
        } else {
            0nat
        },
        button_count(hover_events(hovering, touching)) == 0,
        !has_pointer(hovering + touching) ==> hover_events(hovering, touching).len() == 0,
        has_pointer(hovering + touching) ==> hover_events(hovering, touching).len() == 2
            && names_closest_pointer(hovering + touching, hover_events(hovering, touching)[0])
            && hover_events(hovering, touching)[1] is Scroll,
{
    let group = hovering + touching;
    let events = hover_events(hovering, touching);
    if has_pointer(group) {
        let found = lemma_closest_pointer_exists(group);
        let i = choose|i: int| is_closest_pointer(group, i);
        let motion = PointerEvent::Motion { source: group[i].handle };
        let scroll = PointerEvent::Scroll {
            continuous: group[i].scroll_continuous,
            discrete: group[i].scroll_discrete,
        };
        assert(events == seq![motion] + seq![scroll]);
        lemma_count_single(motion);
        lemma_count_single(scroll);
        lemma_motion_count_add(seq![motion], seq![scroll]);
        lemma_button_count_add(seq![motion], seq![scroll]);
    }
}

/// For any touching sources, the touch group moves the pointer exactly once
/// if one of them is a pointer and not at all otherwise; the motion names a
/// pointer of the group than which none is closer.
pub proof fn lemma_touch_group_selects_closest(touching: Seq<InputSource>)
    ensures
        motion_count(touch_events(touching)) == if has_pointer(touching) {
            1nat
        } else {
            0nat
        },
        button_count(touch_events(touching)) == 0,
        !has_pointer(touching) ==> touch_events(touching).len() == 0,
        has_pointer(touching) ==> touch_events(touching).len() == 1 && names_closest_pointer(
            touching,
            touch_events(touching)[0],
        ),
{
    if has_pointer(touching) {
        let found = lemma_closest_pointer_exists(touching);
        let i = choose|i: int| is_closest_pointer(touching, i);
        let motion = PointerEvent::Motion { source: touching[i].handle };
        assert(touch_events(touching) == seq![motion]);
        lemma_count_single(motion);
    }
}

/// How many touch edges a frame reports.
pub open spec fn edge_count(touch_started: bool, touch_stopped: bool) -> nat {
    (if touch_started {
        1nat
    } else {
        0nat
    }) + (if touch_stopped {
        1nat
    } else {
        0nat
    })
}

/// Each touch edge gives exactly one button event, down for a start and up
/// for a stop, the down before the up where a frame reports both; a frame
/// without an edge gives none: however long a touch is held, the button is
/// not sent again.
pub proof fn lemma_button_is_edge_triggered(touch_started: bool, touch_stopped: bool)
    ensures
        button_count(button_events(touch_started, touch_stopped)) == edge_count(
            touch_started,
            touch_stopped,
        ),
        button_events(touch_started, touch_stopped).len() == edge_count(
            touch_started,
            touch_stopped,
        ),
        motion_count(button_events(touch_started, touch_stopped)) == 0,
        touch_started && !touch_stopped ==> button_events(touch_started, touch_stopped) == seq![
            PointerEvent::Button { pressed: true },
        ],
        !touch_started && touch_stopped ==> button_events(touch_started, touch_stopped) == seq![
            PointerEvent::Button { pressed: false },
        ],
        touch_started && touch_stopped ==> button_events(touch_started, touch_stopped) == seq![
            PointerEvent::Button { pressed: true },
            PointerEvent::Button { pressed: false },
        ],
        !touch_started && !touch_stopped ==> button_events(touch_started, touch_stopped)
            == Seq::<PointerEvent>::empty(),
{
    let down = PointerEvent::Button { pressed: true };
    let up = PointerEvent::Button { pressed: false };
    let none = Seq::<PointerEvent>::empty();
    lemma_count_single(down);
    lemma_count_single(up);
    lemma_motion_count_add(seq![down], seq![up]);
    lemma_button_count_add(seq![down], seq![up]);
    assert(seq![down] + seq![up] == seq![down, up]);
    assert(seq![down] + none == seq![down]);
    assert(none + seq![up] == seq![up]);
    assert(none + none == none);
}

/// In every frame the motions sent are one for each group that holds a
/// pointer, and the button events sent are one for each touch edge the
/// frame reports.
pub proof fn lemma_frame_event_counts(report: PlaneReportView)
    ensures
        motion_count(frame_events(report)) == (if has_pointer(report.hovering + report.touching) {
            1nat
        } else {
            0nat
        }) + (if has_pointer(report.touching) {
            1nat
        } else {
            0nat
        }),
        button_count(frame_events(report)) == edge_count(
            report.touch_started,
            report.touch_stopped,
        ),
{
    let hover = hover_events(report.hovering, report.touching);
    let touch = touch_events(report.touching);
    let button = button_events(report.touch_started, report.touch_stopped);
    lemma_hover_group_selects_closest(report.hovering, report.touching);
    lemma_touch_group_selects_closest(report.touching);
    lemma_button_is_edge_triggered(report.touch_started, report.touch_stopped);
    lemma_motion_count_add(hover, touch);
    lemma_motion_count_add(hover + touch, button);
    lemma_button_count_add(hover, touch);
    lemma_button_count_add(hover + touch, button);
}

/// A frame in which nothing happened sends nothing.
pub proof fn lemma_idle_frame_is_silent()
    ensures
        frame_events(PlaneReportView::idle()).len() == 0,
{
    let none = Seq::<InputSource>::empty();
    assert(none + none == none);
    assert(!has_pointer(none));
}

/// Decides the events of one frame from what the plane reports.
pub fn arbitrate(report: &PlaneReport) -> (events: Vec<PointerEvent>)
    ensures
        events@ == frame_events(report@),
{
    let mut events: Vec<PointerEvent> = Vec::new();
    let group = chain_sources(&report.hovering, &report.touching);
    if let Some(closest_hover) = select_closest_pointer(&group) {
        events.push(PointerEvent::Motion { source: closest_hover.handle });
        events.push(
            PointerEvent::Scroll {
                continuous: closest_hover.scroll_continuous,
                discrete: closest_hover.scroll_discrete,
            },
        );
    }
    assert(events@ == hover_events(report@.hovering, report@.touching));
    if let Some(closest_interacting) = select_closest_pointer(&report.touching) {
        events.push(PointerEvent::Motion { source: closest_interacting.handle });
    }
    assert(events@ == hover_events(report@.hovering, report@.touching) + touch_events(
        report@.touching,
    ));
    if report.touch_started {
        events.push(PointerEvent::Button { pressed: true });
    }
    if report.touch_stopped {
        events.push(PointerEvent::Button { pressed: false });
    }
    assert(events@ == frame_events(report@));
    events
}

} // verus!
