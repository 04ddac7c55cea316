//! Spatial input sources and the choice of the one that speaks for a surface.

use vstd::prelude::*;

verus! {

/// How a spatial input source reaches a surface.
#[derive(Clone, Copy, Debug, PartialEq, Eq, Structural)]
pub enum InputKind {
    /// A ray or cursor.
    Pointer,
    /// A tracked hand.
    Hand,
    /// A single tracked point, such as the tip of a stylus.
    Tip,
}

/// A two-component scroll amount, carried as the bit patterns of two
/// single-precision numbers. The crate hands it on and never reads it.
#[derive(Clone, Copy, Debug, PartialEq, Eq, Structural)]
pub struct ScrollVector {
    pub x_bits: u32,
    pub y_bits: u32,
}

/// What the host reports of one input source in one frame.
#[derive(Clone, Copy, Debug, PartialEq, Eq)]
pub struct InputSource {
    /// The caller's name for the source; events refer to the source by it.
    pub handle: u64,
    pub kind: InputKind,
    /// How far the source is from the surface, as a key: the keys of two
    /// sources order as their signed distances do, the smaller the closer,
    /// and sources equally far have equal keys.
    pub distance: i64,
    /// The continuous scroll amount in the source's payload, if it has one.
    pub scroll_continuous: Option<ScrollVector>,
    /// The discrete scroll amount in the source's payload, if it has one.
    pub scroll_discrete: Option<ScrollVector>,
}

impl InputSource {
    /// Whether the source is a ray or cursor rather than a direct touch.
    pub open spec fn is_pointer(self) -> bool {
        self.kind == InputKind::Pointer
    }

    /// Whether the source is a ray or cursor rather than a direct touch.
    pub fn pointer_filter(&self) -> (r: bool)
        ensures
            r == self.is_pointer(),
    {
        match self.kind {
            InputKind::Pointer => true,
            _ => false,
        }
    }
}

/// Whether any source in `sources` is a pointer.
pub open spec fn has_pointer(sources: Seq<InputSource>) -> bool {
    exists|j: int| 0 <= j < sources.len() && (#[trigger] sources[j]).is_pointer()
}

/// Whether `i` is the place of the closest pointer in `sources`: a pointer
/// that no pointer before it matches or beats, and no pointer after it beats.
pub open spec fn is_closest_pointer(sources: Seq<InputSource>, i: int) -> bool {
    &&& 0 <= i < sources.len()
    &&& sources[i].is_pointer()
    &&& forall|j: int|
        0 <= j < i && (#[trigger] sources[j]).is_pointer() ==> sources[j].distance
            > sources[i].distance
    &&& forall|j: int|
        i < j < sources.len() && (#[trigger] sources[j]).is_pointer() ==> sources[i].distance
            <= sources[j].distance
}

/// The pointer that speaks for `sources`: the closest one, the earliest
/// among equally close ones; none where no source is a pointer.
pub open spec fn closest_pointer(sources: Seq<InputSource>) -> Option<InputSource> {
    if has_pointer(sources) {
        Some(sources[choose|i: int| is_closest_pointer(sources, i)])
    } else {
        None
    }
}

/// At most one place is that of the closest pointer.
pub proof fn lemma_closest_pointer_unique(sources: Seq<InputSource>, i: int, j: int)
    requires
        is_closest_pointer(sources, i),
        is_closest_pointer(sources, j),
    ensures
        i == j,
{
}

/// Wherever a source is a pointer, some place is that of the closest pointer.
pub proof fn lemma_closest_pointer_exists(sources: Seq<InputSource>) -> (i: int)
    requires
        has_pointer(sources),
    ensures
        is_closest_pointer(sources, i),
    decreases sources.len(),
{
    let last = sources.len() - 1;
    let front = sources.drop_last();
    if has_pointer(front) {
        let best = lemma_closest_pointer_exists(front);
        if sources[last].is_pointer() && front[best].distance
            > sources[last].distance {
            assert forall|j: int| 0 <= j < last && (#[trigger] sources[j]).is_pointer() implies
                sources[j].distance > sources[last].distance by {
                assert(front[j].is_pointer());
            }
            last
        } else {
            assert forall|j: int|
                best < j < sources.len() && (#[trigger] sources[j]).is_pointer() implies
                sources[best].distance <= sources[j].distance by {
                if j < last {
                    assert(front[j].is_pointer());
                }
            }
            assert forall|j: int| 0 <= j < best && (#[trigger] sources[j]).is_pointer() implies
                sources[j].distance > sources[best].distance by {
                assert(front[j].is_pointer());
            }
            best
        }
    } else {
        assert forall|j: int| 0 <= j < last implies !(#[trigger] sources[j]).is_pointer() by {
            if sources[j].is_pointer() {
                assert(front[j].is_pointer());
            }
        }
        last
    }
}

/// The pointer chosen from `sources` is one of them, is a pointer, and no
/// pointer among them is closer; none is chosen exactly where none of them
/// is a pointer.
pub proof fn lemma_closest_pointer_is_minimal(sources: Seq<InputSource>)
    ensures
        closest_pointer(sources) is Some <==> has_pointer(sources),
        closest_pointer(sources) matches Some(winner) ==> {
            &&& winner.is_pointer()
            &&& sources.contains(winner)
            &&& forall|j: int|
                0 <= j < sources.len() && (#[trigger] sources[j]).is_pointer()
                    ==> winner.distance <= sources[j].distance
        },
{
    if has_pointer(sources) {
        let found = lemma_closest_pointer_exists(sources);
        let chosen = choose|i: int| is_closest_pointer(sources, i);
        assert(closest_pointer(sources) == Some(sources[chosen]));
    }
}

/// The place of the closest pointer in `sources`.
pub fn closest_pointer_index(sources: &Vec<InputSource>) -> (r: Option<usize>)
    ensures
        r is Some <==> has_pointer(sources@),
        r matches Some(i) ==> is_closest_pointer(sources@, i as int),
{
    let mut best: Option<usize> = None;
    let mut k: usize = 0;
    while k < sources.len()
        invariant
            k <= sources.len(),
            best is Some <==> has_pointer(sources@.take(k as int)),
            best matches Some(i) ==> is_closest_pointer(sources@.take(k as int), i as int),
        decreases sources.len() - k,
    {
        let ghost before = sources@.take(k as int);
        let ghost after = sources@.take(k + 1);
        let candidate = &sources[k];
        if candidate.pointer_filter() {
            match best {
                Some(i) => {
                    if sources[i].distance > candidate.distance {
                        best = Some(k);
                    }
                },
                None => {
                    best = Some(k);
                },
            }
            assert(after[k as int].is_pointer());
        } else {
            assert(has_pointer(after) <==> has_pointer(before));
        }
        k = k + 1;
    }
    assert(sources@.take(k as int) == sources@);
    best
}

/// The pointer that speaks for `sources`.
pub fn select_closest_pointer(sources: &Vec<InputSource>) -> (r: Option<InputSource>)
    ensures
        r == closest_pointer(sources@),
{
    match closest_pointer_index(sources) {
        Some(i) => {
            proof {
                let c = choose|c: int| is_closest_pointer(sources@, c);
                lemma_closest_pointer_unique(sources@, i as int, c);
            }
            Some(sources[i])
        },
        None => None,
    }
}

} // verus!
