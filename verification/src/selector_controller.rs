//! The controller that switches an input selector to the stream that shows the most faces.
//!
//! Pads of the selector are named by integer identifiers; times are readings of a
//! monotonic clock in nanoseconds.
use std::collections::HashMap;
use vstd::prelude::*;
use vstd::std_specs::iter::IteratorSpec;

verus! {

broadcast use vstd::std_specs::hash::group_hash_axioms;

/// How long, in nanoseconds (200 ms), the controller keeps a newly activated pad before it
/// considers another switch.
pub const SWITCH_INTERVAL_NS: u64 = 200_000_000;

/// Nanoseconds from `since` to `now`; zero when `now` is earlier than `since`.
pub open spec fn elapsed_ns(since: u64, now: u64) -> int {
    if now >= since {
        now - since
    } else {
        0
    }
}

/// `pad` holds the greatest face count of `faces`.
pub open spec fn holds_most_faces(faces: Map<u64, usize>, pad: u64) -> bool {
    &&& faces.contains_key(pad)
    &&& forall|k: u64| #[trigger] faces.contains_key(k) ==> faces[k] <= faces[pad]
}

/// Position, in a walk over face counts, of the last entry with the greatest count
/// (zero for a walk of fewer than two entries).
pub open spec fn last_top_index(walk: Seq<(u64, usize)>) -> int
    decreases walk.len(),
{
    if walk.len() <= 1 {
        0
    } else {
        let i = last_top_index(walk.drop_last());
        if walk.last().1 >= walk[i].1 {
            walk.len() - 1
        } else {
            i
        }
    }
}

/// In a non-empty walk, `last_top_index` is an entry with the greatest count, and every
/// later entry has a smaller count.
pub proof fn lemma_last_top_index(walk: Seq<(u64, usize)>)
    requires
        walk.len() > 0,
    ensures
        0 <= last_top_index(walk) < walk.len(),
        forall|j: int| 0 <= j < walk.len() ==> (#[trigger] walk[j]).1 <= walk[last_top_index(walk)].1,
        forall|j: int|
            last_top_index(walk) < j < walk.len() ==> (#[trigger] walk[j]).1 < walk[last_top_index(
                walk,
            )].1,
    decreases walk.len(),
{
    if walk.len() > 1 {
        let prefix = walk.drop_last();
        lemma_last_top_index(prefix);
        assert forall|j: int| 0 <= j < prefix.len() implies #[trigger] walk[j] == prefix[j] by {}
    }
}

/// What a call to `pad_to_activate` at `now` does to a controller whose active pad is
/// `active`, last chosen at `last`, when the pad it picks from its face counts is `top`:
/// it answers `r` and leaves `new_active` active, chosen at `new_last`.
///
/// Within the switch interval nothing changes. After it, the picked pad becomes active
/// at `now` and is returned, unless it is the active pad already, in which case nothing
/// changes.
pub open spec fn activation_rule(
    top: u64,
    active: u64,
    last: u64,
    now: u64,
    r: Option<u64>,
    new_active: u64,
    new_last: u64,
) -> bool {
    if elapsed_ns(last, now) >= SWITCH_INTERVAL_NS && top != active {
        &&& r == Some(top)
        &&& new_active == top
        &&& new_last == now
    } else {
        &&& r is None
        &&& new_active == active
        &&& new_last == last
    }
}

/// The name of the messages in which the face detector reports what it found.
pub const FACEDETECT_MESSAGE: &'static str = "facedetect";

/// The `faces` field of a message holds a value that is not a list.
#[derive(Clone, Copy, Debug, PartialEq, Eq)]
pub struct FieldTypeMismatch;

/// The number of faces that a face detector message reports, from the lookup of its
/// `faces` field: the length of the list found there, or zero when the field is
/// missing or holds something else than a list.
pub fn get_faces_num(faces: &Result<Option<usize>, FieldTypeMismatch>) -> (n: usize)
    ensures
        n == faces_reported(*faces),
        faces matches Ok(Some(len)) ==> n == *len,
        !(faces matches Ok(Some(_))) ==> n == 0,
{
    match faces {
        Ok(Some(len)) => *len,
        _ => 0,
    }
}

/// Chooses which sink pad of the selector is active, from the number of faces last
/// reported on each pad.
pub struct SelectorController {
    last_change_ns: u64,
    active_pad: u64,
    faces_per_pad: HashMap<u64, usize>,
}

impl SelectorController {
    /// The pad that is active.
    pub closed spec fn active(&self) -> u64 {
        self.active_pad
    }

    /// When the active pad was last chosen.
    pub closed spec fn last_change(&self) -> u64 {
        self.last_change_ns
    }

    /// The number of faces last reported on each pad.
    pub closed spec fn faces(&self) -> Map<u64, usize> {
        self.faces_per_pad@
    }

    /// The active pad always has a face count.
    pub open spec fn wf(&self) -> bool {
        self.faces().contains_key(self.active())
    }

    /// A controller whose active pad is `pad`, with no face seen on it yet, chosen at `now_ns`.
    pub fn new(pad: u64, now_ns: u64) -> (c: Self)
        ensures
            c.wf(),
            c.active() == pad,
            c.last_change() == now_ns,
            c.faces() == Map::<u64, usize>::empty().insert(pad, 0),
    {
        let mut faces: HashMap<u64, usize> = HashMap::new();
        faces.insert(pad, 0);
        SelectorController { last_change_ns: now_ns, active_pad: pad, faces_per_pad: faces }
    }

    /// Records that `faces` faces were last seen on `pad`.
    pub fn update(&mut self, pad: u64, faces: usize)
        requires
            old(self).wf(),
        ensures
            final(self).wf(),
            final(self).faces() == old(self).faces().insert(pad, faces),
            final(self).active() == old(self).active(),
            final(self).last_change() == old(self).last_change(),
    {
        self.faces_per_pad.insert(pad, faces);
    }

    /// The entries of the face counts, in the order in which the map is walked.
    pub closed spec fn walk(&self) -> Seq<(u64, usize)> {
        vstd::std_specs::hash::into_iter(vstd::std_specs::hash::spec_hash_map_iter(&self.faces_per_pad))
    }

    /// The pad that the controller picks from its face counts: of the entries of its
    /// map, in the order in which the map is walked, the last one with the greatest
    /// count.
    pub open spec fn pick(&self) -> u64 {
        self.walk()[last_top_index(self.walk())].0
    }

    /// Walks the face counts and returns the picked pad, which holds the most faces.
    fn top_pad(&self) -> (pad: u64)
        requires
            self.wf(),
        ensures
            pad == self.pick(),
            holds_most_faces(self.faces(), pad),
    {
        let ghost walk = self.walk();
        let ghost m = self.faces_per_pad@;
        let mut best_pad: u64 = self.active_pad;
        let mut best_faces: usize = 0;
        let mut found = false;
        for (pad, faces) in it: self.faces_per_pad.iter()
            invariant
                it.seq() == vstd::std_specs::hash::spec_hash_map_iter(&self.faces_per_pad).remaining(),
                it.seq().unref() == walk,
                found <==> it.index() > 0,
                found ==> best_pad == walk[last_top_index(walk.take(it.index()))].0,
                found ==> best_faces == walk[last_top_index(walk.take(it.index()))].1,
        {
            let ghost i = it.index();
            proof {
                assert(walk.take(i + 1).drop_last() =~= walk.take(i));
                if i > 0 {
                    lemma_last_top_index(walk.take(i));
                }
            }
            if !found || *faces >= best_faces {
                best_pad = *pad;
                best_faces = *faces;
            }
            found = true;
        }
        proof {
            let v = vstd::std_specs::hash::spec_hash_map_iter(&self.faces_per_pad).remaining();
            assert(m.dom().contains(self.active_pad));
            assert(walk.take(walk.len() as int) =~= walk);
            lemma_last_top_index(walk);
            let t = last_top_index(walk);
            assert(walk[t] == (*v[t].0, *v[t].1));
            assert(m.contains_key(*v[t].0));
            assert forall|k: u64| #[trigger] m.contains_key(k) implies m[k] <= m[best_pad] by {
                assert(v.contains((&k, &m[k])));
                let j = choose|j: int| 0 <= j < v.len() && v[j] == (&k, &m[k]);
                assert(walk[j] == (*v[j].0, *v[j].1));
                assert(walk[j].1 <= walk[t].1);
            }
        }
        best_pad
    }

    /// The pad to switch the selector to at `now_ns`, if any.
    ///
    /// Within `SWITCH_INTERVAL_NS` of the last switch nothing changes. After that the
    /// controller takes the picked pad, which holds the most faces; when it is not the
    /// active pad, it becomes the active pad, the switch is dated `now_ns` and the pad
    /// is returned.
    pub fn pad_to_activate(&mut self, now_ns: u64) -> (r: Option<u64>)
        requires
            old(self).wf(),
        ensures
            final(self).wf(),
            final(self).faces() == old(self).faces(),
            final(self).pick() == old(self).pick(),
            now_ns as int >= old(self).last_change() as int + SWITCH_INTERVAL_NS as int && old(
                self,
            ).pick() != old(self).active() ==> r == Some(old(self).pick()),
            elapsed_ns(old(self).last_change(), now_ns) >= SWITCH_INTERVAL_NS ==> holds_most_faces(
                old(self).faces(),
                old(self).pick(),
            ),
            activation_rule(
                old(self).pick(),
                old(self).active(),
                old(self).last_change(),
                now_ns,
                r,
                final(self).active(),
                final(self).last_change(),
            ),
    {
        if now_ns >= self.last_change_ns && now_ns - self.last_change_ns >= SWITCH_INTERVAL_NS {
            let top = self.top_pad();
            if top != self.active_pad {
                self.active_pad = top;
                self.last_change_ns = now_ns;
                Some(top)
            } else {
                None
            }
        } else {
            None
        }
    }

    /// Handles an element message named `structure_name`, posted by the element in
    /// front of `pad` at `now_ns`, whose `faces` field was looked up as `faces`.
    ///
    /// A message that does not come from the face detector is ignored. Otherwise the
    /// face count of `pad` is recorded and the pad to switch to, if any, is returned.
    pub fn on_element_message(
        &mut self,
        structure_name: &str,
        faces: &Result<Option<usize>, FieldTypeMismatch>,
        pad: u64,
        now_ns: u64,
    ) -> (r: Option<u64>)
        requires
            old(self).wf(),
        ensures
            final(self).wf(),
            structure_name@ != FACEDETECT_MESSAGE@ ==> r is None && *final(self) == *old(self),
            structure_name@ == FACEDETECT_MESSAGE@ ==> {
                &&& final(self).faces() == old(self).faces().insert(pad, faces_reported(*faces))
                &&& elapsed_ns(old(self).last_change(), now_ns) >= SWITCH_INTERVAL_NS
                    ==> holds_most_faces(final(self).faces(), final(self).pick())
                &&& activation_rule(
                    final(self).pick(),
                    old(self).active(),
                    old(self).last_change(),
                    now_ns,
                    r,
                    final(self).active(),
                    final(self).last_change(),
                )
            },
    {
        let name: String = structure_name.to_owned();
        let expected: String = FACEDETECT_MESSAGE.to_owned();
        if name != expected {
            return None;
        }
        self.update(pad, get_faces_num(faces));
        self.pad_to_activate(now_ns)
    }
}

/// The face count that `get_faces_num` takes from a lookup of the `faces` field.
pub open spec fn faces_reported(faces: Result<Option<usize>, FieldTypeMismatch>) -> usize {
    match faces {
        Ok(Some(len)) => len,
        _ => 0,
    }
}

} // verus!

verus! {

/// The number of faces a message reports is the length of its `faces` list, whatever
/// that length; a missing field or one of another type reports none.
pub proof fn lemma_faces_reported(len: usize)
    ensures
        faces_reported(Ok(Some(len))) == len,
        faces_reported(Ok(None)) == 0,
        faces_reported(Err(FieldTypeMismatch)) == 0,
{
}

/// The switch interval counts on the clock, however long ago the last switch was: once
/// `SWITCH_INTERVAL_NS` nanoseconds have passed since it, the picked pad is activated
/// at `now` when it is not active already; before that, including when the clock reads
/// earlier than the last switch, nothing changes.
pub proof fn lemma_activation_by_clock(
    top: u64,
    active: u64,
    last: u64,
    now: u64,
    r: Option<u64>,
    new_active: u64,
    new_last: u64,
)
    requires
        activation_rule(top, active, last, now, r, new_active, new_last),
    ensures
        now as int >= last as int + SWITCH_INTERVAL_NS as int && top != active ==> {
            &&& r == Some(top)
            &&& new_active == top
            &&& new_last == now
        },
        now as int >= last as int + SWITCH_INTERVAL_NS as int && top == active ==> {
            &&& r is None
            &&& new_active == active
            &&& new_last == last
        },
        (now as int) < (last as int) + (SWITCH_INTERVAL_NS as int) ==> {
            &&& r is None
            &&& new_active == active
            &&& new_last == last
        },
{
}

/// A controller that has just switched to a pad does not switch again before the
/// switch interval has passed, whatever face counts it learns in between.
pub proof fn lemma_no_switch_within_interval(
    top: u64,
    active: u64,
    last: u64,
    t1: u64,
    p: u64,
    a1: u64,
    l1: u64,
    later_top: u64,
    t2: u64,
    r2: Option<u64>,
    a2: u64,
    l2: u64,
)
    requires
        activation_rule(top, active, last, t1, Some(p), a1, l1),
        activation_rule(later_top, a1, l1, t2, r2, a2, l2),
        elapsed_ns(t1, t2) < SWITCH_INTERVAL_NS,
    ensures
        r2 is None,
        a2 == p,
        l2 == t1,
{
}

/// Without new face counts, a controller never switches twice: after a switch, the
/// active pad is the one it picks, so the next call, however late, switches nowhere.
pub proof fn lemma_no_switch_twice_without_new_counts(
    top: u64,
    active: u64,
    last: u64,
    t1: u64,
    p: u64,
    a1: u64,
    l1: u64,
    t2: u64,
    r2: Option<u64>,
    a2: u64,
    l2: u64,
)
    requires
        activation_rule(top, active, last, t1, Some(p), a1, l1),
        activation_rule(top, a1, l1, t2, r2, a2, l2),
    ensures
        r2 is None,
        a2 == p,
        l2 == t1,
{
}

/// When one pad shows strictly more faces than every other, the controller ends up on
/// it once the switch interval has passed, and switches exactly when it was not on it:
/// after the interval, `pad_to_activate` picks a pad that holds the most faces.
pub proof fn lemma_switch_goes_to_unique_top(
    faces: Map<u64, usize>,
    top: u64,
    active: u64,
    last: u64,
    now: u64,
    best: u64,
    r: Option<u64>,
    a: u64,
    l: u64,
)
    requires
        faces.contains_key(best),
        forall|k: u64| #[trigger] faces.contains_key(k) && k != best ==> faces[k] < faces[best],
        holds_most_faces(faces, top),
        activation_rule(top, active, last, now, r, a, l),
        elapsed_ns(last, now) >= SWITCH_INTERVAL_NS,
    ensures
        a == best,
        r is Some <==> active != best,
{
    if top != best {
        assert(faces[top] < faces[best]);
    }
}

} // verus!
