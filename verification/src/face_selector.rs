//! The face selecting aggregator: of the frames that arrive together on its sink pads,
//! it passes on the one that shows the most faces, and marks the output as
//! discontinuous whenever the chosen pad changes.
use vstd::prelude::*;

use crate::face_counter::ImageDims;

verus! {

/// Width of the frames the element accepts, in pixels.
pub const IMAGE_WIDTH: i32 = 320;

/// Height of the frames the element accepts, in pixels.
pub const IMAGE_HEIGHT: i32 = 240;

/// The dimensions under which the face detector reads a frame.
pub fn frame_dims() -> (d: ImageDims)
    ensures
        d.width == IMAGE_WIDTH,
        d.height == IMAGE_HEIGHT,
{
    ImageDims { width: IMAGE_WIDTH, height: IMAGE_HEIGHT }
}

/// Frame rate of the accepted video, as a fraction: frames per second.
pub const FRAMERATE_NUM: i32 = 30;
pub const FRAMERATE_DEN: i32 = 1;

/// The name under which the element is registered.
pub const ELEMENT_NAME: &'static str = "rsFaceSelector";

/// The rank of an element factory that is never picked automatically.
pub const RANK_NONE: u32 = 0;

/// What a plugin registers of an element: its factory name and rank.
#[derive(Debug)]
pub struct ElementRegistration {
    pub name: String,
    pub rank: u32,
}

/// Registers the face selecting aggregator as `rsFaceSelector`, with no rank.
pub fn register() -> (r: ElementRegistration)
    ensures
        r.name@ == ELEMENT_NAME@,
        r.rank == RANK_NONE,
{
    ElementRegistration { name: ELEMENT_NAME.to_owned(), rank: RANK_NONE }
}

/// The description of the element that its class carries.
#[derive(Debug)]
pub struct ElementMetadata {
    pub long_name: String,
    pub classification: String,
    pub description: String,
    pub author: String,
}

/// The metadata of the face selecting aggregator.
pub fn element_metadata() -> (m: ElementMetadata)
    ensures
        m.long_name@ == "Face-detecting selector"@,
        m.classification@ == "Generic"@,
        m.description@ == "Detects faces on sources and picks the source to output"@,
        m.author@ == "Bartosz B\u{142}aszk\u{f3}w <bbartosz06@gmail.com>"@,
{
    ElementMetadata {
        long_name: "Face-detecting selector".to_owned(),
        classification: "Generic".to_owned(),
        description: "Detects faces on sources and picks the source to output".to_owned(),
        author: "Bartosz B\u{142}aszk\u{f3}w <bbartosz06@gmail.com>".to_owned(),
    }
}

/// Which way data flows through a pad.
#[derive(Clone, Copy, Debug, PartialEq, Eq)]
pub enum PadDirection {
    Src,
    Sink,
}

/// When a pad of a template exists.
#[derive(Clone, Copy, Debug, PartialEq, Eq)]
pub enum PadPresence {
    Always,
    Sometimes,
    Request,
}

/// Raw video capabilities: format, size and frame rate.
#[derive(Debug)]
pub struct VideoCaps {
    pub media_type: String,
    pub format: String,
    pub width: i32,
    pub height: i32,
    pub framerate_num: i32,
    pub framerate_den: i32,
}

/// The caps that every pad of the element accepts: 320x240 I420 raw video at 30 frames
/// per second.
pub fn element_caps() -> (c: VideoCaps)
    ensures
        c.media_type@ == "video/x-raw"@,
        c.format@ == "I420"@,
        c.width == IMAGE_WIDTH,
        c.height == IMAGE_HEIGHT,
        c.framerate_num == FRAMERATE_NUM,
        c.framerate_den == FRAMERATE_DEN,
{
    VideoCaps {
        media_type: "video/x-raw".to_owned(),
        format: "I420".to_owned(),
        width: IMAGE_WIDTH,
        height: IMAGE_HEIGHT,
        framerate_num: FRAMERATE_NUM,
        framerate_den: FRAMERATE_DEN,
    }
}

/// A pad template of the element; `aggregator_pad` tells that its pads are aggregator
/// pads, which queue buffers.
#[derive(Debug)]
pub struct PadTemplateSpec {
    pub name_template: String,
    pub direction: PadDirection,
    pub presence: PadPresence,
    pub caps: VideoCaps,
    pub aggregator_pad: bool,
}

/// The templates of the element: sink aggregator pads `sink_%d` made on request, and
/// one source pad `src` that always exists, all with the caps of `element_caps`.
pub fn pad_templates() -> (t: Vec<PadTemplateSpec>)
    ensures
        t@.len() == 2,
        t@[0].name_template@ == "sink_%d"@,
        t@[0].direction == PadDirection::Sink,
        t@[0].presence == PadPresence::Request,
        t@[0].aggregator_pad,
        t@[1].name_template@ == "src"@,
        t@[1].direction == PadDirection::Src,
        t@[1].presence == PadPresence::Always,
        !t@[1].aggregator_pad,
        forall|i: int|
            0 <= i < 2 ==> {
                let c = #[trigger] t@[i].caps;
                &&& c.media_type@ == "video/x-raw"@
                &&& c.format@ == "I420"@
                &&& c.width == IMAGE_WIDTH
                &&& c.height == IMAGE_HEIGHT
                &&& c.framerate_num == FRAMERATE_NUM
                &&& c.framerate_den == FRAMERATE_DEN
            },
{
    let mut t: Vec<PadTemplateSpec> = Vec::new();
    t.push(
        PadTemplateSpec {
            name_template: "sink_%d".to_owned(),
            direction: PadDirection::Sink,
            presence: PadPresence::Request,
            caps: element_caps(),
            aggregator_pad: true,
        },
    );
    t.push(
        PadTemplateSpec {
            name_template: "src".to_owned(),
            direction: PadDirection::Src,
            presence: PadPresence::Always,
            caps: element_caps(),
            aggregator_pad: false,
        },
    );
    t
}

/// `i` is the position of the last greatest count of `counts`.
pub open spec fn is_last_max(counts: Seq<i32>, i: int) -> bool {
    &&& 0 <= i < counts.len()
    &&& forall|j: int| 0 <= j < counts.len() ==> #[trigger] counts[j] <= counts[i]
    &&& forall|j: int| i < j < counts.len() ==> #[trigger] counts[j] < counts[i]
}

/// The position of the last greatest count of `counts` (zero when there is none).
pub open spec fn last_max_index(counts: Seq<i32>) -> int
    decreases counts.len(),
{
    if counts.len() <= 1 {
        0
    } else {
        let i = last_max_index(counts.drop_last());
        if counts.last() >= counts[i] {
            counts.len() - 1
        } else {
            i
        }
    }
}

/// `last_max_index` is the position of the last greatest count, and the only one.
pub proof fn lemma_last_max_index(counts: Seq<i32>)
    requires
        counts.len() > 0,
    ensures
        is_last_max(counts, last_max_index(counts)),
        forall|i: int| is_last_max(counts, i) ==> i == last_max_index(counts),
    decreases counts.len(),
{
    if counts.len() > 1 {
        let prefix = counts.drop_last();
        lemma_last_max_index(prefix);
        assert forall|j: int| 0 <= j < prefix.len() implies #[trigger] counts[j] == prefix[j] by {}
    }
    let m = last_max_index(counts);
    assert forall|i: int| is_last_max(counts, i) implies i == m by {
        if i < m {
            assert(counts[m] < counts[i]);
        } else if m < i {
            assert(counts[i] < counts[m]);
        }
    }
}

/// The position of the greatest face count; when several are equal, the last of them.
/// `None` for no counts at all.
pub fn select_most_faces(counts: &Vec<i32>) -> (r: Option<usize>)
    ensures
        counts@.len() == 0 <==> r is None,
        r matches Some(i) ==> i == last_max_index(counts@),
        r matches Some(i) ==> is_last_max(counts@, i as int),
{
    if counts.len() == 0 {
        return None;
    }
    let mut best: usize = 0;
    let mut i: usize = 1;
    while i < counts.len()
        invariant
            1 <= i <= counts@.len(),
            best == last_max_index(counts@.take(i as int)),
        decreases counts@.len() - i,
    {
        proof {
            assert(counts@.take(i + 1).drop_last() =~= counts@.take(i as int));
            lemma_last_max_index(counts@.take(i as int));
        }
        if counts[i] >= counts[best] {
            best = i;
        }
        i = i + 1;
    }
    proof {
        assert(counts@.take(counts@.len() as int) =~= counts@);
        lemma_last_max_index(counts@);
    }
    Some(best)
}

/// The buffer to pass on: its position among the buffers that were collected, and
/// whether it comes from another pad than the previous output.
#[derive(Clone, Copy, Debug, PartialEq, Eq)]
pub struct Selection {
    pub index: usize,
    pub discont: bool,
}

/// Why no buffer was passed on.
#[derive(Clone, Copy, Debug, PartialEq, Eq)]
pub enum AggregateError {
    /// No sink pad had a buffer: the element waits for more data.
    NeedData,
}

/// The position of the buffer that the selector passes on, of `n` buffers with the
/// face counts `counts`: the only one, or the last with the most faces.
pub open spec fn selected_index(n: nat, counts: Seq<i32>) -> int {
    if n == 1 {
        0
    } else {
        last_max_index(counts)
    }
}

/// What the selector answers, and the pad it then takes as chosen last, when the pad
/// chosen last was `last` and buffers came on the pads named `names`, showing
/// `counts` faces.
pub open spec fn aggregate_result(last: Seq<char>, names: Seq<Seq<char>>, counts: Seq<i32>) -> (
    Result<Selection, AggregateError>,
    Seq<char>,
) {
    if names.len() == 0 {
        (Err(AggregateError::NeedData), last)
    } else {
        let i = selected_index(names.len(), counts);
        (Ok(Selection { index: i as usize, discont: last != names[i] }), names[i])
    }
}

/// The names of the pads, as sequences of characters.
pub open spec fn names_view(names: Seq<String>) -> Seq<Seq<char>> {
    names.map_values(|s: String| s@)
}

/// Of several buffers, the one passed on shows the most faces, and no buffer after it
/// shows as many.
pub proof fn lemma_selection_shows_most_faces(last: Seq<char>, names: Seq<Seq<char>>, counts: Seq<i32>)
    requires
        1 < names.len() <= usize::MAX,
        counts.len() == names.len(),
    ensures
        aggregate_result(last, names, counts).0 matches Ok(sel) && is_last_max(
            counts,
            sel.index as int,
        ),
{
    lemma_last_max_index(counts);
}

/// The output is marked discontinuous exactly when its pad changes; choosing again
/// among the same buffers keeps the same one and marks no discontinuity.
pub proof fn lemma_reselection_is_continuous(last: Seq<char>, names: Seq<Seq<char>>, counts: Seq<i32>)
    requires
        names.len() > 1 ==> counts.len() == names.len(),
    ensures
        ({
            let (r1, chosen) = aggregate_result(last, names, counts);
            let (r2, chosen_again) = aggregate_result(chosen, names, counts);
            &&& r1 matches Ok(sel) ==> sel.discont == (last != chosen)
            &&& r1 matches Ok(sel) ==> r2 == Ok::<Selection, AggregateError>(
                Selection { index: sel.index, discont: false },
            )
            &&& chosen_again == chosen
        }),
{
    if names.len() > 1 {
        lemma_last_max_index(counts);
    }
}

/// What the selector does with the buffers that arrive together, whatever their face
/// counts: it needs more data exactly when none arrived, and then keeps the pad chosen
/// last. Otherwise it passes on one of them: the only one, or, of several, one that
/// shows at least as many faces as any other and more than every buffer after it. The
/// pad of that buffer becomes the pad chosen last, and the output is marked
/// discontinuous exactly when that pad differs from the one chosen before.
pub proof fn lemma_aggregate_answer(last: Seq<char>, names: Seq<Seq<char>>, counts: Seq<i32>)
    requires
        names.len() <= usize::MAX,
        names.len() > 1 ==> counts.len() == names.len(),
    ensures
        ({
            let (r, chosen) = aggregate_result(last, names, counts);
            &&& names.len() == 0 <==> r is Err
            &&& names.len() == 0 ==> chosen == last
            &&& r matches Ok(sel) ==> {
                &&& 0 <= sel.index < names.len()
                &&& chosen == names[sel.index as int]
                &&& sel.discont == (last != names[sel.index as int])
                &&& names.len() == 1 ==> sel.index == 0
                &&& names.len() > 1 ==> forall|j: int|
                    0 <= j < counts.len() ==> #[trigger] counts[j] <= counts[sel.index as int]
                &&& names.len() > 1 ==> forall|j: int|
                    sel.index < j < counts.len() ==> #[trigger] counts[j] < counts[sel.index as int]
            }
        }),
{
    if names.len() > 1 {
        lemma_last_max_index(counts);
    }
}

/// The state of the face selecting aggregator: the name of the sink pad whose buffer
/// it passed on last.
pub struct FaceSelector {
    last_selected_pad: String,
}

impl FaceSelector {
    /// The name of the sink pad whose buffer was passed on last.
    pub closed spec fn last_selected(&self) -> Seq<char> {
        self.last_selected_pad@
    }

    /// A selector that takes its first pad, `sink_0`, as the last one chosen.
    pub fn new() -> (s: Self)
        ensures
            s.last_selected() == "sink_0"@,
    {
        FaceSelector { last_selected_pad: "sink_0".to_owned() }
    }

    /// The name of the sink pad whose buffer was passed on last.
    pub fn last_selected_pad(&self) -> (name: String)
        ensures
            name@ == self.last_selected(),
    {
        self.last_selected_pad.clone()
    }

    /// Chooses which of the buffers collected from the sink pads named `pad_names`
    /// goes out.
    ///
    /// With no buffer the selector needs more data. With a single buffer that one goes
    /// out, and no face count is read. With several, `face_counts` holds the number of
    /// faces found in each, and the last one with the most faces goes out. The output
    /// is marked discontinuous when its pad is not the one chosen last, which it then
    /// becomes.
    pub fn aggregate(&mut self, pad_names: &Vec<String>, face_counts: &Vec<i32>) -> (r: Result<
        Selection,
        AggregateError,
    >)
        requires
            pad_names@.len() > 1 ==> face_counts@.len() == pad_names@.len(),
        ensures
            (r, final(self).last_selected()) == aggregate_result(
                old(self).last_selected(),
                names_view(pad_names@),
                face_counts@,
            ),
            r matches Ok(sel) ==> sel.index < pad_names@.len(),
            r matches Ok(sel) ==> final(self).last_selected() == pad_names@[sel.index as int]@,
            r matches Ok(sel) ==> sel.discont == (old(self).last_selected()
                != pad_names@[sel.index as int]@),
            r is Err ==> final(self).last_selected() == old(self).last_selected(),
    {
        let n = pad_names.len();
        if n == 0 {
            return Err(AggregateError::NeedData);
        }
        let index: usize = if n == 1 {
            0
        } else {
            match select_most_faces(face_counts) {
                Some(i) => i,
                None => 0,
            }
        };
        let discont = self.choose_pad(&pad_names[index]);
        let ghost names = names_view(pad_names@);
        assert(names[index as int] == pad_names@[index as int]@);
        Ok(Selection { index, discont })
    }

    /// Makes `name` the pad chosen last; tells whether it was another one before.
    fn choose_pad(&mut self, name: &String) -> (changed: bool)
        ensures
            changed == (old(self).last_selected() != name@),
            final(self).last_selected() == name@,
    {
        if self.last_selected_pad != *name {
            self.last_selected_pad = name.clone();
            true
        } else {
            false
        }
    }
}

} // verus!
