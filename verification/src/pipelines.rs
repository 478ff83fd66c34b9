//! The textual descriptions of the two face-following pipelines, as handed to
//! GStreamer's pipeline parser. Input `i` of a pipeline reads the file `face<i>.h264`;
//! inputs are numbered from 0.
use vstd::prelude::*;
use vstd::string::StringExecFns;

verus! {

/// The decimal digit `d` (0 to 9).
pub open spec fn digit(d: nat) -> Seq<char> {
    if d == 0 {
        "0"@
    } else if d == 1 {
        "1"@
    } else if d == 2 {
        "2"@
    } else if d == 3 {
        "3"@
    } else if d == 4 {
        "4"@
    } else if d == 5 {
        "5"@
    } else if d == 6 {
        "6"@
    } else if d == 7 {
        "7"@
    } else if d == 8 {
        "8"@
    } else {
        "9"@
    }
}

/// The decimal writing of `i`, without leading zeros.
pub open spec fn decimal(i: nat) -> Seq<char>
    decreases i,
{
    if i < 10 {
        digit(i)
    } else {
        decimal(i / 10) + digit(i % 10)
    }
}

/// The decimal digit `d` as a string.
fn digit_str(d: u32) -> (s: &'static str)
    requires
        d < 10,
    ensures
        s@ == digit(d as nat),
{
    match d {
        0 => "0",
        1 => "1",
        2 => "2",
        3 => "3",
        4 => "4",
        5 => "5",
        6 => "6",
        7 => "7",
        8 => "8",
        _ => "9",
    }
}

/// Writes `i` in decimal.
pub fn decimal_string(i: u32) -> (s: String)
    ensures
        s@ == decimal(i as nat),
    decreases i,
{
    if i < 10 {
        digit_str(i).to_owned()
    } else {
        let mut s = decimal_string(i / 10);
        s.append(digit_str(i % 10));
        s
    }
}

/// The number of inputs a pipeline gets for a requested `streams_num`: none when it is
/// not positive.
pub open spec fn input_count(streams_num: i32) -> nat {
    if streams_num > 0 {
        streams_num as nat
    } else {
        0
    }
}

/// The start of the face-detector pipeline: an input selector whose output is shown.
pub const OPENCV_HEAD: &'static str = "input-selector name=selector sync-streams=true sync-mode=1 ! videoconvert ! queue  name=out ! autovideosink sync=false\n        ";

/// What comes before the input number in a branch of the face-detector pipeline.
pub const OPENCV_BRANCH_START: &'static str = "pushfilesrc location=face";

/// What comes after the input number in a branch of the face-detector pipeline: H.264
/// decoding of 360x240 video at 25 frames per second, face detection, a leaky queue
/// and the selector.
pub const OPENCV_BRANCH_END: &'static str = ".h264\n            ! video/x-h264,width=360,height=240,framerate=25/1,stream-format=byte-stream\n            ! h264parse\n            ! avdec_h264\n            ! videoconvert\n            ! identity sync=true\n            ! video/x-raw,width=360,height=240,framerate=25/1\n            ! facedetect min-neighbors=2 scale-factor=1.1 updates=1 display=0 profile=haarcascade_frontalface_alt.xml\n            ! queue leaky=2\n            ! selector.\n            ";

/// The branch that feeds input `i` of the face-detector pipeline.
pub open spec fn opencv_branch(i: nat) -> Seq<char> {
    OPENCV_BRANCH_START@ + decimal(i) + OPENCV_BRANCH_END@
}

/// The branches of the first `n` inputs of the face-detector pipeline, in order.
pub open spec fn opencv_branches(n: nat) -> Seq<char>
    decreases n,
{
    if n == 0 {
        Seq::empty()
    } else {
        opencv_branches((n - 1) as nat) + opencv_branch((n - 1) as nat)
    }
}

/// The start of the face-selector pipeline: the face selecting aggregator, shown.
pub const RS_HEAD: &'static str = "rsFaceSelector name=selector ! autovideosink";

/// What comes before the input number in a branch of the face-selector pipeline.
pub const RS_BRANCH_START: &'static str = "\n            pushfilesrc location=face";

/// What comes after the input number in a branch of the face-selector pipeline: H.264
/// decoding of 1080x720 I420 video at 25 frames per second, a leaky queue and the
/// selector.
pub const RS_BRANCH_END: &'static str = ".h264\n            ! video/x-h264,width=1080,height=720,framerate=25/1,stream-format=byte-stream\n            ! h264parse\n            ! avdec_h264\n            ! videoconvert\n            ! video/x-raw,format=I420,width=1080,height=720,framerate=25/1\n            ! identity sync=true\n            ! queue leaky=2\n            ! selector.\n            ";

/// The branch that feeds input `i` of the face-selector pipeline.
pub open spec fn rs_branch(i: nat) -> Seq<char> {
    RS_BRANCH_START@ + decimal(i) + RS_BRANCH_END@
}

/// The branches of the first `n` inputs of the face-selector pipeline, in order.
pub open spec fn rs_branches(n: nat) -> Seq<char>
    decreases n,
{
    if n == 0 {
        Seq::empty()
    } else {
        rs_branches((n - 1) as nat) + rs_branch((n - 1) as nat)
    }
}

/// The description of the pipeline in which GStreamer's `facedetect` element counts the
/// faces of each of `streams_num` inputs and an input selector shows one of them.
pub fn opencv_pipeline_description(streams_num: i32) -> (d: String)
    ensures
        d@ == OPENCV_HEAD@ + opencv_branches(input_count(streams_num)),
{
    let mut d = OPENCV_HEAD.to_owned();
    let mut i: i32 = 0;
    while i < streams_num
        invariant
            0 <= i,
            streams_num > 0 ==> i <= streams_num,
            streams_num <= 0 ==> i == 0,
            d@ == OPENCV_HEAD@ + opencv_branches(i as nat),
        decreases streams_num - i,
    {
        d.append(OPENCV_BRANCH_START);
        let index = decimal_string(i as u32);
        d.append(index.as_str());
        d.append(OPENCV_BRANCH_END);
        assert(d@ =~= OPENCV_HEAD@ + opencv_branches((i + 1) as nat));
        i = i + 1;
    }
    d
}

/// The description of the pipeline in which the face selecting aggregator picks, among
/// `streams_num` inputs, the one to show.
pub fn rs_pipeline_description(streams_num: i32) -> (d: String)
    ensures
        d@ == RS_HEAD@ + rs_branches(input_count(streams_num)),
{
    let mut d = RS_HEAD.to_owned();
    let mut i: i32 = 0;
    while i < streams_num
        invariant
            0 <= i,
            streams_num > 0 ==> i <= streams_num,
            streams_num <= 0 ==> i == 0,
            d@ == RS_HEAD@ + rs_branches(i as nat),
        decreases streams_num - i,
    {
        d.append(RS_BRANCH_START);
        let index = decimal_string(i as u32);
        d.append(index.as_str());
        d.append(RS_BRANCH_END);
        assert(d@ =~= RS_HEAD@ + rs_branches((i + 1) as nat));
        i = i + 1;
    }
    d
}

/// The value of a writing in decimal digits.
pub open spec fn digits_value(s: Seq<char>) -> int
    decreases s.len(),
{
    if s.len() == 0 {
        0
    } else {
        digits_value(s.drop_last()) * 10 + (s.last() as int - '0' as int)
    }
}

/// `digit(d)` is the one character that writes `d`.
proof fn lemma_digit(d: nat)
    requires
        d < 10,
    ensures
        digit(d).len() == 1,
        '0' <= digit(d)[0] <= '9',
        digit(d)[0] as int - '0' as int == d,
{
    reveal_strlit("0");
    reveal_strlit("1");
    reveal_strlit("2");
    reveal_strlit("3");
    reveal_strlit("4");
    reveal_strlit("5");
    reveal_strlit("6");
    reveal_strlit("7");
    reveal_strlit("8");
    reveal_strlit("9");
}

/// `decimal(i)` writes `i` in base ten: it is made of the digits `0` to `9` only, reads
/// back as `i`, and starts with `0` only when it is `0` itself.
pub proof fn lemma_decimal_writes_value(i: nat)
    ensures
        decimal(i).len() > 0,
        forall|k: int| 0 <= k < decimal(i).len() ==> '0' <= #[trigger] decimal(i)[k] <= '9',
        digits_value(decimal(i)) == i,
        i > 0 ==> decimal(i)[0] != '0',
        i < 10 ==> decimal(i).len() == 1,
    decreases i,
{
    if i < 10 {
        lemma_digit(i);
        let d = decimal(i);
        assert(d.drop_last() =~= Seq::<char>::empty());
        assert(digits_value(d.drop_last()) == 0);
    } else {
        lemma_decimal_writes_value(i / 10);
        lemma_digit(i % 10);
        let p = decimal(i / 10);
        let d = digit(i % 10);
        let w = p + d;
        assert(decimal(i) == w);
        assert(w.drop_last() =~= p);
        assert(w.last() == d[0]);
        assert(w[0] == p[0]);
        assert(digits_value(w) == digits_value(p) * 10 + (d[0] as int - '0' as int));
        assert((i / 10) * 10 + i % 10 == i);
        assert forall|k: int| 0 <= k < w.len() implies '0' <= #[trigger] w[k] <= '9' by {
            if k < p.len() {
                assert(w[k] == p[k]);
            }
        }
    }
}

/// The face-detector pipeline reads one more input for each further stream: with no
/// stream it has no branch, and the branches for `n + 1` streams are those for `n`
/// followed by a branch that reads `face<n>.h264`.
pub proof fn lemma_opencv_branches(n: nat)
    ensures
        opencv_branches(0) == Seq::<char>::empty(),
        opencv_branches(n + 1) == opencv_branches(n) + OPENCV_BRANCH_START@ + decimal(n)
            + OPENCV_BRANCH_END@,
{
    assert(opencv_branches(n + 1) == opencv_branches(n) + opencv_branch(n));
}

/// The face-selector pipeline reads one more input for each further stream: with no
/// stream it has no branch, and the branches for `n + 1` streams are those for `n`
/// followed by a branch that reads `face<n>.h264`.
pub proof fn lemma_rs_branches(n: nat)
    ensures
        rs_branches(0) == Seq::<char>::empty(),
        rs_branches(n + 1) == rs_branches(n) + RS_BRANCH_START@ + decimal(n) + RS_BRANCH_END@,
{
    assert(rs_branches(n + 1) == rs_branches(n) + rs_branch(n));
}

/// The branches for `n` streams hold `n` times the fixed parts of a branch, plus the
/// writings of the input numbers `0` to `n - 1`.
pub proof fn lemma_branch_lengths(n: nat)
    ensures
        opencv_branches(n).len() == n * (OPENCV_BRANCH_START@.len() + OPENCV_BRANCH_END@.len())
            + decimal_lengths(n),
        rs_branches(n).len() == n * (RS_BRANCH_START@.len() + RS_BRANCH_END@.len())
            + decimal_lengths(n),
    decreases n,
{
    let a = OPENCV_BRANCH_START@.len() + OPENCV_BRANCH_END@.len();
    let b = RS_BRANCH_START@.len() + RS_BRANCH_END@.len();
    if n == 0 {
        assert(n * a == 0) by (nonlinear_arith)
            requires
                n == 0,
        ;
        assert(n * b == 0) by (nonlinear_arith)
            requires
                n == 0,
        ;
    } else {
        let m = (n - 1) as nat;
        lemma_branch_lengths(m);
        assert(n * a == m * a + a) by (nonlinear_arith)
            requires
                n == m + 1,
        ;
        assert(n * b == m * b + b) by (nonlinear_arith)
            requires
                n == m + 1,
        ;
        assert(opencv_branches(n) == opencv_branches(m) + opencv_branch(m));
        assert(rs_branches(n) == rs_branches(m) + rs_branch(m));
    }
}

/// The total length of the decimal writings of `0` to `n - 1`.
pub open spec fn decimal_lengths(n: nat) -> int
    decreases n,
{
    if n == 0 {
        0
    } else {
        decimal_lengths((n - 1) as nat) + decimal((n - 1) as nat).len()
    }
}

} // verus!
