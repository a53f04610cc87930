//! The spinner that is shown while the model works.
use vstd::prelude::*;

use crate::text::concat4;

verus! {

/// The picture of the spinner at step `i`.
pub open spec fn frame_at(i: nat) -> Seq<char> {
    let k = i % 10;
    if k == 0 {
        "⠋"@
    } else if k == 1 {
        "⠙"@
    } else if k == 2 {
        "⠹"@
    } else if k == 3 {
        "⠸"@
    } else if k == 4 {
        "⠼"@
    } else if k == 5 {
        "⠴"@
    } else if k == 6 {
        "⠦"@
    } else if k == 7 {
        "⠧"@
    } else if k == 8 {
        "⠇"@
    } else {
        "⠏"@
    }
}

/// The picture of the spinner at step `i`.
pub fn frame(i: usize) -> (r: &'static str)
    ensures
        r@ == frame_at(i as nat),
{
    let k = i % 10;
    if k == 0 {
        "⠋"
    } else if k == 1 {
        "⠙"
    } else if k == 2 {
        "⠹"
    } else if k == 3 {
        "⠸"
    } else if k == 4 {
        "⠼"
    } else if k == 5 {
        "⠴"
    } else if k == 6 {
        "⠦"
    } else if k == 7 {
        "⠧"
    } else if k == 8 {
        "⠇"
    } else {
        "⠏"
    }
}

/// What is written at step `i`: the picture and the label, over what was
/// there.
pub fn drawn(i: usize, label: &str) -> (r: String)
    ensures
        r@ == "\r"@ + frame_at(i as nat) + " "@ + label@,
{
    concat4("\r", frame(i), " ", label)
}

/// The spinner goes round in ten steps, each of one character, and no step
/// looks like the one before it.
pub proof fn spinner_goes_round(i: nat)
    ensures
        frame_at(i + 10) == frame_at(i),
        frame_at(i).len() == 1,
        frame_at(i + 1) != frame_at(i),
        frame_at(0) == "⠋"@,
{
    reveal_strlit("⠋");
    reveal_strlit("⠙");
    reveal_strlit("⠹");
    reveal_strlit("⠸");
    reveal_strlit("⠼");
    reveal_strlit("⠴");
    reveal_strlit("⠦");
    reveal_strlit("⠧");
    reveal_strlit("⠇");
    reveal_strlit("⠏");
    assert(frame_at(i + 1)[0] != frame_at(i)[0]);
}

} // verus!
