//! Screenshots: `grim` in a Wayland session, `scrot` in any other. The
//! picture goes to the cache, under a name made of the time.
use vstd::prelude::*;

use super::{outcome_of, ToolError, ToolResult, ToolResultView};
use crate::agent::{image_in, images_are_told_by_their_ending};
use crate::json::{Json, JsonView, ObjectBuilder};
use crate::paths::{join_path, joined_path};
use crate::text::{concat2, concat5, same_text};

verus! {

/// Captures the screen.
#[derive(Debug, Default)]
pub struct ScreenshotTool;

/// How the time is written in the name of a picture: year, month and day, a
/// `T`, hours, minutes and seconds.
pub const STAMP_FORMAT: &'static str = "%Y%m%dT%H%M%S";

/// The time `seconds` after the epoch, in UTC, as `chrono` writes it in the
/// form `pattern`; none where it has no such date.
pub uninterp spec fn timestamp_text(seconds: i64, pattern: Seq<char>) -> Option<Seq<char>>;

/// `chrono::DateTime::format`: the time `seconds` after the epoch, in UTC, in
/// the form `pattern`. `chrono::DateTime::from_timestamp` makes the time, or
/// none where the seconds are beyond its range. What the text is for a given
/// time is not said here.
#[verifier::external_body]
fn timestamp(seconds: i64, pattern: &str) -> (r: Option<String>)
    requires
        pattern@ == STAMP_FORMAT@,
    ensures
        r is Some == timestamp_text(seconds, pattern@) is Some,
        r matches Some(s) ==> timestamp_text(seconds, pattern@) == Some(s@),
{
    let time = chrono::DateTime::from_timestamp(seconds, 0)?;
    Some(time.format(pattern).to_string())
}

/// Where a picture goes.
pub open spec fn shot_path(cache_dir: Seq<char>, stamp: Seq<char>) -> Seq<char> {
    joined_path(joined_path(cache_dir, "screenshots"@), stamp + ".png"@)
}

/// What a capture reports.
pub open spec fn shot_report(path: Seq<char>) -> ToolResultView {
    ToolResultView {
        tool: "screenshot"@,
        summary: "captured screenshot to "@ + path,
        data: JsonView::Object(map!["path"@ => JsonView::Text(path)]),
    }
}

impl ScreenshotTool {
    /// The name the model calls it by.
    pub fn name(&self) -> (r: &'static str)
        ensures
            r@ == "screenshot"@,
    {
        "screenshot"
    }

    /// What the model is told about it.
    pub fn description(&self) -> (r: &'static str)
        ensures
            r@ == "Capture the current screen to a PNG and return its path."@,
    {
        "Capture the current screen to a PNG and return its path."
    }

    /// The directory that pictures go to.
    pub fn directory(&self, cache_dir: &str) -> (r: String)
        ensures
            r@ == joined_path(cache_dir@, "screenshots"@),
    {
        join_path(cache_dir, "screenshots")
    }

    /// Where a picture that is stamped `stamp` goes.
    pub fn place(&self, cache_dir: &str, stamp: &str) -> (r: String)
        ensures
            r@ == shot_path(cache_dir@, stamp@),
    {
        join_path(&self.directory(cache_dir), &concat2(stamp, ".png"))
    }

    /// Where a picture that is taken `seconds` after the epoch goes; `None`
    /// for a time that has no date.
    pub fn output_path(&self, cache_dir: &str, seconds: i64) -> (r: Option<String>)
        ensures
            match timestamp_text(seconds, STAMP_FORMAT@) {
                Some(stamp) => r matches Some(s) && s@ == shot_path(cache_dir@, stamp),
                None => r is None,
            },
    {
        match timestamp(seconds, STAMP_FORMAT) {
            Some(stamp) => Some(self.place(cache_dir, &stamp)),
            None => None,
        }
    }

    /// The program to run, for the session type that the environment names.
    pub fn program(&self, session: &str) -> (r: &'static str)
        ensures
            r@ == if session@ == "wayland"@ {
                "grim"@
            } else {
                "scrot"@
            },
    {
        if same_text(session, "wayland") {
            "grim"
        } else {
            "scrot"
        }
    }

    /// What is reported once the program is through.
    pub fn finish(&self, path: &str, session: &str, success: bool, status: &str) -> (r: Result<
        ToolResult,
        ToolError,
    >)
        ensures
            outcome_of(r) == if success {
                Ok(shot_report(path@))
            } else {
                Err("screenshot command exited with "@ + status@ + " (session="@ + session@ + ")"@)
            },
    {
        if !success {
            return Err(
                ToolError::new(
                    concat5("screenshot command exited with ", status, " (session=", session, ")"),
                ),
            );
        }
        let data = ObjectBuilder::new().with("path", Json::text(path)).build();
        Ok(
            ToolResult {
                tool: "screenshot".to_string(),
                summary: concat2("captured screenshot to ", path),
                data,
            },
        )
    }
}

/// A picture goes below the cache, under its stamp, and is what the model is
/// shown next: the report names it, and its name is that of an image.
pub proof fn picture_is_shown(cache_dir: Seq<char>, stamp: Seq<char>)
    requires
        cache_dir.len() > 0,
        cache_dir.last() != '/',
        stamp.len() > 0,
        stamp[0] != '/',
    ensures
        shot_path(cache_dir, stamp) == cache_dir + "/screenshots/"@ + stamp + ".png"@,
        shot_report(shot_path(cache_dir, stamp)).tool == "screenshot"@,
        shot_report(shot_path(cache_dir, stamp)).summary == "captured screenshot to "@ + shot_path(
            cache_dir,
            stamp,
        ),
        shot_report(shot_path(cache_dir, stamp)).data.text_at("path"@) == Some(
            shot_path(cache_dir, stamp),
        ),
        image_in(shot_report(shot_path(cache_dir, stamp)).data) == Some(
            shot_path(cache_dir, stamp),
        ),
{
    reveal_strlit("screenshots");
    reveal_strlit("/screenshots/");
    reveal_strlit("path");
    reveal_strlit("image_path");
    assert("path"@.len() == 4 && "image_path"@.len() == 10);
    let dir = joined_path(cache_dir, "screenshots"@);
    let name = stamp + ".png"@;
    let path = shot_path(cache_dir, stamp);
    assert("screenshots"@[0] == 's');
    assert(dir == cache_dir.push('/') + "screenshots"@);
    assert(dir.last() == 's');
    assert(name[0] == stamp[0]);
    assert(path == dir.push('/') + name);
    assert(dir.push('/') == cache_dir + "/screenshots/"@);
    assert(path == (cache_dir + "/screenshots/"@ + stamp) + ".png"@);
    images_are_told_by_their_ending(path, cache_dir + "/screenshots/"@ + stamp);
    assert(shot_report(path).data.text_at("image_path"@) is None);
}

} // verus!
