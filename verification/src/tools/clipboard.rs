//! The text clipboard. A Wayland session is asked through `wl-paste` and
//! `wl-copy`, any other through `xclip`.
use vstd::prelude::*;
use vstd::utf8::encode_utf8;

use super::{outcome_of, text_arg, ToolError, ToolResult, ToolResultView};
use crate::decimal::{numeral, show_usize};
use crate::json::{json_int, Json, JsonView, ObjectBuilder};
use crate::paths::opt_text;
use crate::text::{
    byte_len, chars_of, concat2, concat3, concat4, count_bytes, first_chars, lossy_text,
    read_lossy, same_text, string_of, take_chars, texts,
};

verus! {

/// Reads the clipboard.
#[derive(Debug, Default)]
pub struct ClipboardReadTool;

/// Replaces what is on the clipboard.
#[derive(Debug, Default)]
pub struct ClipboardWriteTool;

/// Whether the session type that the environment names is Wayland.
pub fn session_is_wayland(session: &Option<String>) -> (r: bool)
    ensures
        r == (opt_text(*session) == Some("wayland"@)),
{
    match session {
        Some(s) => same_text(s, "wayland"),
        None => false,
    }
}

/// What a read of the text `text` reports. The length is that in bytes.
pub open spec fn clipboard_report(text: Seq<char>) -> ToolResultView {
    ToolResultView {
        tool: "clipboard_read"@,
        summary: "clipboard ("@ + numeral(byte_len(text)) + " chars): "@ + first_chars(text, 80),
        data: JsonView::Object(map!["text"@ => JsonView::Text(text)]),
    }
}

impl ClipboardReadTool {
    /// The name the model calls it by.
    pub fn name(&self) -> (r: &'static str)
        ensures
            r@ == "clipboard_read"@,
    {
        "clipboard_read"
    }

    /// What the model is told about it.
    pub fn description(&self) -> (r: &'static str)
        ensures
            r@ == "Read the current text contents of the user's clipboard."@,
    {
        "Read the current text contents of the user's clipboard."
    }

    /// The program to run and its arguments.
    pub fn command(&self, wayland: bool) -> (r: Vec<String>)
        ensures
            texts(r@) == if wayland {
                seq!["wl-paste"@, "--no-newline"@]
            } else {
                seq!["xclip"@, "-selection"@, "clipboard"@, "-o"@]
            },
    {
        let mut r: Vec<String> = Vec::new();
        if wayland {
            r.push("wl-paste".to_string());
            r.push("--no-newline".to_string());
            assert(texts(r@) == seq!["wl-paste"@, "--no-newline"@]);
        } else {
            r.push("xclip".to_string());
            r.push("-selection".to_string());
            r.push("clipboard".to_string());
            r.push("-o".to_string());
            assert(texts(r@) == seq!["xclip"@, "-selection"@, "clipboard"@, "-o"@]);
        }
        r
    }

    /// What a program that could not be started is reported as.
    pub fn not_started(&self, wayland: bool, error: &str) -> (r: ToolError)
        ensures
            r.message@ == (if wayland {
                "wl-paste: "@
            } else {
                "xclip: "@
            }) + error@,
    {
        if wayland {
            ToolError::new(concat2("wl-paste: ", error))
        } else {
            ToolError::new(concat2("xclip: ", error))
        }
    }

    /// What a read reports, from what the program wrote.
    pub fn finish(&self, success: bool, status: &str, stdout: &[u8], stderr: &[u8]) -> (r: Result<
        ToolResult,
        ToolError,
    >)
        ensures
            outcome_of(r) == if success {
                Ok(clipboard_report(lossy_text(stdout@)))
            } else {
                Err("clipboard read failed ("@ + status@ + "): "@ + lossy_text(stderr@))
            },
    {
        if !success {
            let said = read_lossy(stderr);
            return Err(ToolError::new(concat4("clipboard read failed (", status, "): ", &said)));
        }
        Ok(self.report(read_lossy(stdout)))
    }

    /// What a read of the text `text` reports.
    pub fn report(&self, text: String) -> (r: ToolResult)
        ensures
            r@ == clipboard_report(text@),
    {
        let chars = chars_of(&text);
        let preview = string_of(take_chars(&chars, 80));
        let size = show_usize(count_bytes(&text));
        let data = ObjectBuilder::new().with("text", Json::text(&text)).build();
        ToolResult {
            tool: "clipboard_read".to_string(),
            summary: concat4("clipboard (", &size, " chars): ", &preview),
            data,
        }
    }
}

/// What a write of the text `text` reports. The length is that in bytes.
pub open spec fn clipboard_written(text: Seq<char>) -> ToolResultView {
    ToolResultView {
        tool: "clipboard_write"@,
        summary: "wrote "@ + numeral(byte_len(text)) + " chars to clipboard"@,
        data: JsonView::Object(map!["bytes_written"@ => json_int(byte_len(text) as int)]),
    }
}

impl ClipboardWriteTool {
    /// The name the model calls it by.
    pub fn name(&self) -> (r: &'static str)
        ensures
            r@ == "clipboard_write"@,
    {
        "clipboard_write"
    }

    /// What the model is told about it.
    pub fn description(&self) -> (r: &'static str)
        ensures
            r@
                == "Replace the user's clipboard with the given text. Args: {\"text\": \"...\"}"@,
    {
        "Replace the user's clipboard with the given text. Args: {\"text\": \"...\"}"
    }

    /// The text that a call asks to write.
    pub fn plan(&self, args: &Json) -> (r: Result<String, ToolError>)
        ensures
            match args@.text_at("text"@) {
                Some(text) => r matches Ok(s) && s@ == text,
                None => r matches Err(e) && e.message@
                    == "clipboard_write requires {\"text\":\"...\"}"@,
            },
    {
        match text_arg(args, "text", "clipboard_write requires {\"text\":\"...\"}") {
            Ok(s) => Ok(s.to_string()),
            Err(e) => Err(e),
        }
    }

    /// The program to run and its arguments; it reads the text.
    pub fn command(&self, wayland: bool) -> (r: Vec<String>)
        ensures
            texts(r@) == if wayland {
                seq!["wl-copy"@]
            } else {
                seq!["xclip"@, "-selection"@, "clipboard"@]
            },
    {
        let mut r: Vec<String> = Vec::new();
        if wayland {
            r.push("wl-copy".to_string());
            assert(texts(r@) == seq!["wl-copy"@]);
        } else {
            r.push("xclip".to_string());
            r.push("-selection".to_string());
            r.push("clipboard".to_string());
            assert(texts(r@) == seq!["xclip"@, "-selection"@, "clipboard"@]);
        }
        r
    }

    /// What a program that could not be started is reported as.
    pub fn not_started(&self, wayland: bool, error: &str) -> (r: ToolError)
        ensures
            r.message@ == (if wayland {
                "wl-copy: "@
            } else {
                "xclip: "@
            }) + error@,
    {
        if wayland {
            ToolError::new(concat2("wl-copy: ", error))
        } else {
            ToolError::new(concat2("xclip: ", error))
        }
    }

    /// What is reported once the program is through.
    pub fn finish(&self, text: &str, success: bool, status: &str) -> (r: Result<
        ToolResult,
        ToolError,
    >)
        ensures
            outcome_of(r) == if success {
                Ok(clipboard_written(text@))
            } else {
                Err("clipboard write failed ("@ + status@ + ")"@)
            },
    {
        if !success {
            return Err(ToolError::new(concat3("clipboard write failed (", status, ")")));
        }
        let size = count_bytes(text);
        let data = ObjectBuilder::new().with(
            "bytes_written",
            Json::unsigned(size as u64),
        ).build();
        Ok(
            ToolResult {
                tool: "clipboard_write".to_string(),
                summary: concat3("wrote ", &show_usize(size), " chars to clipboard"),
                data,
            },
        )
    }
}

/// What is on the clipboard is reported whole, and summed up by its size and
/// its first eighty characters; of what is written, the size is reported.
pub proof fn clipboard_is_reported_whole(text: Seq<char>)
    ensures
        clipboard_report(text).tool == "clipboard_read"@,
        clipboard_report(text).data.text_at("text"@) == Some(text),
        clipboard_report(text).summary == "clipboard ("@ + numeral(encode_utf8(text).len())
            + " chars): "@ + (if text.len() <= 80 {
            text
        } else {
            text.take(80)
        }),
        clipboard_written(text).tool == "clipboard_write"@,
        clipboard_written(text).data.get("bytes_written"@) == Some(
            JsonView::Number(crate::json::NumberView::Integer(encode_utf8(text).len() as int)),
        ),
        clipboard_written(text).summary == "wrote "@ + numeral(encode_utf8(text).len())
            + " chars to clipboard"@,
{
    assert(text.take(text.len() as int) == text);
}

} // verus!
