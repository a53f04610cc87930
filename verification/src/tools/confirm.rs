//! Confirmation of tools that change the host.
use vstd::prelude::*;

use crate::text::{
    ascii_lower, ascii_lower_char, concat2, same_text, to_ascii_lower, trim, trimmed,
};

verus! {

/// Someone who can be asked whether to go on.
pub trait Confirmer: Send + Sync {
    /// Asks `prompt`; an error means that no answer came.
    fn confirm(&self, prompt: &str) -> Result<bool, String>;
}

/// Whether a line typed at a y/N prompt is a yes.
pub open spec fn is_yes(line: Seq<char>) -> bool {
    let answer = ascii_lower(trimmed(line));
    answer == "y"@ || answer == "yes"@
}

/// Whether a line typed at a y/N prompt is a yes.
pub fn answer_is_yes(line: &str) -> (r: bool)
    ensures
        r == is_yes(line@),
{
    let t = trim(line);
    let a = to_ascii_lower(t.as_str());
    same_text(a.as_str(), "y") || same_text(a.as_str(), "yes")
}

/// Asks at the controlling terminal.
#[derive(Debug)]
pub struct TtyConfirmer;

impl TtyConfirmer {
    /// What a terminal session decides: the line that was typed, or nobody
    /// there, which declines.
    pub fn decide(&self, line: Option<&str>) -> (r: bool)
        ensures
            r == (line is Some && is_yes(line->0@)),
    {
        match line {
            Some(l) => answer_is_yes(l),
            None => false,
        }
    }
}

/// What came back for a question that was sent on to someone else.
#[derive(Debug)]
pub enum Forwarded {
    /// The question could not be sent.
    NotSent,
    /// An answer came.
    Answered(bool),
    /// The question was dropped unanswered; why, in words.
    Dropped(String),
}

/// Asks through a channel: someone else puts the question to the user.
#[derive(Debug)]
pub struct ChannelConfirmer;

impl ChannelConfirmer {
    /// What the tool that asked is told. A question that was dropped is an
    /// error, not a no: the user did not decline.
    pub fn decide(&self, reply: Forwarded) -> (r: Result<bool, String>)
        ensures
            match reply {
                Forwarded::Answered(answer) => r == Ok::<bool, String>(answer),
                Forwarded::NotSent => r matches Err(m) && m@ == "confirm channel closed"@,
                Forwarded::Dropped(why) => r matches Err(m) && m@ == "confirm response dropped: "@
                    + why@,
            },
    {
        match reply {
            Forwarded::Answered(answer) => Ok(answer),
            Forwarded::NotSent => Err("confirm channel closed".to_string()),
            Forwarded::Dropped(why) => Err(concat2("confirm response dropped: ", &why)),
        }
    }
}

/// What a client's end of the line gave for a question.
#[derive(Debug)]
pub enum AnswerRead {
    /// The connection was closed.
    Closed,
    /// Reading failed.
    Failed,
    /// A line came that is no answer.
    Garbled,
    /// An answer came.
    Answer(bool),
}

/// What is passed on of what a client answered: nothing where the connection
/// dropped, so that the tool sees an error; a no for a line that is no
/// answer.
pub open spec fn passed_on(read: AnswerRead) -> Option<bool> {
    match read {
        AnswerRead::Closed => None,
        AnswerRead::Failed => None,
        AnswerRead::Garbled => Some(false),
        AnswerRead::Answer(b) => Some(b),
    }
}

/// What is passed on of what a client answered.
pub fn pass_on(read: AnswerRead) -> (r: Option<bool>)
    ensures
        r == passed_on(read),
{
    match read {
        AnswerRead::Closed => None,
        AnswerRead::Failed => None,
        AnswerRead::Garbled => Some(false),
        AnswerRead::Answer(b) => Some(b),
    }
}

/// Nothing is confirmed but by a yes.
pub proof fn only_yes_confirms(read: AnswerRead, line: Seq<char>)
    ensures
        passed_on(read) == Some(true) ==> read == AnswerRead::Answer(true),
        is_yes(line) ==> ascii_lower(trimmed(line)) == "y"@ || ascii_lower(trimmed(line))
            == "yes"@,
        !is_yes(Seq::empty()),
{
    reveal_strlit("y");
    reveal_strlit("yes");
    assert(trimmed(Seq::<char>::empty()) == Seq::<char>::empty());
    assert(ascii_lower(Seq::<char>::empty()) == Seq::<char>::empty());
}

/// A line is a yes exactly where it is the letter or the word, in any case,
/// with nothing but white space around it.
pub proof fn yes_is_the_letter_or_the_word(line: Seq<char>)
    ensures
        ({
            let t = trimmed(line);
            is_yes(line) <==> (t.len() == 1 && (t[0] == 'y' || t[0] == 'Y')) || (t.len() == 3 && (
            t[0] == 'y' || t[0] == 'Y') && (t[1] == 'e' || t[1] == 'E') && (t[2] == 's' || t[2]
                == 'S'))
        }),
{
    reveal_strlit("y");
    reveal_strlit("yes");
    let t = trimmed(line);
    let low = ascii_lower(t);
    assert("y"@.len() == 1 && "y"@[0] == 'y');
    assert("yes"@.len() == 3 && "yes"@[0] == 'y' && "yes"@[1] == 'e' && "yes"@[2] == 's');
    assert forall|i: int| 0 <= i < t.len() implies (#[trigger] low[i] == 'y' <==> t[i] == 'y' || t[i]
        == 'Y') && (low[i] == 'e' <==> t[i] == 'e' || t[i] == 'E') && (low[i] == 's' <==> t[i]
        == 's' || t[i] == 'S') by {
        let c = t[i];
        assert(low[i] == ascii_lower_char(c));
        if 'A' <= c <= 'Z' {
            assert((c as u32 + 32) as char as u32 == c as u32 + 32);
        }
    }
    if low.len() == 1 && low[0] == 'y' {
        assert(low == "y"@);
    }
    if low.len() == 3 && low[0] == 'y' && low[1] == 'e' && low[2] == 's' {
        assert(low == "yes"@);
    }
}

/// An answer is passed on as it is, a line that is none as a no, and nothing
/// where none came.
pub proof fn answers_are_passed_on(b: bool)
    ensures
        passed_on(AnswerRead::Answer(b)) == Some(b),
        passed_on(AnswerRead::Garbled) == Some(false),
        passed_on(AnswerRead::Closed) is None,
        passed_on(AnswerRead::Failed) is None,
{
}

} // verus!
