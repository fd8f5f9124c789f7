//! The configuration that a checklist line may carry in braces.

use crate::config::{
    config_value, entry_of, gives, lemma_other_entry_ignored, list, list_items, lookup, slice_text,
};
use crate::text::find_char;
use crate::number::{parse_i64, parse_u32, parsed_i64, parsed_u32};
use crate::text::{chars_of, split, string_of, texts};
use vstd::prelude::*;

verus! {

/// What the configuration of a task says. A field that the configuration
/// does not give is absent.
#[derive(Debug, Clone)]
pub struct TaskConfig {
    pub assignee: Option<String>,
    pub effort: Option<u32>,
    pub tag: Option<Vec<String>>,
    pub due_date: Option<String>,
    pub priority: Option<i64>,
    pub blocked_by: Option<Vec<String>>,
    pub milestone: Option<String>,
}

/// A task's configuration as plain values.
pub struct TaskConfigView {
    pub assignee: Option<Seq<char>>,
    pub effort: Option<u32>,
    pub tag: Option<Seq<Seq<char>>>,
    pub due_date: Option<Seq<char>>,
    pub priority: Option<i64>,
    pub blocked_by: Option<Seq<Seq<char>>>,
    pub milestone: Option<Seq<char>>,
}

/// The text of an optional string.
pub open spec fn opt_text(o: Option<String>) -> Option<Seq<char>> {
    match o {
        Some(s) => Some(s@),
        None => None,
    }
}

/// The texts of an optional list of strings.
pub open spec fn opt_texts(o: Option<Vec<String>>) -> Option<Seq<Seq<char>>> {
    match o {
        Some(v) => Some(texts(v@)),
        None => None,
    }
}

impl View for TaskConfig {
    type V = TaskConfigView;

    open spec fn view(&self) -> TaskConfigView {
        TaskConfigView {
            assignee: opt_text(self.assignee),
            effort: self.effort,
            tag: opt_texts(self.tag),
            due_date: opt_text(self.due_date),
            priority: self.priority,
            blocked_by: opt_texts(self.blocked_by),
            milestone: opt_text(self.milestone),
        }
    }
}

/// The count that a configuration text gives to `key`: a number that is
/// not negative. A value that is no such numeral leaves the count absent.
pub open spec fn config_number(text: Seq<char>, key: Seq<char>) -> Option<u32> {
    match config_value(text, key) {
        Some(v) => parsed_u32(v),
        None => None,
    }
}

/// The integer that a configuration text gives to `key`, negative ones
/// included. A value that is no numeral leaves the integer absent.
pub open spec fn config_integer(text: Seq<char>, key: Seq<char>) -> Option<i64> {
    match config_value(text, key) {
        Some(v) => parsed_i64(v),
        None => None,
    }
}

/// The list that a configuration text gives to `key`.
pub open spec fn config_list(text: Seq<char>, key: Seq<char>) -> Option<Seq<Seq<char>>> {
    match config_value(text, key) {
        Some(v) => Some(list_items(v)),
        None => None,
    }
}

/// What a configuration text says of a task. Each field goes by the last
/// entry with its key; entries with other keys say nothing.
pub open spec fn task_config_of(text: Seq<char>) -> TaskConfigView {
    TaskConfigView {
        assignee: config_value(text, "assignee"@),
        effort: config_number(text, "effort"@),
        tag: config_list(text, "tag"@),
        due_date: config_value(text, "due_date"@),
        priority: config_integer(text, "priority"@),
        blocked_by: config_list(text, "blocked_by"@),
        milestone: config_value(text, "milestone"@),
    }
}

/// Whether `key` is one of the keys that the configuration of a task knows.
pub open spec fn is_task_key(key: Seq<char>) -> bool {
    ||| key == "assignee"@
    ||| key == "effort"@
    ||| key == "tag"@
    ||| key == "due_date"@
    ||| key == "priority"@
    ||| key == "blocked_by"@
    ||| key == "milestone"@
}

/// Whether a piece of a configuration text says nothing of a task: it is
/// no entry, or an entry with a key that the configuration of a task does
/// not know.
pub open spec fn says_nothing(piece: Seq<char>) -> bool {
    &&& find_char(piece, ';', 0) >= piece.len()
    &&& entry_of(piece) matches Some((k, v)) ==> !is_task_key(k)
}

/// The configuration that says nothing.
pub open spec fn no_config() -> TaskConfigView {
    TaskConfigView {
        assignee: None,
        effort: None,
        tag: None,
        due_date: None,
        priority: None,
        blocked_by: None,
        milestone: None,
    }
}

/// An entry with an unknown key, and a piece that is no entry, leave no
/// trace in the configuration of a task: with such a piece alone nothing
/// is configured, and with it at the head, at the end or in the middle of
/// a configuration text the task is configured as without it.
pub proof fn lemma_unknown_entry_ignored(before: Seq<char>, piece: Seq<char>, after: Seq<char>)
    requires
        says_nothing(piece),
    ensures
        task_config_of(piece) == no_config(),
        task_config_of(piece + seq![';'] + after) == task_config_of(after),
        task_config_of(before + seq![';'] + piece) == task_config_of(before),
        task_config_of(before + seq![';'] + piece + seq![';'] + after) == task_config_of(
            before + seq![';'] + after,
        ),
{
    lemma_other_entry_ignored(before, piece, after, "assignee"@);
    lemma_other_entry_ignored(before, piece, after, "effort"@);
    lemma_other_entry_ignored(before, piece, after, "tag"@);
    lemma_other_entry_ignored(before, piece, after, "due_date"@);
    lemma_other_entry_ignored(before, piece, after, "priority"@);
    lemma_other_entry_ignored(before, piece, after, "blocked_by"@);
    lemma_other_entry_ignored(before, piece, after, "milestone"@);
}

fn owned(o: Option<&[char]>) -> (r: Option<String>)
    ensures
        opt_text(r) == slice_text(o),
{
    match o {
        Some(s) => Some(string_of(s)),
        None => None,
    }
}

fn owned_number(o: Option<&[char]>) -> (r: Option<u32>)
    ensures
        r == match slice_text(o) {
            Some(v) => parsed_u32(v),
            None => None,
        },
{
    match o {
        Some(s) => parse_u32(s),
        None => None,
    }
}

fn owned_integer(o: Option<&[char]>) -> (r: Option<i64>)
    ensures
        r == match slice_text(o) {
            Some(v) => parsed_i64(v),
            None => None,
        },
{
    match o {
        Some(s) => parse_i64(s),
        None => None,
    }
}

fn owned_list(o: Option<&[char]>) -> (r: Option<Vec<String>>)
    ensures
        opt_texts(r) == match slice_text(o) {
            Some(v) => Some(list_items(v)),
            None => None,
        },
{
    match o {
        Some(s) => Some(list(s)),
        None => None,
    }
}

/// Reads the configuration of a task from the characters between the braces.
pub fn task_config_from(text: &[char]) -> (config: TaskConfig)
    ensures
        config@ == task_config_of(text@),
{
    let pieces = split(text, ';');
    TaskConfig {
        assignee: owned(lookup(&pieces, "assignee")),
        effort: owned_number(lookup(&pieces, "effort")),
        tag: owned_list(lookup(&pieces, "tag")),
        due_date: owned(lookup(&pieces, "due_date")),
        priority: owned_integer(lookup(&pieces, "priority")),
        blocked_by: owned_list(lookup(&pieces, "blocked_by")),
        milestone: owned(lookup(&pieces, "milestone")),
    }
}

/// Reads the configuration of a task from the text between the braces.
pub fn parse_task_config(config_str: &str) -> (config: TaskConfig)
    ensures
        config@ == task_config_of(config_str@),
{
    let text = chars_of(config_str);
    task_config_from(text.as_slice())
}

} // verus!
