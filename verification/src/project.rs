//! The project that a document describes: its name, the lines of its
//! description, its notes and its goals.

use crate::block::{
    block_body, block_id, block_len, collect_block, is_boundary, lemma_block_before_boundary,
    lemma_block_of_prefix, lemma_top_header_ends_block,
};
use crate::goal::{goal_from, goal_header, goal_of, match_goal_header, Goal, GoalView};
use crate::number::{decimal_digits, push_decimal};
use crate::task_config::opt_text;
use crate::text::{
    chars_of, is_text, lines_of, split_lines, string_of, strip_prefix, texts, trim, trimmed,
};
use vstd::prelude::*;

verus! {

/// A note of the project.
#[derive(Debug, Clone)]
pub struct Note {
    pub id: String,
    pub title: String,
    pub content: String,
    /// Always empty.
    pub created_at: String,
    /// Always empty.
    pub updated_at: String,
}

/// A note as plain values.
pub struct NoteView {
    pub id: Seq<char>,
    pub title: Seq<char>,
    pub content: Seq<char>,
    pub created_at: Seq<char>,
    pub updated_at: Seq<char>,
}

impl View for Note {
    type V = NoteView;

    open spec fn view(&self) -> NoteView {
        NoteView {
            id: self.id@,
            title: self.title@,
            content: self.content@,
            created_at: self.created_at@,
            updated_at: self.updated_at@,
        }
    }
}

/// What a document says of its project.
#[derive(Debug)]
pub struct ProjectInfo {
    pub name: String,
    pub description: Vec<String>,
    pub notes: Vec<Note>,
    pub goals: Vec<Goal>,
}

/// A project as plain values.
pub struct ProjectInfoView {
    pub name: Seq<char>,
    pub description: Seq<Seq<char>>,
    pub notes: Seq<NoteView>,
    pub goals: Seq<GoalView>,
}

/// The views of the items of a sequence.
pub open spec fn views<T: View>(v: Seq<T>) -> Seq<T::V> {
    Seq::new(v.len(), |i: int| v[i]@)
}

impl View for ProjectInfo {
    type V = ProjectInfoView;

    open spec fn view(&self) -> ProjectInfoView {
        ProjectInfoView {
            name: self.name@,
            description: texts(self.description@),
            notes: views(self.notes@),
            goals: views(self.goals@),
        }
    }
}

/// The part of the document that a line stands in. A line stands in one
/// part at a time.
#[derive(Debug, Clone, Copy, PartialEq, Eq, Structural)]
pub enum Mode {
    /// Outside the named parts: lines here describe the project.
    Description,
    Notes,
    Goals,
    Configurations,
}

/// What has been read of a project so far.
pub struct Scan {
    /// The project's name, once the first top-level header has been read.
    pub header: Option<Seq<char>>,
    pub mode: Mode,
    pub description: Seq<Seq<char>>,
    pub notes: Seq<NoteView>,
    pub goals: Seq<GoalView>,
}

/// Whether a trimmed line is a top-level header.
pub open spec fn is_top_header(t: Seq<char>) -> bool {
    "# "@.is_prefix_of(t)
}

/// The part that a trimmed line opens, if it is one of the markers.
pub open spec fn marker_mode(t: Seq<char>) -> Option<Mode> {
    if t == "# Notes"@ || t == "<!-- Notes -->"@ {
        Some(Mode::Notes)
    } else if t == "# Goals"@ || t == "<!-- Goals -->"@ {
        Some(Mode::Goals)
    } else if t == "# Configurations"@ || t == "<!-- Configurations -->"@ {
        Some(Mode::Configurations)
    } else {
        None
    }
}

/// The id of the `n`-th item of a kind, counted from one: the kind's
/// prefix and the number.
pub open spec fn numbered_id(prefix: Seq<char>, n: nat) -> Seq<char> {
    prefix + decimal_digits(n)
}

/// The note that the header at line `i` opens, with its block up to `end`,
/// where `count` notes precede it.
pub open spec fn note_at(lines: Seq<Seq<char>>, i: int, end: int, count: nat) -> NoteView {
    NoteView {
        id: match block_id(lines, i + 1, end) {
            Some(id) => id,
            None => numbered_id("note_"@, count + 1),
        },
        title: trimmed(trimmed(lines[i]).skip("## "@.len() as int)),
        content: trimmed(block_body(lines, i + 1, end)),
        created_at: Seq::empty(),
        updated_at: Seq::empty(),
    }
}

/// The goal that the header at line `i` opens, with its block up to `end`,
/// where `count` goals precede it.
pub open spec fn goal_at(lines: Seq<Seq<char>>, i: int, end: int, count: nat) -> GoalView {
    let header = goal_header(trimmed(lines[i]))->0;
    goal_of(
        header.0,
        header.1,
        trimmed(block_body(lines, i + 1, end)),
        match block_id(lines, i + 1, end) {
            Some(id) => id,
            None => numbered_id("goal_"@, count + 1),
        },
    )
}

/// What reading line `i` makes of `st`, and the number of lines below it
/// that were read with it; nothing where the line ends the reading. The
/// rules, the first that applies: the first top-level header names the
/// project; a marker opens its part; any other top-level header ends the
/// reading; among the notes a second-level header opens a note, and among
/// the goals one with a configuration opens a goal, each with the block
/// below it; outside the named parts and after the name, a line that is not
/// empty describes the project; any other line says nothing.
pub open spec fn scan_step(lines: Seq<Seq<char>>, st: Scan, i: int) -> Option<(Scan, nat)> {
    let t = trimmed(lines[i]);
    let block = block_len(lines, i + 1);
    let end = i + 1 + block;
    if is_top_header(t) && st.header is None {
        Some((Scan { header: Some(trimmed(t.skip("# "@.len() as int))), ..st }, 0))
    } else if marker_mode(t) is Some {
        Some((Scan { mode: marker_mode(t)->0, ..st }, 0))
    } else if is_top_header(t) {
        None
    } else if st.mode == Mode::Notes && "## "@.is_prefix_of(t) {
        Some((Scan { notes: st.notes.push(note_at(lines, i, end, st.notes.len())), ..st }, block))
    } else if st.mode == Mode::Goals && goal_header(t) is Some {
        Some((Scan { goals: st.goals.push(goal_at(lines, i, end, st.goals.len())), ..st }, block))
    } else if st.header is Some && t.len() > 0 && st.mode == Mode::Description {
        Some((Scan { description: st.description.push(t), ..st }, 0))
    } else {
        Some((st, 0))
    }
}

/// What reading the lines from `i` on makes of `st`.
pub open spec fn scan_from(lines: Seq<Seq<char>>, st: Scan, i: int) -> Scan
    decreases
            if i < lines.len() {
                lines.len() - i
            } else {
                0
            },
{
    if i < 0 || i >= lines.len() {
        st
    } else {
        match scan_step(lines, st, i) {
            Some((next, below)) => scan_from(lines, next, i + 1 + below),
            None => st,
        }
    }
}

/// Where the reading begins: no name, no part, nothing read.
pub open spec fn scan_start() -> Scan {
    Scan {
        header: None,
        mode: Mode::Description,
        description: Seq::empty(),
        notes: Seq::empty(),
        goals: Seq::empty(),
    }
}

/// The project that a reading ends with. A project without a top-level
/// header is called `Untitled Project`.
pub open spec fn project_of(st: Scan) -> ProjectInfoView {
    ProjectInfoView {
        name: match st.header {
            Some(name) => name,
            None => "Untitled Project"@,
        },
        description: st.description,
        notes: st.notes,
        goals: st.goals,
    }
}

/// The project that a document with these lines describes.
pub open spec fn project_of_lines(lines: Seq<Seq<char>>) -> ProjectInfoView {
    project_of(scan_from(lines, scan_start(), 0))
}

/// The project that a document describes.
pub open spec fn project_info_of(content: Seq<char>) -> ProjectInfoView {
    project_of_lines(lines_of(content))
}

/// Whether a top-level header stands among the first `n` lines.
pub open spec fn has_top_header(lines: Seq<Seq<char>>, n: int) -> bool {
    exists|j: int| 0 <= j < n && j < lines.len() && is_top_header(trimmed(#[trigger] lines[j]))
}

/// Whether line `k` is a top-level header that does not name the project
/// and opens none of the named parts.
pub open spec fn is_foreign_header(lines: Seq<Seq<char>>, k: int) -> bool {
    &&& 0 <= k < lines.len()
    &&& is_top_header(trimmed(lines[k]))
    &&& marker_mode(trimmed(lines[k])) is None
    &&& has_top_header(lines, k)
}

/// A marker that is a top-level header begins like one.
pub proof fn lemma_marker_headers(t: Seq<char>)
    ensures
        t == "# Notes"@ || t == "# Goals"@ || t == "# Configurations"@ ==> is_top_header(t),
        t == "<!-- Notes -->"@ || t == "<!-- Goals -->"@ || t == "<!-- Configurations -->"@
            ==> !is_top_header(t) && !"## "@.is_prefix_of(t),
{
    reveal_strlit("# ");
    reveal_strlit("## ");
    reveal_strlit("# Notes");
    reveal_strlit("# Goals");
    reveal_strlit("# Configurations");
    reveal_strlit("<!-- Notes -->");
    reveal_strlit("<!-- Goals -->");
    reveal_strlit("<!-- Configurations -->");
    if t == "# Notes"@ || t == "# Goals"@ || t == "# Configurations"@ {
        assert(t.subrange(0, 2) == "# "@);
    }
    if t == "<!-- Notes -->"@ || t == "<!-- Goals -->"@ || t == "<!-- Configurations -->"@ {
        if is_top_header(t) {
            assert(t[0] == "# "@[0]);
        }
        if "## "@.is_prefix_of(t) {
            assert(t[0] == "## "@[0]);
        }
    }
}

proof fn lemma_scan_of_prefix(lines: Seq<Seq<char>>, k: int, st: Scan, i: int)
    requires
        0 <= i <= k,
        is_foreign_header(lines, k),
        has_top_header(lines, i) ==> st.header is Some,
    ensures
        scan_from(lines, st, i) == scan_from(lines.take(k), st, i),
    decreases k - i,
{
    let short = lines.take(k);
    lemma_top_header_ends_block(trimmed(lines[k]));
    if i < k {
        assert(short[i] == lines[i]);
        let t = trimmed(lines[i]);
        lemma_block_before_boundary(lines, k, i + 1);
        let end = i + 1 + block_len(lines, i + 1);
        lemma_block_of_prefix(lines, k, i + 1, end);
        assert(scan_step(lines, st, i) == scan_step(short, st, i));
        match scan_step(lines, st, i) {
            Some((next, below)) => {
                let j = i + 1 + below;
                assert(has_top_header(lines, j) ==> next.header is Some) by {
                    if has_top_header(lines, j) {
                        let h = choose|h: int|
                            0 <= h < j && h < lines.len() && is_top_header(
                                trimmed(#[trigger] lines[h]),
                            );
                        if h < i {
                            assert(has_top_header(lines, i));
                        } else if h > i {
                            lemma_top_header_ends_block(trimmed(lines[h]));
                            lemma_lines_of_block(lines, i + 1, h);
                        }
                    }
                }
                lemma_scan_of_prefix(lines, k, next, j);
            },
            None => {},
        }
    } else {
        assert(has_top_header(lines, k));
    }
}

/// No line of a block is a boundary.
proof fn lemma_lines_of_block(lines: Seq<Seq<char>>, start: int, h: int)
    requires
        0 <= start <= h < start + block_len(lines, start),
    ensures
        h < lines.len(),
        !is_boundary(trimmed(lines[h])),
    decreases h - start,
{
    if start < h {
        lemma_lines_of_block(lines, start + 1, h);
    }
}

/// A top-level header that follows the project's name and opens none of
/// the named parts ends the reading: the project is the one that the lines
/// before that header describe, whatever follows it.
pub proof fn lemma_foreign_header_ends_reading(lines: Seq<Seq<char>>, k: int)
    requires
        is_foreign_header(lines, k),
    ensures
        project_of_lines(lines) == project_of_lines(lines.take(k)),
{
    lemma_scan_of_prefix(lines, k, scan_start(), 0);
}

/// Whether none of these lines is a top-level header.
pub open spec fn is_headerless(lines: Seq<Seq<char>>) -> bool {
    forall|j: int| 0 <= j < lines.len() ==> !is_top_header(trimmed(#[trigger] lines[j]))
}

/// Whether none of these lines is the trimmed text `marker`.
pub open spec fn lacks_line(lines: Seq<Seq<char>>, marker: Seq<char>) -> bool {
    forall|j: int| 0 <= j < lines.len() ==> trimmed(#[trigger] lines[j]) != marker
}

proof fn lemma_headerless_scan(lines: Seq<Seq<char>>, st: Scan, i: int)
    requires
        0 <= i,
        is_headerless(lines),
        st.header is None,
        st.description.len() == 0,
    ensures
        scan_from(lines, st, i).header is None,
        scan_from(lines, st, i).description.len() == 0,
        lacks_line(lines, "<!-- Notes -->"@) && st.mode != Mode::Notes && st.notes.len() == 0
            ==> scan_from(lines, st, i).notes.len() == 0,
        lacks_line(lines, "<!-- Goals -->"@) && st.mode != Mode::Goals && st.goals.len() == 0
            ==> scan_from(lines, st, i).goals.len() == 0,
    decreases
            if i < lines.len() {
                lines.len() - i
            } else {
                0
            },
{
    if i < lines.len() {
        let t = trimmed(lines[i]);
        lemma_marker_headers(t);
        match scan_step(lines, st, i) {
            Some((next, below)) => {
                lemma_headerless_scan(lines, next, i + 1 + below);
            },
            None => {},
        }
    }
}

/// A document without a top-level header describes a project with the name
/// `Untitled Project` and without a description. It has no notes unless a
/// line `<!-- Notes -->` opens them, and no goals unless a line
/// `<!-- Goals -->` opens them.
pub proof fn lemma_headerless_project(lines: Seq<Seq<char>>)
    requires
        is_headerless(lines),
    ensures
        project_of_lines(lines).name == "Untitled Project"@,
        project_of_lines(lines).description.len() == 0,
        lacks_line(lines, "<!-- Notes -->"@) ==> project_of_lines(lines).notes.len() == 0,
        lacks_line(lines, "<!-- Goals -->"@) ==> project_of_lines(lines).goals.len() == 0,
{
    lemma_headerless_scan(lines, scan_start(), 0);
}

/// The part that a trimmed line opens, if it is one of the markers.
pub fn read_marker(t: &[char]) -> (r: Option<Mode>)
    ensures
        r == marker_mode(t@),
{
    if is_text(t, "# Notes") || is_text(t, "<!-- Notes -->") {
        Some(Mode::Notes)
    } else if is_text(t, "# Goals") || is_text(t, "<!-- Goals -->") {
        Some(Mode::Goals)
    } else if is_text(t, "# Configurations") || is_text(t, "<!-- Configurations -->") {
        Some(Mode::Configurations)
    } else {
        None
    }
}

/// The id of the item after `count` items of a kind.
pub fn next_id(prefix: &str, count: usize) -> (id: String)
    ensures
        id@ == numbered_id(prefix@, count as nat + 1),
{
    let mut text = chars_of(prefix);
    push_decimal(count as u128 + 1, &mut text);
    string_of(text.as_slice())
}

/// Reads the project that a document describes.
pub fn parse_project_info_from_markdown(content: &str) -> (info: ProjectInfo)
    ensures
        info@ == project_info_of(content@),
{
    let chars = chars_of(content);
    let lines = split_lines(chars.as_slice());
    let ghost rows = texts(lines@);
    let mut header: Option<String> = None;
    let mut mode = Mode::Description;
    let mut description: Vec<String> = Vec::new();
    let mut notes: Vec<Note> = Vec::new();
    let mut goals: Vec<Goal> = Vec::new();
    let mut i: usize = 0;
    assert(texts(description@) == Seq::<Seq<char>>::empty());
    assert(views(notes@) == Seq::<NoteView>::empty());
    assert(views(goals@) == Seq::<GoalView>::empty());
    loop
        invariant_except_break
            i <= lines@.len(),
            rows == texts(lines@),
            scan_from(rows, scan_start(), 0) == scan_from(
                rows,
                Scan {
                    header: opt_text(header),
                    mode,
                    description: texts(description@),
                    notes: views(notes@),
                    goals: views(goals@),
                },
                i as int,
            ),
        ensures
            scan_from(rows, scan_start(), 0) == (Scan {
                header: opt_text(header),
                mode,
                description: texts(description@),
                notes: views(notes@),
                goals: views(goals@),
            }),
        decreases lines@.len() - i,
    {
        if i >= lines.len() {
            break;
        }
        let ghost st = Scan {
            header: opt_text(header),
            mode,
            description: texts(description@),
            notes: views(notes@),
            goals: views(goals@),
        };
        let line = lines[i];
        assert(line@ == rows[i as int]);
        let t = trim(line);
        let top = strip_prefix(t, "# ");
        if top.is_some() && header.is_none() {
            header = Some(string_of(trim(top.unwrap())));
            i += 1;
            continue;
        }
        let marker = read_marker(t);
        if marker.is_some() {
            mode = marker.unwrap();
            i += 1;
            continue;
        }
        if top.is_some() {
            break;
        }
        if mode == Mode::Notes {
            match strip_prefix(t, "## ") {
                Some(rest) => {
                    let block = collect_block(&lines, i + 1);
                    let id = match block.id {
                        Some(id) => id,
                        None => next_id("note_", notes.len()),
                    };
                    let note = Note {
                        id,
                        title: string_of(trim(rest)),
                        content: string_of(block.body.as_slice()),
                        created_at: String::new(),
                        updated_at: String::new(),
                    };
                    assert(note@ == note_at(rows, i as int, block.end as int, notes@.len()));
                    let ghost before = views(notes@);
                    notes.push(note);
                    assert(views(notes@) == before.push(note@));
                    i = block.end;
                    continue;
                },
                None => {},
            }
        }
        if mode == Mode::Goals {
            match match_goal_header(t) {
                Some((title, config)) => {
                    let block = collect_block(&lines, i + 1);
                    let id = match block.id {
                        Some(id) => id,
                        None => next_id("goal_", goals.len()),
                    };
                    let goal = goal_from(title, config, block.body.as_slice(), id);
                    assert(goal@ == goal_at(rows, i as int, block.end as int, goals@.len()));
                    let ghost before = views(goals@);
                    goals.push(goal);
                    assert(views(goals@) == before.push(goal@));
                    i = block.end;
                    continue;
                },
                None => {},
            }
        }
        if header.is_some() && t.len() > 0 && mode == Mode::Description {
            let ghost before = texts(description@);
            description.push(string_of(t));
            assert(texts(description@) == before.push(t@));
        }
        i += 1;
    }
    let name = match header {
        Some(name) => name,
        None => "Untitled Project".to_owned(),
    };
    ProjectInfo { name, description, notes, goals }
}

} // verus!
