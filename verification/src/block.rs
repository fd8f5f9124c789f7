//! Blocks: the lines below the header of a note or a goal, up to the next
//! header or comment, with an id tag among them.

use crate::text::{starts_with, string_of, strip_prefix, strip_suffix, texts, trim, trimmed};
use vstd::prelude::*;

verus! {

/// The id that a trimmed line tags a block with, if the line is an id tag:
/// `<!-- id: `, the id, and ` -->`.
pub open spec fn id_tag(t: Seq<char>) -> Option<Seq<char>> {
    let rest = t.skip("<!-- id: "@.len() as int);
    if "<!-- id: "@.is_prefix_of(t) && " -->"@.is_suffix_of(rest) {
        Some(rest.take(rest.len() - " -->"@.len()))
    } else {
        None
    }
}

/// Whether a trimmed line ends the block before it: a header of either
/// level, or a comment that is no id tag.
pub open spec fn is_boundary(t: Seq<char>) -> bool {
    id_tag(t) is None && ("## "@.is_prefix_of(t) || "# "@.is_prefix_of(t) || "<!--"@.is_prefix_of(
        t,
    ))
}

/// The number of lines from `start` on that stand before the next boundary.
pub open spec fn block_len(lines: Seq<Seq<char>>, start: int) -> nat
    decreases lines.len() - start,
{
    if 0 <= start < lines.len() && !is_boundary(trimmed(lines[start])) {
        1 + block_len(lines, start + 1)
    } else {
        0
    }
}

/// The text of the lines from `start` to `end`, id tags left out, each
/// line as it stands and with a line feed behind it.
pub open spec fn block_body(lines: Seq<Seq<char>>, start: int, end: int) -> Seq<char>
    decreases end - start,
{
    if end <= start {
        Seq::empty()
    } else if id_tag(trimmed(lines[end - 1])) is Some {
        block_body(lines, start, end - 1)
    } else {
        block_body(lines, start, end - 1) + lines[end - 1] + seq!['\n']
    }
}

/// The id of the last id tag among the lines from `start` to `end`.
pub open spec fn block_id(lines: Seq<Seq<char>>, start: int, end: int) -> Option<Seq<char>>
    decreases end - start,
{
    if end <= start {
        None
    } else {
        match id_tag(trimmed(lines[end - 1])) {
            Some(id) => Some(id),
            None => block_id(lines, start, end - 1),
        }
    }
}

/// A top-level header is no id tag, and ends the block before it.
pub proof fn lemma_top_header_ends_block(t: Seq<char>)
    requires
        "# "@.is_prefix_of(t),
    ensures
        id_tag(t) is None,
        is_boundary(t),
{
    reveal_strlit("# ");
    reveal_strlit("<!-- id: ");
    if "<!-- id: "@.is_prefix_of(t) {
        assert(t[0] == "# "@[0]);
        assert(t[0] == "<!-- id: "@[0]);
    }
}

/// A block ends at the latest where a boundary stands, and up to there it
/// is read alike whether or not the lines go on behind the boundary.
pub proof fn lemma_block_before_boundary(lines: Seq<Seq<char>>, k: int, start: int)
    requires
        0 <= start <= k < lines.len(),
        is_boundary(trimmed(lines[k])),
    ensures
        start + block_len(lines, start) <= k,
        block_len(lines.take(k), start) == block_len(lines, start),
    decreases k - start,
{
    if start < k {
        assert(lines.take(k)[start] == lines[start]);
        if !is_boundary(trimmed(lines[start])) {
            lemma_block_before_boundary(lines, k, start + 1);
        }
    }
}

/// The text and the id of a block do not depend on the lines behind it.
pub proof fn lemma_block_of_prefix(lines: Seq<Seq<char>>, k: int, start: int, end: int)
    requires
        0 <= start,
        end <= k <= lines.len(),
    ensures
        block_body(lines.take(k), start, end) == block_body(lines, start, end),
        block_id(lines.take(k), start, end) == block_id(lines, start, end),
    decreases end - start,
{
    if end > start {
        assert(lines.take(k)[end - 1] == lines[end - 1]);
        lemma_block_of_prefix(lines, k, start, end - 1);
    }
}

/// A block as it was read.
#[derive(Debug, Clone)]
pub struct Block {
    /// The id of the block's last id tag.
    pub id: Option<String>,
    /// The block's text, trimmed.
    pub body: Vec<char>,
    /// The index of the line that ended the block.
    pub end: usize,
}

/// Reads a trimmed line as an id tag.
pub fn read_id_tag<'a>(t: &'a [char]) -> (r: Option<&'a [char]>)
    ensures
        crate::config::slice_text(r) == id_tag(t@),
{
    match strip_prefix(t, "<!-- id: ") {
        Some(rest) => strip_suffix(rest, " -->"),
        None => None,
    }
}

/// Whether a trimmed line ends the block before it.
pub fn ends_block(t: &[char]) -> (r: bool)
    ensures
        r == is_boundary(t@),
{
    read_id_tag(t).is_none() && (starts_with(t, "## ") || starts_with(t, "# ") || starts_with(
        t,
        "<!--",
    ))
}

/// Reads the block that begins at the line `start`.
pub fn collect_block(lines: &Vec<&[char]>, start: usize) -> (block: Block)
    requires
        start <= lines@.len(),
    ensures
        block.end == start + block_len(texts(lines@), start as int),
        block.end <= lines@.len(),
        crate::task_config::opt_text(block.id) == block_id(
            texts(lines@),
            start as int,
            block.end as int,
        ),
        block.body@ == trimmed(block_body(texts(lines@), start as int, block.end as int)),
{
    let ghost rows = texts(lines@);
    let mut id: Option<String> = None;
    let mut body: Vec<char> = Vec::new();
    let mut i: usize = start;
    loop
        invariant_except_break
            start <= i <= lines@.len(),
            rows == texts(lines@),
            block_len(rows, start as int) == (i - start) + block_len(rows, i as int),
        invariant
            start <= i <= lines@.len(),
            rows == texts(lines@),
            crate::task_config::opt_text(id) == block_id(rows, start as int, i as int),
            body@ == block_body(rows, start as int, i as int),
        ensures
            i == start + block_len(rows, start as int),
        decreases lines@.len() - i,
    {
        if i >= lines.len() {
            break;
        }
        let line = lines[i];
        assert(line@ == rows[i as int]);
        let t = trim(line);
        match read_id_tag(t) {
            Some(tag) => {
                id = Some(string_of(tag));
            },
            None => {
                if ends_block(t) {
                    break;
                }
                body.extend_from_slice(line);
                body.push('\n');
                assert(body@ == block_body(rows, start as int, i as int) + rows[i as int] + seq![
                    '\n',
                ]);
            },
        }
        i += 1;
    }
    let text = trim(body.as_slice());
    let mut kept: Vec<char> = Vec::new();
    kept.extend_from_slice(text);
    Block { id, body: kept, end: i }
}

} // verus!
