//! The inline configuration language: `key: value` entries that semicolons
//! separate, and bracketed lists of items that commas separate.

use crate::text::{
    chars_of, find, find_char, lemma_split_joined, lemma_split_whole, same_text, split, split_on,
    string_of, texts, trim, trimmed,
};
use vstd::prelude::*;
use vstd::slice::slice_subrange;

verus! {

/// The key and the value of an entry, both trimmed. A piece of text is an
/// entry only if it holds exactly one colon.
pub open spec fn entry_of(piece: Seq<char>) -> Option<(Seq<char>, Seq<char>)> {
    let k = find_char(piece, ':', 0);
    if k < piece.len() && find_char(piece, ':', k + 1) == piece.len() {
        Some((trimmed(piece.take(k)), trimmed(piece.skip(k + 1))))
    } else {
        None
    }
}

/// The value that the last entry with the key `key` among the first `n`
/// pieces gives, if there is such an entry.
pub open spec fn value_in(pieces: Seq<Seq<char>>, key: Seq<char>, n: int) -> Option<Seq<char>>
    decreases n,
{
    if n <= 0 {
        None
    } else {
        match entry_of(pieces[n - 1]) {
            Some((k, v)) => if k == key {
                Some(v)
            } else {
                value_in(pieces, key, n - 1)
            },
            None => value_in(pieces, key, n - 1),
        }
    }
}

/// The value that a configuration text gives to `key`: that of the last
/// entry with this key. Pieces that are no entries count for nothing.
pub open spec fn config_value(text: Seq<char>, key: Seq<char>) -> Option<Seq<char>> {
    let pieces = split_on(text, ';');
    value_in(pieces, key, pieces.len() as int)
}

/// `v` without one leading `[` and then without one trailing `]`.
pub open spec fn without_brackets(v: Seq<char>) -> Seq<char> {
    let a = if v.len() > 0 && v[0] == '[' {
        v.skip(1)
    } else {
        v
    };
    if a.len() > 0 && a.last() == ']' {
        a.drop_last()
    } else {
        a
    }
}

/// The items of a list value: what lies between the commas inside the
/// brackets, each item trimmed.
pub open spec fn list_items(v: Seq<char>) -> Seq<Seq<char>> {
    let parts = split_on(without_brackets(v), ',');
    Seq::new(parts.len(), |i: int| trimmed(parts[i]))
}

/// Whether a piece of a configuration text gives `key` a value.
pub open spec fn gives(piece: Seq<char>, key: Seq<char>) -> bool {
    entry_of(piece) matches Some((k, v)) && k == key
}

/// What the first `n` pieces give does not depend on the pieces behind
/// them.
pub proof fn lemma_value_in_prefix(p: Seq<Seq<char>>, q: Seq<Seq<char>>, key: Seq<char>, n: int)
    requires
        0 <= n <= p.len(),
    ensures
        value_in(p + q, key, n) == value_in(p, key, n),
    decreases n,
{
    if n > 0 {
        assert((p + q)[n - 1] == p[n - 1]);
        lemma_value_in_prefix(p, q, key, n - 1);
    }
}

/// Of two runs of pieces the second decides, and the first where the
/// second gives nothing.
pub proof fn lemma_value_in_joined(p: Seq<Seq<char>>, q: Seq<Seq<char>>, key: Seq<char>, n: int)
    requires
        0 <= n <= q.len(),
    ensures
        value_in(p + q, key, p.len() + n) == match value_in(q, key, n) {
            Some(v) => Some(v),
            None => value_in(p, key, p.len() as int),
        },
    decreases n,
{
    if n > 0 {
        assert((p + q)[p.len() + n - 1] == q[n - 1]);
        lemma_value_in_joined(p, q, key, n - 1);
    } else {
        lemma_value_in_prefix(p, q, key, p.len() as int);
    }
}

/// Of two configuration texts that a semicolon joins the second decides,
/// and the first where the second gives nothing.
pub proof fn lemma_config_value_joined(a: Seq<char>, b: Seq<char>, key: Seq<char>)
    ensures
        config_value(a + seq![';'] + b, key) == match config_value(b, key) {
            Some(v) => Some(v),
            None => config_value(a, key),
        },
{
    lemma_split_joined(a, b, ';', 0);
    lemma_value_in_joined(split_on(a, ';'), split_on(b, ';'), key, split_on(b, ';').len() as int);
}

/// A piece that does not give `key` a value, be it an entry with another
/// key or no entry at all, changes nothing in what a configuration text
/// gives to `key`: not alone, not at the head, not at the end, and not in
/// the middle of the text.
pub proof fn lemma_other_entry_ignored(
    before: Seq<char>,
    piece: Seq<char>,
    after: Seq<char>,
    key: Seq<char>,
)
    requires
        find_char(piece, ';', 0) >= piece.len(),
        !gives(piece, key),
    ensures
        config_value(piece, key) is None,
        config_value(piece + seq![';'] + after, key) == config_value(after, key),
        config_value(before + seq![';'] + piece, key) == config_value(before, key),
        config_value(before + seq![';'] + piece + seq![';'] + after, key) == config_value(
            before + seq![';'] + after,
            key,
        ),
{
    lemma_split_whole(piece, ';');
    assert(value_in(seq![piece], key, 1) is None) by {
        assert(value_in(seq![piece], key, 0) is None);
    }
    lemma_config_value_joined(piece, after, key);
    lemma_config_value_joined(before, piece, key);
    lemma_config_value_joined(before + seq![';'] + piece, after, key);
    lemma_config_value_joined(before, after, key);
}

/// The text of an optional slice.
pub open spec fn slice_text(o: Option<&[char]>) -> Option<Seq<char>> {
    match o {
        Some(s) => Some(s@),
        None => None,
    }
}

/// Reads one piece of a configuration text as an entry.
pub fn entry<'a>(piece: &'a [char]) -> (r: Option<(&'a [char], &'a [char])>)
    ensures
        match r {
            Some((k, v)) => entry_of(piece@) == Some((k@, v@)),
            None => entry_of(piece@) is None,
        },
{
    let k = find(piece, ':', 0);
    if k < piece.len() && find(piece, ':', k + 1) == piece.len() {
        let key = trim(slice_subrange(piece, 0, k));
        let value = trim(slice_subrange(piece, k + 1, piece.len()));
        Some((key, value))
    } else {
        None
    }
}

/// Looks up the value that the pieces of a configuration text give to `key`.
pub fn lookup<'a>(pieces: &Vec<&'a [char]>, key: &str) -> (r: Option<&'a [char]>)
    ensures
        slice_text(r) == value_in(texts(pieces@), key@, pieces@.len() as int),
{
    let word = chars_of(key);
    let mut n: usize = pieces.len();
    while n > 0
        invariant
            n <= pieces@.len(),
            word@ == key@,
            value_in(texts(pieces@), key@, pieces@.len() as int) == value_in(
                texts(pieces@),
                key@,
                n as int,
            ),
        decreases n,
    {
        match entry(pieces[n - 1]) {
            Some((k, v)) => {
                if same_text(k, word.as_slice()) {
                    return Some(v);
                }
            },
            None => {},
        }
        n -= 1;
    }
    None
}

/// Splits a list value into its items.
pub fn list(value: &[char]) -> (items: Vec<String>)
    ensures
        texts(items@) == list_items(value@),
{
    let mut from: usize = 0;
    let mut to: usize = value.len();
    if from < to && value[from] == '[' {
        from += 1;
    }
    if from < to && value[to - 1] == ']' {
        to -= 1;
    }
    let inner = slice_subrange(value, from, to);
    assert(inner@ == without_brackets(value@));
    let parts = split(inner, ',');
    let mut items: Vec<String> = Vec::new();
    let mut i: usize = 0;
    while i < parts.len()
        invariant
            i <= parts@.len(),
            texts(parts@) == split_on(without_brackets(value@), ','),
            items@.len() == i,
            forall|k: int| 0 <= k < i ==> (#[trigger] items@[k])@ == trimmed(parts@[k]@),
        decreases parts@.len() - i,
    {
        items.push(string_of(trim(parts[i])));
        i += 1;
    }
    assert(texts(items@) =~= list_items(value@));
    items
}

} // verus!
