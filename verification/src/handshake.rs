//! The handshake target of a connection and the name that it asks for.
//!
//! The target is cut at every `?`, `=` and `&`. The first piece is the path
//! and is ignored, so the relay works behind a proxy that adds a prefix. The
//! pieces after it are read as key, value, key, value, and only the first
//! pair counts: if its key is `user`, its value is the requested name.

use crate::text::{characters_of, same_text};
use vstd::prelude::*;
use vstd::string::StrSliceExecFns;

verus! {

/// The key that introduces the requested name.
pub const USER_KEY: &'static str = "user";

/// Whether `c` ends a piece of the target.
pub open spec fn is_separator(c: char) -> bool {
    c == '?' || c == '=' || c == '&'
}

/// The position of the first separator of `target` at or after `from`, or
/// the length of `target` if there is none.
pub open spec fn piece_end(target: Seq<char>, from: int) -> int
    decreases target.len() - from,
{
    if from >= target.len() {
        target.len() as int
    } else if is_separator(target[from]) {
        from
    } else {
        piece_end(target, from + 1)
    }
}

/// The pieces of `target` from position `from` on: what stands between one
/// separator and the next. There is always at least one piece, and a piece
/// may be empty.
pub open spec fn pieces_from(target: Seq<char>, from: int) -> Seq<Seq<char>>
    decreases target.len() - from,
{
    let end = piece_end(target, from);
    if 0 <= from <= end < target.len() {
        seq![target.subrange(from, end)] + pieces_from(target, end + 1)
    } else if 0 <= from <= target.len() {
        seq![target.subrange(from, target.len() as int)]
    } else {
        seq![Seq::empty()]
    }
}

/// The pieces of `target`.
pub open spec fn pieces(target: Seq<char>) -> Seq<Seq<char>> {
    pieces_from(target, 0)
}

/// The name that a handshake target asks for, if it asks for one. The value
/// may be empty; the relay registers nobody under the empty name.
pub open spec fn requested_name(target: Seq<char>) -> Option<Seq<char>> {
    let arguments = pieces(target).skip(1);
    if arguments.len() >= 2 && arguments[0] == USER_KEY@ {
        Some(arguments[1])
    } else {
        None
    }
}

/// `piece_end` lies between `from` and the end of the target, no separator
/// stands before it, and one stands at it unless it is the end.
pub proof fn lemma_piece_end(target: Seq<char>, from: int)
    requires
        0 <= from <= target.len(),
    ensures
        from <= piece_end(target, from) <= target.len(),
        forall|i: int| from <= i < piece_end(target, from) ==> !is_separator(#[trigger] target[i]),
        piece_end(target, from) < target.len() ==> is_separator(target[piece_end(target, from)]),
    decreases target.len() - from,
{
    if from < target.len() && !is_separator(target[from]) {
        lemma_piece_end(target, from + 1);
    }
}

/// The first piece from `from` on runs up to `piece_end`; the pieces after
/// it are those from past that separator on, if there is one.
pub proof fn lemma_pieces_from(target: Seq<char>, from: int)
    requires
        0 <= from <= target.len(),
    ensures
        pieces_from(target, from).len() >= 1,
        pieces_from(target, from)[0] == target.subrange(from, piece_end(target, from)),
        piece_end(target, from) == target.len() ==> pieces_from(target, from).len() == 1,
        piece_end(target, from) < target.len() ==> pieces_from(target, from).skip(1)
            == pieces_from(target, piece_end(target, from) + 1),
{
    lemma_piece_end(target, from);
    let end = piece_end(target, from);
    if end < target.len() {
        assert(pieces_from(target, from).skip(1) =~= pieces_from(target, end + 1));
    }
}

/// A piece that starts at `from` ends at `end` if no separator stands
/// between the two and `end` is a separator or the end of the target.
pub proof fn lemma_piece_ends_at(target: Seq<char>, from: int, end: int)
    requires
        0 <= from <= end <= target.len(),
        forall|i: int| from <= i < end ==> !is_separator(#[trigger] target[i]),
        end < target.len() ==> is_separator(target[end]),
    ensures
        piece_end(target, from) == end,
    decreases end - from,
{
    if from < end {
        lemma_piece_ends_at(target, from + 1, end);
    }
}

/// Whether `text` holds no separator.
pub open spec fn is_piece(text: Seq<char>) -> bool {
    forall|i: int| 0 <= i < text.len() ==> !is_separator(#[trigger] text[i])
}

/// A target asks for `name` if it reads: a path, a separator, `user`, a
/// separator, the name, and then either nothing or a separator and anything.
pub proof fn lemma_asks_for(
    target: Seq<char>,
    path: Seq<char>,
    first: char,
    second: char,
    name: Seq<char>,
    rest: Seq<char>,
)
    requires
        target == path + seq![first] + USER_KEY@ + seq![second] + name + rest,
        is_piece(path),
        is_piece(name),
        is_separator(first),
        is_separator(second),
        rest.len() > 0 ==> is_separator(rest[0]),
    ensures
        requested_name(target) == Some(name),
{
    reveal_strlit("user");
    let path_end = path.len() as int;
    let key_end = path_end + 5;
    let name_end = key_end + 1 + name.len();
    assert(USER_KEY@.len() == 4);
    assert forall|i: int| path_end + 1 <= i < key_end implies !is_separator(
        #[trigger] target[i],
    ) by {
        assert(target[i] == USER_KEY@[i - path_end - 1]);
    }
    assert forall|i: int| 0 <= i < path_end implies !is_separator(#[trigger] target[i]) by {
        assert(target[i] == path[i]);
    }
    assert forall|i: int| key_end + 1 <= i < name_end implies !is_separator(
        #[trigger] target[i],
    ) by {
        assert(target[i] == name[i - key_end - 1]);
    }
    assert(target[path_end] == first);
    assert(target[key_end] == second);
    if rest.len() > 0 {
        assert(target[name_end] == rest[0]);
    }
    lemma_piece_ends_at(target, 0, path_end);
    lemma_piece_ends_at(target, path_end + 1, key_end);
    lemma_piece_ends_at(target, key_end + 1, name_end);
    lemma_pieces_from(target, 0);
    lemma_pieces_from(target, path_end + 1);
    lemma_pieces_from(target, key_end + 1);
    let arguments = pieces(target).skip(1);
    assert(arguments.skip(1) == pieces_from(target, key_end + 1));
    assert(arguments[1] == arguments.skip(1)[0]);
    assert(arguments[0] =~= USER_KEY@);
    assert(arguments[1] =~= name);
}

/// A target without a separator is a path alone and asks for no name.
pub proof fn lemma_path_alone(target: Seq<char>)
    requires
        is_piece(target),
    ensures
        requested_name(target) is None,
{
    lemma_piece_ends_at(target, 0, target.len() as int);
    lemma_pieces_from(target, 0);
}

/// A target with one separator has a key and no value, and asks for no
/// name, whatever the key.
pub proof fn lemma_key_alone(target: Seq<char>, path: Seq<char>, first: char, key: Seq<char>)
    requires
        target == path + seq![first] + key,
        is_piece(path),
        is_piece(key),
        is_separator(first),
    ensures
        requested_name(target) is None,
{
    let path_end = path.len() as int;
    assert forall|i: int| 0 <= i < path_end implies !is_separator(#[trigger] target[i]) by {
        assert(target[i] == path[i]);
    }
    assert forall|i: int| path_end + 1 <= i < target.len() implies !is_separator(
        #[trigger] target[i],
    ) by {
        assert(target[i] == key[i - path_end - 1]);
    }
    assert(target[path_end] == first);
    lemma_piece_ends_at(target, 0, path_end);
    lemma_piece_ends_at(target, path_end + 1, target.len() as int);
    lemma_pieces_from(target, 0);
    lemma_pieces_from(target, path_end + 1);
}

/// A target whose first key is not `user` asks for no name, whatever
/// follows the key.
pub proof fn lemma_other_key(
    target: Seq<char>,
    path: Seq<char>,
    first: char,
    key: Seq<char>,
    rest: Seq<char>,
)
    requires
        target == path + seq![first] + key + rest,
        is_piece(path),
        is_piece(key),
        is_separator(first),
        rest.len() > 0 ==> is_separator(rest[0]),
        key != USER_KEY@,
    ensures
        requested_name(target) is None,
{
    let path_end = path.len() as int;
    let key_end = path_end + 1 + key.len();
    assert forall|i: int| 0 <= i < path_end implies !is_separator(#[trigger] target[i]) by {
        assert(target[i] == path[i]);
    }
    assert forall|i: int| path_end + 1 <= i < key_end implies !is_separator(
        #[trigger] target[i],
    ) by {
        assert(target[i] == key[i - path_end - 1]);
    }
    assert(target[path_end] == first);
    if rest.len() > 0 {
        assert(target[key_end] == rest[0]);
    }
    lemma_piece_ends_at(target, 0, path_end);
    lemma_piece_ends_at(target, path_end + 1, key_end);
    lemma_pieces_from(target, 0);
    lemma_pieces_from(target, path_end + 1);
    let arguments = pieces(target).skip(1);
    assert(arguments[0] =~= key);
}

/// The characters of a string slice.
fn characters(text: &str) -> (chars: Vec<char>)
    ensures
        chars@ == text@,
{
    let mut chars: Vec<char> = Vec::new();
    for c in it: text.chars()
        invariant
            chars@ == it.seq().take(it.index() as int),
    {
        chars.push(c);
    }
    chars
}

/// Whether `c` ends a piece of the target.
fn separates(c: char) -> (separator: bool)
    ensures
        separator == is_separator(c),
{
    c == '?' || c == '=' || c == '&'
}

/// Finds the end of the piece that starts at `from`.
fn find_piece_end(target: &Vec<char>, from: usize) -> (end: usize)
    requires
        from <= target.len(),
    ensures
        end == piece_end(target@, from as int),
        from <= end <= target.len(),
{
    let mut end = from;
    while end < target.len() && !separates(target[end])
        invariant
            from <= end <= target.len(),
            piece_end(target@, from as int) == piece_end(target@, end as int),
        decreases target.len() - end,
    {
        end += 1;
    }
    end
}

/// Reads the requested name off a handshake target.
pub fn parse_requested_name(target: &str) -> (name: Option<String>)
    ensures
        characters_of(name) == requested_name(target@),
{
    let chars = characters(target);
    let path_end = find_piece_end(&chars, 0);
    proof {
        lemma_pieces_from(target@, 0);
    }
    if path_end == chars.len() {
        return None;
    }
    let key_end = find_piece_end(&chars, path_end + 1);
    proof {
        lemma_pieces_from(target@, path_end + 1);
    }
    if key_end == chars.len() {
        return None;
    }
    let name_end = find_piece_end(&chars, key_end + 1);
    proof {
        lemma_pieces_from(target@, key_end + 1);
        let arguments = pieces(target@).skip(1);
        assert(arguments.skip(1) == pieces_from(target@, key_end + 1));
        assert(arguments[1] == arguments.skip(1)[0]);
    }
    let key = target.substring_char(path_end + 1, key_end);
    if same_text(key, USER_KEY) {
        Some(target.substring_char(key_end + 1, name_end).to_owned())
    } else {
        None
    }
}

} // verus!
