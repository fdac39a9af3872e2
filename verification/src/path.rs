//! Unix paths as the byte strings that the kernel sees.
//!
//! A path need not be UTF-8, so it is a sequence of bytes here. The functions below read one
//! in the way that `std::path` documents for Unix: repeated separators, a trailing separator
//! and a `.` component that is not the first component count for nothing.
use vstd::prelude::*;
use vstd::slice::slice_to_vec;
use vstd::utf8::*;

verus! {

/// The byte `/`.
pub const SEPARATOR: u8 = 0x2f;

/// The byte `.`.
pub const DOT: u8 = 0x2e;

/// Whether a path starts at the root.
pub open spec fn absolute(path: Seq<u8>) -> bool {
    path.len() > 0 && path[0] == SEPARATOR
}

/// A path taken relative to a base: an absolute path replaces the base, any other one follows
/// it, with a separator between the two unless the base is empty or already ends with one.
pub open spec fn joined(base: Seq<u8>, path: Seq<u8>) -> Seq<u8> {
    if absolute(path) {
        path
    } else if base.len() == 0 || base.last() == SEPARATOR {
        base + path
    } else {
        base.push(SEPARATOR) + path
    }
}

/// How many leading bytes are no part of any piece that can be cut off: the root `/`, or a `.`
/// that is the first component.
pub open spec fn anchor(path: Seq<u8>) -> int {
    if absolute(path) {
        1
    } else if path.len() > 0 && path[0] == DOT && (path.len() == 1 || path[1] == SEPARATOR) {
        1
    } else {
        0
    }
}

/// Where the bytes after the last separator start.
pub open spec fn after_last_separator(path: Seq<u8>) -> int
    decreases path.len(),
{
    if path.len() == 0 || path.last() == SEPARATOR {
        path.len() as int
    } else {
        after_last_separator(path.drop_last())
    }
}

/// Where the last piece behind the anchor starts.
pub open spec fn last_piece_at(path: Seq<u8>) -> int {
    if after_last_separator(path) < anchor(path) {
        anchor(path)
    } else {
        after_last_separator(path)
    }
}

/// The last piece behind the anchor.
pub open spec fn last_piece(path: Seq<u8>) -> Seq<u8> {
    path.skip(last_piece_at(path))
}

/// The path without its last piece and without the separator before that piece.
pub open spec fn without_last_piece(path: Seq<u8>) -> Seq<u8> {
    if last_piece_at(path) > anchor(path) {
        path.take(last_piece_at(path) - 1)
    } else {
        path.take(anchor(path))
    }
}

/// Whether a piece counts for nothing: the empty one between two separators, and `.`.
pub open spec fn redundant(piece: Seq<u8>) -> bool {
    piece.len() == 0 || piece == seq![DOT]
}

/// The path without the redundant pieces at its end.
pub open spec fn trimmed(path: Seq<u8>) -> Seq<u8>
    decreases path.len(),
    via trimmed_terminates
{
    if path.len() > anchor(path) && redundant(last_piece(path)) {
        trimmed(without_last_piece(path))
    } else {
        path
    }
}

/// The final component, where it names an entry of a directory: the last piece that is not
/// redundant, unless that is `..`.
pub open spec fn final_component(path: Seq<u8>) -> Option<Seq<u8>> {
    let rest = trimmed(path);
    if rest.len() <= anchor(rest) || last_piece(rest) == seq![DOT, DOT] {
        None
    } else {
        Some(last_piece(rest))
    }
}

/// The path without its final component, where it has one; the root and the empty path have
/// none.
pub open spec fn containing_directory(path: Seq<u8>) -> Option<Seq<u8>> {
    let rest = trimmed(path);
    if rest.len() > anchor(rest) {
        Some(trimmed(without_last_piece(rest)))
    } else if rest == seq![DOT] {
        Some(Seq::empty())
    } else {
        None
    }
}

proof fn lemma_after_last_separator(path: Seq<u8>)
    ensures
        0 <= after_last_separator(path) <= path.len(),
        after_last_separator(path) > 0 ==> path[after_last_separator(path) - 1] == SEPARATOR,
        forall|i: int|
            after_last_separator(path) <= i < path.len() ==> #[trigger] path[i] != SEPARATOR,
        absolute(path) ==> after_last_separator(path) >= 1,
    decreases path.len(),
{
    if path.len() == 0 || path.last() == SEPARATOR {
    } else {
        let shorter = path.drop_last();
        lemma_after_last_separator(shorter);
        assert forall|i: int|
            after_last_separator(path) <= i < path.len() implies #[trigger] path[i] != SEPARATOR by {
            if i < shorter.len() {
                assert(shorter[i] == path[i]);
            }
        }
        if absolute(path) {
            if shorter.len() == 0 {
                assert(path.last() == path[0]);
            } else {
                assert(absolute(shorter));
            }
        }
    }
}

proof fn lemma_last_piece(path: Seq<u8>)
    requires
        path.len() > anchor(path),
    ensures
        0 <= anchor(path) <= last_piece_at(path) <= path.len(),
        anchor(path) <= without_last_piece(path).len() < path.len(),
{
    lemma_after_last_separator(path);
}

#[via_fn]
proof fn trimmed_terminates(path: Seq<u8>) {
    if path.len() > anchor(path) {
        lemma_last_piece(path);
    }
}

proof fn lemma_trimmed_is_prefix(path: Seq<u8>)
    ensures
        trimmed(path).len() <= path.len(),
        trimmed(path) == path.take(trimmed(path).len() as int),
        trimmed(path).len() > anchor(trimmed(path)) ==> !redundant(last_piece(trimmed(path))),
    decreases path.len(),
{
    if path.len() > anchor(path) && redundant(last_piece(path)) {
        lemma_last_piece(path);
        let shorter = without_last_piece(path);
        lemma_trimmed_is_prefix(shorter);
        assert(trimmed(path) =~= path.take(trimmed(path).len() as int));
    } else {
        assert(path =~= path.take(path.len() as int));
    }
}

/// Where the bytes after the last separator of the first `end` bytes start.
fn find_after_last_separator(path: &[u8], end: usize) -> (start: usize)
    requires
        end <= path@.len(),
    ensures
        start == after_last_separator(path@.take(end as int)),
{
    let mut start: usize = end;
    while start > 0 && path[start - 1] != SEPARATOR
        invariant
            start <= end <= path@.len(),
            after_last_separator(path@.take(end as int)) == after_last_separator(
                path@.take(start as int),
            ),
        decreases start,
    {
        assert(path@.take(start as int).drop_last() =~= path@.take(start - 1));
        start = start - 1;
    }
    start
}

/// The anchor of the first `end` bytes.
fn find_anchor(path: &[u8], end: usize) -> (len: usize)
    requires
        end <= path@.len(),
    ensures
        len == anchor(path@.take(end as int)),
{
    if end == 0 {
        0
    } else if path[0] == SEPARATOR {
        1
    } else if path[0] == DOT && (end == 1 || path[1] == SEPARATOR) {
        1
    } else {
        0
    }
}

/// Where the last piece of the first `end` bytes starts.
fn find_last_piece(path: &[u8], end: usize) -> (start: usize)
    requires
        anchor(path@.take(end as int)) < end <= path@.len(),
    ensures
        start == last_piece_at(path@.take(end as int)),
        anchor(path@.take(end as int)) <= start <= end,
{
    proof {
        lemma_last_piece(path@.take(end as int));
    }
    let start = find_after_last_separator(path, end);
    let fixed = find_anchor(path, end);
    if start < fixed {
        fixed
    } else {
        start
    }
}

/// How many of the first `end` bytes are left when the last piece is cut off.
fn cut_last_piece(path: &[u8], end: usize) -> (len: usize)
    requires
        anchor(path@.take(end as int)) < end <= path@.len(),
    ensures
        len < end,
        path@.take(len as int) == without_last_piece(path@.take(end as int)),
{
    let ghost whole = path@.take(end as int);
    proof {
        lemma_last_piece(whole);
    }
    let start = find_last_piece(path, end);
    let fixed = find_anchor(path, end);
    let len: usize = if start > fixed {
        start - 1
    } else {
        fixed
    };
    assert(path@.take(len as int) =~= without_last_piece(whole));
    len
}

/// How many of the first `end` bytes are left when the redundant pieces at their end are cut
/// off.
fn trimmed_len(path: &[u8], end: usize) -> (len: usize)
    requires
        end <= path@.len(),
    ensures
        len <= end,
        path@.take(len as int) == trimmed(path@.take(end as int)),
{
    let mut len: usize = end;
    loop
        invariant
            len <= end <= path@.len(),
            trimmed(path@.take(len as int)) == trimmed(path@.take(end as int)),
        decreases len,
    {
        let ghost whole = path@.take(len as int);
        let fixed = find_anchor(path, len);
        if len <= fixed {
            return len;
        }
        let start = find_last_piece(path, len);
        assert(last_piece(whole) =~= path@.subrange(start as int, len as int));
        if len - start >= 2 || (len - start == 1 && path[start] != DOT) {
            assert(!redundant(last_piece(whole))) by {
                if last_piece(whole) == seq![DOT] {
                    assert(last_piece(whole)[0] == path@[start as int]);
                }
            }
            return len;
        }
        assert(redundant(last_piece(whole))) by {
            if len - start == 1 {
                assert(last_piece(whole) =~= seq![DOT]);
            }
        }
        len = cut_last_piece(path, len);
    }
}

/// Whether a path starts at the root.
pub fn is_absolute(path: &[u8]) -> (result: bool)
    ensures
        result == absolute(path@),
        result <==> path@.len() > 0 && path@[0] == 0x2f,
{
    path.len() > 0 && path[0] == SEPARATOR
}

/// A path taken relative to a base.
pub fn join(base: &[u8], path: &[u8]) -> (result: Vec<u8>)
    ensures
        result@ == joined(base@, path@),
        path@.len() > 0 && path@[0] == 0x2f ==> result@ == path@,
        !(path@.len() > 0 && path@[0] == 0x2f) ==> if base@.len() == 0 || base@.last() == 0x2f {
            result@ == base@ + path@
        } else {
            result@ == base@.push(0x2f) + path@
        },
{
    if is_absolute(path) {
        return slice_to_vec(path);
    }
    let mut result: Vec<u8> = slice_to_vec(base);
    if base.len() > 0 && base[base.len() - 1] != SEPARATOR {
        result.push(SEPARATOR);
    }
    let mut rest: Vec<u8> = slice_to_vec(path);
    result.append(&mut rest);
    result
}

/// The directory that holds what a path names.
pub fn parent(path: &[u8]) -> (result: Option<Vec<u8>>)
    ensures
        match result {
            Some(directory) => containing_directory(path@) == Some(directory@),
            None => containing_directory(path@) is None,
        },
{
    assert(path@.take(path@.len() as int) =~= path@);
    let len = trimmed_len(path, path.len());
    let fixed = find_anchor(path, len);
    if len > fixed {
        let shorter = cut_last_piece(path, len);
        let end = trimmed_len(path, shorter);
        assert(path@.subrange(0, end as int) =~= path@.take(end as int));
        Some(slice_to_vec(vstd::slice::slice_subrange(path, 0, end)))
    } else if len == 1 && path[0] == DOT {
        assert(path@.take(1) =~= seq![DOT]);
        Some(Vec::new())
    } else {
        assert(trimmed(path@) != seq![DOT]) by {
            if trimmed(path@) == seq![DOT] {
                assert(path@.take(len as int).len() == 1);
                assert(path@.take(len as int)[0] == DOT);
            }
        }
        None
    }
}

/// The cuts that take a final component out of UTF-8 text fall between characters.
proof fn lemma_component_boundaries(bytes: Seq<u8>, start: int, end: int)
    requires
        valid_utf8(bytes),
        0 <= start <= end <= bytes.len(),
        start > 0 ==> bytes[start - 1] == SEPARATOR,
        end < bytes.len() ==> bytes[end] == SEPARATOR,
    ensures
        is_char_boundary(bytes, end),
        is_char_boundary(bytes.take(end), start),
        valid_utf8(bytes.take(end)),
{
    is_char_boundary_start_end_of_seq(bytes);
    if end < bytes.len() {
        is_char_boundary_iff_not_is_continuation_byte(bytes, end);
    }
    valid_utf8_split(bytes, end);
    let head = bytes.take(end);
    assert(head =~= bytes.subrange(0, end));
    is_char_boundary_start_end_of_seq(head);
    if 0 < start < end {
        is_char_boundary_iff_not_is_continuation_byte(head, start - 1);
        valid_utf8_split(head, start - 1);
        let tail = head.subrange(start - 1, head.len() as int);
        assert(tail[0] == SEPARATOR);
        assert(pop_first_scalar(tail)[0] == head[start]);
        assert(valid_first_scalar(pop_first_scalar(tail))) by {
            reveal_with_fuel(valid_utf8, 2);
        }
        is_char_boundary_iff_not_is_continuation_byte(head, start);
    }
}

/// What is cut off at the end of a path is cut off at a separator, unless nothing but the anchor
/// is left.
proof fn lemma_trimmed_ends_at_separator(path: Seq<u8>)
    ensures
        trimmed(path).len() == path.len() || path[trimmed(path).len() as int] == SEPARATOR
            || trimmed(path).len() <= anchor(trimmed(path)),
    decreases path.len(),
{
    if path.len() > anchor(path) && redundant(last_piece(path)) {
        lemma_last_piece(path);
        lemma_after_last_separator(path);
        let shorter = without_last_piece(path);
        lemma_trimmed_ends_at_separator(shorter);
        lemma_trimmed_is_prefix(shorter);
        if last_piece_at(path) <= anchor(path) {
            assert(anchor(shorter) == shorter.len());
        }
    }
}

/// Where the final component starts and ends.
fn find_final_component(path: &[u8]) -> (result: Option<(usize, usize)>)
    ensures
        match result {
            Some((start, end)) => {
                &&& start <= end <= path@.len()
                &&& final_component(path@) == Some(path@.subrange(start as int, end as int))
                &&& start > 0 ==> path@[start - 1] == SEPARATOR
                &&& end < path@.len() ==> path@[end as int] == SEPARATOR
            },
            None => final_component(path@) is None,
        },
{
    let ghost whole = path@;
    assert(whole.take(whole.len() as int) =~= whole);
    let end = trimmed_len(path, path.len());
    let ghost rest = whole.take(end as int);
    let fixed = find_anchor(path, end);
    if end <= fixed {
        return None;
    }
    let start = find_last_piece(path, end);
    assert(last_piece(rest) =~= whole.subrange(start as int, end as int));
    if end - start == 2 && path[start] == DOT && path[start + 1] == DOT {
        assert(last_piece(rest) =~= seq![DOT, DOT]);
        return None;
    }
    assert(last_piece(rest) != seq![DOT, DOT]) by {
        if last_piece(rest) == seq![DOT, DOT] {
            assert(last_piece(rest).len() == 2);
            assert(last_piece(rest)[0] == whole[start as int]);
            assert(last_piece(rest)[1] == whole[start + 1]);
        }
    }
    proof {
        lemma_trimmed_ends_at_separator(whole);
        lemma_after_last_separator(rest);
    }
    Some((start, end))
}

/// The name of the directory entry that a path ends with.
pub fn file_name(path: &str) -> (result: Option<&str>)
    ensures
        match result {
            Some(name) => final_component(encode_utf8(path@)) == Some(encode_utf8(name@)),
            None => final_component(encode_utf8(path@)) is None,
        },
{
    match find_final_component(path.as_bytes()) {
        None => None,
        Some((start, end)) => {
            let ghost whole = encode_utf8(path@);
            proof {
                encode_utf8_valid_utf8(path@);
                lemma_component_boundaries(whole, start as int, end as int);
            }
            let (head, _) = path.split_at(end);
            assert(encode_utf8(head@) =~= whole.take(end as int));
            let (_, name) = head.split_at(start);
            assert(encode_utf8(name@) =~= whole.subrange(start as int, end as int));
            Some(name)
        },
    }
}

/// A final component is not empty, is neither `.` nor `..`, and holds no separator.
pub proof fn final_component_is_plain(path: Seq<u8>)
    ensures
        final_component(path) matches Some(name) ==> {
            &&& name.len() > 0
            &&& !name.contains(SEPARATOR)
            &&& name != seq![DOT]
            &&& name != seq![DOT, DOT]
            &&& !absolute(name)
        },
{
    let rest = trimmed(path);
    lemma_trimmed_is_prefix(path);
    if rest.len() > anchor(rest) {
        lemma_after_last_separator(rest);
        let name = last_piece(rest);
        assert forall|i: int| 0 <= i < name.len() implies name[i] != SEPARATOR by {
            assert(name[i] == rest[last_piece_at(rest) + i]);
        }
    }
}

/// The final component of text is text.
pub proof fn final_component_is_text(path: Seq<char>)
    ensures
        final_component(encode_utf8(path)) matches Some(name) ==> valid_utf8(name),
{
    let whole = encode_utf8(path);
    let rest = trimmed(whole);
    encode_utf8_valid_utf8(path);
    lemma_trimmed_is_prefix(whole);
    lemma_trimmed_ends_at_separator(whole);
    if rest.len() > anchor(rest) {
        lemma_last_piece(rest);
        lemma_after_last_separator(rest);
        let start = last_piece_at(rest);
        lemma_component_boundaries(whole, start, rest.len() as int);
        valid_utf8_split(rest, start);
        assert(last_piece(rest) =~= rest.subrange(start, rest.len() as int));
    }
}

/// A plain name is its own final component.
pub proof fn plain_name_is_its_final_component(name: Seq<u8>)
    requires
        name.len() > 0,
        !name.contains(SEPARATOR),
        name != seq![DOT],
        name != seq![DOT, DOT],
    ensures
        final_component(name) == Some(name),
{
    assert forall|i: int| 0 <= i < name.len() implies #[trigger] name[i] != SEPARATOR by {
        assert(name.contains(name[i]));
    }
    lemma_after_last_separator(name);
    assert(anchor(name) == 0) by {
        if name.len() == 1 && name[0] == DOT {
            assert(name =~= seq![DOT]);
        }
    }
    assert(last_piece(name) =~= name);
}

/// A plain name taken relative to a directory names an entry of that directory.
pub proof fn joined_name_is_an_entry(directory: Seq<u8>, name: Seq<u8>)
    requires
        name.len() > 0,
        !name.contains(SEPARATOR),
        name != seq![DOT],
        name != seq![DOT, DOT],
    ensures
        final_component(joined(directory, name)) == Some(name),
        containing_directory(joined(directory, name)) == Some(trimmed(directory)),
{
    let path = joined(directory, name);
    assert(!absolute(name)) by {
        if absolute(name) {
            assert(name.contains(name[0]));
        }
    }
    plain_name_is_its_final_component(name);
    if directory.len() == 0 {
        assert(path =~= name);
        lemma_after_last_separator(name);
        assert(without_last_piece(name) =~= directory);
    } else {
        let start = path.len() - name.len();
        assert(path.skip(start) =~= name);
        assert(path[start - 1] == SEPARATOR);
        lemma_after_last_separator(path);
        assert(after_last_separator(path) == start) by {
            if after_last_separator(path) > start {
                let i = after_last_separator(path) - 1;
                assert(name[i - start] == path[i]);
                assert(name.contains(SEPARATOR));
            }
        }
        assert(last_piece(path) =~= name);
        assert(trimmed(path) == path);
        let rest = without_last_piece(path);
        if directory.last() == SEPARATOR {
            lemma_after_last_separator(directory);
            assert(last_piece_at(path) == directory.len());
            assert(anchor(path) == anchor(directory));
            if directory.len() > anchor(directory) {
                assert(last_piece(directory) =~= Seq::<u8>::empty());
                assert(rest =~= without_last_piece(directory));
                assert(trimmed(directory) == trimmed(rest));
            } else {
                assert(rest =~= directory);
            }
        } else {
            assert(rest =~= directory);
        }
    }
}

/// A path that starts with a slash is taken as it is; any other one comes behind the whole base,
/// with exactly one slash added where the base is not empty and does not end with one.
pub proof fn joined_paths_keep_both_parts(base: Seq<u8>, path: Seq<u8>)
    ensures
        ({
            let whole = joined(base, path);
            if path.len() > 0 && path[0] == 0x2f {
                whole == path
            } else {
                let added = whole.len() - base.len() - path.len();
                &&& 0 <= added <= 1
                &&& whole.take(base.len() as int) == base
                &&& whole.skip(whole.len() - path.len()) == path
                &&& added == 1 <==> base.len() > 0 && base.last() != 0x2f
                &&& added == 1 ==> whole[base.len() as int] == 0x2f
            }
        }),
{
    let whole = joined(base, path);
    if !(path.len() > 0 && path[0] == 0x2f) {
        assert(whole.take(base.len() as int) =~= base);
        assert(whole.skip(whole.len() - path.len()) =~= path);
    }
}

/// Where the pieces of a path that ends with a slash and a piece are.
proof fn lemma_path_with_piece(base: Seq<u8>, piece: Seq<u8>)
    requires
        !piece.contains(SEPARATOR),
    ensures
        ({
            let path = base.push(SEPARATOR) + piece;
            &&& after_last_separator(path) == base.len() + 1
            &&& last_piece(path) == piece
            &&& base.len() > 0 ==> path.len() > anchor(path) && anchor(path) == anchor(base)
                && without_last_piece(path) == base
            &&& base.len() == 0 ==> anchor(path) == 1 && without_last_piece(path) == seq![SEPARATOR]
        }),
{
    let path = base.push(SEPARATOR) + piece;
    lemma_after_last_separator(path);
    let at = after_last_separator(path);
    assert(path[base.len() as int] == SEPARATOR);
    assert(at == base.len() + 1) by {
        if at > base.len() + 1 {
            assert(piece[at - 1 - (base.len() + 1)] == path[at - 1]);
            assert(piece.contains(SEPARATOR));
        }
    }
    assert(path.skip(base.len() as int + 1) =~= piece);
    if base.len() > 0 {
        assert(path[0] == base[0]);
        assert(path.len() > 1);
        if base.len() > 1 {
            assert(path[1] == base[1]);
        } else {
            assert(path[1] == SEPARATOR);
        }
        assert(path.take(base.len() as int) =~= base);
    } else {
        assert(path[0] == SEPARATOR);
        assert(path.take(1) =~= seq![SEPARATOR]);
    }
}

/// A name without a separator holds one piece.
proof fn lemma_path_of_one_piece(piece: Seq<u8>)
    requires
        !piece.contains(SEPARATOR),
    ensures
        trimmed(piece) == piece,
        !absolute(piece),
        piece == seq![DOT] ==> anchor(piece) == 1,
        piece != seq![DOT] ==> anchor(piece) == 0,
        piece != seq![DOT] ==> last_piece(piece) == piece,
        piece.len() > 0 && piece != seq![DOT] ==> without_last_piece(piece) == Seq::<u8>::empty(),
{
    lemma_after_last_separator(piece);
    assert(forall|i: int| 0 <= i < piece.len() ==> piece.contains(#[trigger] piece[i]));
    if piece.len() == 1 && piece[0] == DOT {
        assert(piece =~= seq![DOT]);
    }
    if piece != seq![DOT] {
        assert(anchor(piece) == 0);
        assert(after_last_separator(piece) == 0);
        assert(piece.skip(0) =~= piece);
        assert(piece.take(0) =~= Seq::<u8>::empty());
    }
}

/// A trailing slash and a trailing `.` count for nothing, however often they come; what is left of
/// a path of slashes is one slash, and any other path is left as it is.
pub proof fn trailing_slashes_and_dots_are_cut_off(base: Seq<u8>, piece: Seq<u8>)
    requires
        !piece.contains(0x2f),
    ensures
        trimmed(piece) == piece,
        ({
            let path = base.push(0x2f) + piece;
            if piece.len() > 0 && piece != seq![0x2eu8] {
                trimmed(path) == path
            } else if base.len() > 0 {
                trimmed(path) == trimmed(base)
            } else {
                trimmed(path) == seq![0x2fu8]
            }
        }),
{
    lemma_path_of_one_piece(piece);
    lemma_path_with_piece(base, piece);
    let root = seq![SEPARATOR];
    assert(anchor(root) == 1);
    assert(trimmed(root) == root);
    let path = base.push(SEPARATOR) + piece;
    if base.len() == 0 && piece.len() == 0 {
        assert(path =~= root);
    }
}

/// The final component is the last piece of a path: slashes and `.` behind it count for nothing,
/// and neither `..`, nor `.` alone, nor the empty path names an entry.
pub proof fn final_component_is_the_last_piece(base: Seq<u8>, piece: Seq<u8>)
    requires
        !piece.contains(0x2f),
    ensures
        piece.len() == 0 || piece == seq![0x2eu8] || piece == seq![0x2eu8, 0x2eu8]
            ==> final_component(piece) is None,
        !(piece.len() == 0 || piece == seq![0x2eu8] || piece == seq![0x2eu8, 0x2eu8])
            ==> final_component(piece) == Some(piece),
        ({
            let found = final_component(base.push(0x2f) + piece);
            if piece.len() == 0 || piece == seq![0x2eu8] {
                found == final_component(base)
            } else if piece == seq![0x2eu8, 0x2eu8] {
                found is None
            } else {
                found == Some(piece)
            }
        }),
{
    lemma_path_of_one_piece(piece);
    lemma_path_with_piece(base, piece);
    trailing_slashes_and_dots_are_cut_off(base, piece);
    if base.len() == 0 {
        lemma_path_of_one_piece(base);
    }
}

/// The containing directory is what stands before the last piece: slashes and `.` behind that
/// piece count for nothing, a path of one piece lies in the empty path, and the root lies nowhere.
pub proof fn containing_directory_is_what_comes_before(base: Seq<u8>, piece: Seq<u8>)
    requires
        !piece.contains(0x2f),
    ensures
        piece.len() == 0 ==> containing_directory(piece) is None,
        piece.len() > 0 ==> containing_directory(piece) == Some(Seq::<u8>::empty()),
        ({
            let found = containing_directory(base.push(0x2f) + piece);
            if piece.len() == 0 || piece == seq![0x2eu8] {
                found == containing_directory(base)
            } else if base.len() > 0 {
                found == Some(trimmed(base))
            } else {
                found == Some(seq![0x2fu8])
            }
        }),
{
    lemma_path_of_one_piece(piece);
    lemma_path_with_piece(base, piece);
    trailing_slashes_and_dots_are_cut_off(base, piece);
    let root = seq![SEPARATOR];
    assert(anchor(root) == 1);
    assert(trimmed(root) == root);
    assert(root != seq![DOT]) by {
        assert(root[0] != seq![DOT][0]);
    }
    let nothing = Seq::<u8>::empty();
    assert(trimmed(nothing) == nothing);
    assert(nothing != seq![DOT]) by {
        assert(nothing.len() != seq![DOT].len());
    }
    if base.len() == 0 {
        assert(base =~= nothing);
    }
}

/// Of a path that is not empty something is left.
pub proof fn trimmed_paths_are_not_empty(path: Seq<u8>)
    ensures
        trimmed(path).len() == 0 <==> path.len() == 0,
    decreases path.len(),
{
    if path.len() > anchor(path) && redundant(last_piece(path)) {
        lemma_last_piece(path);
        lemma_after_last_separator(path);
        let shorter = without_last_piece(path);
        assert(shorter.len() > 0) by {
            if anchor(path) == 0 {
                let at = last_piece_at(path);
                if at == 0 {
                    assert(last_piece(path) =~= path);
                    if path == seq![DOT] {
                        assert(path[0] == DOT && path.len() == 1);
                    }
                } else if at == 1 {
                    assert(path[0] == SEPARATOR);
                }
            }
        }
        trimmed_paths_are_not_empty(shorter);
    }
}

} // verus!
