//! Text that arrives by drag and drop: the list of dropped paths, which of the
//! files are read, and how their contents become one source text.

use crate::views::{empty_deep, push_deep};
use vstd::prelude::*;
use vstd::string::StringExecFns;

verus! {

/// A dropped file is read only if it has at most this many bytes (10 MiB).
pub const MAX_FILE_LEN: u64 = 10_485_760;

/// The pieces between the line feeds of `s`. A text without line feed is one
/// piece; a line feed at either end leaves an empty piece there.
pub open spec fn split_lines(s: Seq<char>) -> Seq<Seq<char>>
    decreases s.len(),
{
    if s.len() == 0 {
        seq![Seq::empty()]
    } else {
        let earlier = split_lines(s.drop_last());
        if s.last() == '\n' {
            earlier.push(Seq::empty())
        } else {
            earlier.drop_last().push(earlier.last().push(s.last()))
        }
    }
}

/// The parts in order with `separator` between each two.
pub open spec fn joined(parts: Seq<Seq<char>>, separator: Seq<char>) -> Seq<char>
    decreases parts.len(),
{
    if parts.len() == 0 {
        Seq::empty()
    } else if parts.len() == 1 {
        parts[0]
    } else {
        joined(parts.drop_last(), separator) + separator + parts.last()
    }
}

/// What separates the contents of two dropped files in the source text.
pub open spec fn file_separator() -> Seq<char> {
    seq!['\n', '\n', '\n']
}

/// Whether a dropped path is read: a regular file that is not over the size
/// limit.
pub open spec fn is_readable(is_file: bool, len: u64) -> bool {
    is_file && len <= MAX_FILE_LEN
}

/// Splitting gives at least one piece, no piece holds a line feed, and the
/// pieces with a line feed between each two are the text again.
pub proof fn lemma_split_lines(s: Seq<char>)
    ensures
        split_lines(s).len() >= 1,
        forall|i: int, k: int|
            0 <= i < split_lines(s).len() && 0 <= k < split_lines(s)[i].len() ==> (
            #[trigger] split_lines(s)[i][k]) != '\n',
        joined(split_lines(s), seq!['\n']) == s,
    decreases s.len(),
{
    let pieces = split_lines(s);
    let feed = seq!['\n'];
    if s.len() == 0 {
        assert(joined(pieces, feed) =~= s);
    } else {
        let earlier = split_lines(s.drop_last());
        lemma_split_lines(s.drop_last());
        if s.last() == '\n' {
            assert(pieces.drop_last() =~= earlier);
            assert(joined(pieces, feed) =~= s.drop_last() + feed + Seq::<char>::empty());
            assert(joined(pieces, feed) =~= s);
            assert forall|i: int, k: int|
                0 <= i < pieces.len() && 0 <= k < pieces[i].len() implies (#[trigger] pieces[i][k])
                != '\n' by {
                assert(pieces[i] == earlier[i]);
            }
        } else {
            let grown = earlier.last().push(s.last());
            assert(pieces.last() == grown);
            assert forall|i: int, k: int|
                0 <= i < pieces.len() && 0 <= k < pieces[i].len() implies (#[trigger] pieces[i][k])
                != '\n' by {
                if i < pieces.len() - 1 {
                    assert(pieces[i] == earlier[i]);
                } else if k < earlier.last().len() {
                    assert(pieces[i][k] == earlier[earlier.len() - 1][k]);
                }
            }
            if earlier.len() == 1 {
                assert(joined(earlier, feed) == earlier[0]);
                assert(joined(pieces, feed) =~= s);
            } else {
                assert(pieces.drop_last() =~= earlier.drop_last());
                assert(joined(earlier, feed) == joined(earlier.drop_last(), feed) + feed
                    + earlier.last());
                assert(joined(pieces, feed) =~= joined(earlier, feed).push(s.last()));
                assert(joined(pieces, feed) =~= s);
            }
        }
    }
}

/// `String::push`: appends one character.
#[verifier::external_body]
fn push_char(text: &mut String, c: char)
    ensures
        final(text)@ == old(text)@.push(c),
{
    text.push(c);
}

/// The paths of a drop event: the pieces between the line feeds of its text.
pub fn dropped_paths(text: &str) -> (paths: Vec<String>)
    ensures
        paths.deep_view() == split_lines(text@),
{
    let ghost s = text@;
    let mut paths: Vec<String> = empty_deep();
    let mut piece: String = String::new();
    proof {
        assert(s.take(0) =~= Seq::empty());
        assert(split_lines(s.take(0)) =~= paths.deep_view().push(piece@));
    }
    for c in chars: text.chars()
        invariant
            chars.seq() == s,
            split_lines(s.take(chars.index() as int)) == paths.deep_view().push(piece@),
    {
        let ghost i = chars.index() as int;
        let ghost before = paths.deep_view();
        let ghost held = piece@;
        proof {
            assert(s.take(i + 1).drop_last() =~= s.take(i));
            assert(s.take(i + 1).last() == c);
            assert(before.push(held).drop_last() =~= before);
            assert(before.push(held).last() == held);
        }
        if c == '\n' {
            push_deep(&mut paths, piece);
            piece = String::new();
        } else {
            push_char(&mut piece, c);
        }
    }
    proof {
        assert(s.take(s.len() as int) =~= s);
    }
    push_deep(&mut paths, piece);
    paths
}

/// Whether a dropped path is read: a regular file of at most `MAX_FILE_LEN`
/// bytes. A longer file is left out whole, never cut.
pub fn accepts_file(is_file: bool, len: u64) -> (accepted: bool)
    ensures
        accepted == is_readable(is_file, len),
{
    is_file && len <= MAX_FILE_LEN
}

/// The source text of a drop: the contents of the files that were read, in
/// order, with three line feeds between each two.
pub fn join_contents(contents: &Vec<String>) -> (text: String)
    ensures
        text@ == joined(contents.deep_view(), file_separator()),
{
    let mut text: String = String::new();
    let mut i: usize = 0;
    proof {
        reveal_strlit("\n\n\n");
        assert("\n\n\n"@ =~= file_separator());
        assert(contents.deep_view().take(0) =~= Seq::empty());
    }
    while i < contents.len()
        invariant
            i <= contents.len(),
            "\n\n\n"@ == file_separator(),
            text@ == joined(contents.deep_view().take(i as int), file_separator()),
        decreases contents.len() - i,
    {
        proof {
            let all = contents.deep_view();
            assert(all.take(i + 1).drop_last() =~= all.take(i as int));
            assert(all.take(i + 1).last() == contents[i as int]@);
            if i == 0 {
                assert(all.take(1)[0] == contents[0]@);
            }
        }
        if i > 0 {
            text.append("\n\n\n");
        }
        text.append(contents[i].as_str());
        proof {
            assert(text@ =~= joined(contents.deep_view().take(i + 1), file_separator()));
        }
        i += 1;
    }
    proof {
        assert(contents.deep_view().take(i as int) =~= contents.deep_view());
    }
    text
}

} // verus!
