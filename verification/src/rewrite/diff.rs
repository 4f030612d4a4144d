//! Unified diffs of a file before and after conversion.

use crate::text::{chars_of, push_str, string_of};
use similar::{ChangeTag, TextDiff};
use vstd::prelude::*;

verus! {

/// What a line of a diff does.
#[derive(Debug, Clone, Copy, PartialEq, Eq)]
pub enum ChangeKind {
    Equal,
    Delete,
    Insert,
}

/// The changes that `similar` finds between two texts, line by line.
pub uninterp spec fn line_diff(old: Seq<char>, new: Seq<char>) -> Seq<(ChangeKind, Seq<char>)>;

/// The texts of the changes on one side, in order: the equal and deleted
/// lines for the old side, the equal and inserted lines for the new.
pub open spec fn side_text(cs: Seq<(ChangeKind, Seq<char>)>, new_side: bool) -> Seq<char>
    decreases cs.len(),
{
    if cs.len() == 0 {
        Seq::empty()
    } else {
        let c = cs.last();
        side_text(cs.drop_last(), new_side) + if c.0 is Equal || (new_side && c.0 is Insert) || (!new_side && c.0 is Delete) {
            c.1
        } else {
            Seq::empty()
        }
    }
}

/// A text with a line end after its last line: as it is when it is empty
/// or ends with `\n` or `\r` (both end lines for `similar`), else with
/// `\n` after it.
pub open spec fn line_closed(t: Seq<char>) -> Seq<char> {
    if t.len() == 0 || t.last() == '\n' || t.last() == '\r' {
        t
    } else {
        t.push('\n')
    }
}

/// `similar::TextDiff::from_lines` on the two texts, with every change of
/// every operation in order: its tag, and its text as `Change`'s `Display`
/// writes it (the line, with `\n` after it when it ends in neither `\n`
/// nor `\r`). Lines end after `\n`, `\r` or `\r\n`, so only the last
/// line of a text can lack an end. The result is named `line_diff`. The
/// operations cover both texts in order and equal lines compare exactly
/// (the default whitespace mode), so the equal and deleted lines rebuild
/// the old text and the equal and inserted lines the new one, each closed
/// by a line end (`line_closed`). With the default
/// configuration there is no deadline, so the same texts give the same
/// changes.
#[verifier::external_body]
fn line_changes(old: &str, new: &str) -> (r: Vec<(ChangeKind, String)>)
    ensures
        r@.map_values(|c: (ChangeKind, String)| (c.0, c.1@)) == line_diff(old@, new@),
        side_text(r@.map_values(|c: (ChangeKind, String)| (c.0, c.1@)), false) == line_closed(old@),
        side_text(r@.map_values(|c: (ChangeKind, String)| (c.0, c.1@)), true) == line_closed(new@),
{
    let diff = TextDiff::from_lines(old, new);
    let mut out = Vec::new();
    for op in diff.ops() {
        for change in diff.iter_changes(op) {
            let kind = match change.tag() {
                ChangeTag::Equal => ChangeKind::Equal,
                ChangeTag::Delete => ChangeKind::Delete,
                ChangeTag::Insert => ChangeKind::Insert,
            };
            out.push((kind, change.to_string()));
        }
    }
    out
}

/// The mark of a line of a unified diff.
pub open spec fn change_sign(k: ChangeKind) -> char {
    match k {
        ChangeKind::Equal => ' ',
        ChangeKind::Delete => '-',
        ChangeKind::Insert => '+',
    }
}

/// The changes, each written as its mark and its text.
pub open spec fn changes_text(cs: Seq<(ChangeKind, Seq<char>)>) -> Seq<char>
    decreases cs.len(),
{
    if cs.len() == 0 {
        Seq::empty()
    } else {
        changes_text(cs.drop_last()) + seq![change_sign(cs.last().0)] + cs.last().1
    }
}

/// A unified diff: the header `--- name` and `+++ name`, then the changes.
pub open spec fn unified_diff_text(cs: Seq<(ChangeKind, Seq<char>)>, name: Seq<char>) -> Seq<char> {
    "--- "@ + name + "\n+++ "@ + name + "\n"@ + changes_text(cs)
}

/// Writes the changes as a unified diff of the file `file_name`, as
/// `unified_diff_text` says.
pub fn format_unified_diff(changes: &[(ChangeKind, String)], file_name: &str) -> (r: String)
    ensures
        r@ == unified_diff_text(changes@.map_values(|c: (ChangeKind, String)| (c.0, c.1@)), file_name@),
{
    let ghost cs = changes@.map_values(|c: (ChangeKind, String)| (c.0, c.1@));
    let mut out = chars_of("--- ");
    push_str(&mut out, file_name);
    push_str(&mut out, "\n+++ ");
    push_str(&mut out, file_name);
    push_str(&mut out, "\n");
    let ghost head = out@;
    assert(cs.subrange(0, 0) =~= Seq::<(ChangeKind, Seq<char>)>::empty());
    for i in 0..changes.len()
        invariant
            cs == changes@.map_values(|c: (ChangeKind, String)| (c.0, c.1@)),
            out@ == head + changes_text(cs.subrange(0, i as int)),
    {
        proof {
            assert(cs.subrange(0, i + 1).drop_last() =~= cs.subrange(0, i as int));
            assert(cs.subrange(0, i + 1).last() == cs[i as int]);
        }
        let sign = match changes[i].0 {
            ChangeKind::Equal => ' ',
            ChangeKind::Delete => '-',
            ChangeKind::Insert => '+',
        };
        out.push(sign);
        push_str(&mut out, changes[i].1.as_str());
        assert(out@ =~= head + changes_text(cs.subrange(0, i + 1)));
    }
    assert(cs.subrange(0, changes@.len() as int) =~= cs);
    proof {
        reveal_strlit("--- ");
        reveal_strlit("\n+++ ");
        reveal_strlit("\n");
        assert(head =~= "--- "@ + file_name@ + "\n+++ "@ + file_name@ + "\n"@);
    }
    string_of(out.as_slice())
}

/// A unified diff of the file `file_name` from `old` to `new`: the changes
/// that `similar` finds line by line (`line_diff`), written as
/// `unified_diff_text` says. The lines marked ` ` or `-` rebuild the old
/// text and those marked ` ` or `+` the new one, each closed by a line end
/// (`side_text`, `line_closed`).
pub fn generate_unified_diff(old: &str, new: &str, file_name: &str) -> (r: String)
    ensures
        r@ == unified_diff_text(line_diff(old@, new@), file_name@),
        side_text(line_diff(old@, new@), false) == line_closed(old@),
        side_text(line_diff(old@, new@), true) == line_closed(new@),
        (old@.len() == 0 || old@.last() == '\n' || old@.last() == '\r') ==> side_text(line_diff(old@, new@), false) == old@,
        (new@.len() == 0 || new@.last() == '\n' || new@.last() == '\r') ==> side_text(line_diff(old@, new@), true) == new@,
{
    let changes = line_changes(old, new);
    format_unified_diff(changes.as_slice(), file_name)
}

/// The unified diff, in hunks, that `similar` writes for two texts.
pub uninterp spec fn unified_hunks(old: Seq<char>, new: Seq<char>, radius: usize, name: Seq<char>) -> Seq<char>;

/// `similar`'s unified diff of the two texts line by line:
/// `TextDiff::from_lines`, then `unified_diff` with the context radius and
/// `name` as the header of both sides, written as text. The result is named
/// `unified_hunks`; nothing more of it is stated.
#[verifier::external_body]
fn similar_unified_diff(old: &str, new: &str, radius: usize, name: &str) -> (r: String)
    ensures
        r@ == unified_hunks(old@, new@, radius, name@),
{
    TextDiff::from_lines(old, new).unified_diff().context_radius(radius).header(name, name).to_string()
}

/// A unified diff of the file `file_name` from `old` to `new` in hunks with
/// three lines of context, as `similar` writes it.
pub fn generate_diff(old: &str, new: &str, file_name: &str) -> (r: String)
    ensures
        r@ == unified_hunks(old@, new@, 3, file_name@),
{
    similar_unified_diff(old, new, 3, file_name)
}

} // verus!
