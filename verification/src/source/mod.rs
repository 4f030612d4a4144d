//! Source files and the places where they use CSS classes.

pub mod attrs;
pub mod class_usage;
pub mod fragment_parser;
pub mod generic;
pub mod html;
pub mod jsx;

use crate::error::Css2TwError;
use crate::source::class_usage::ClassUsage;
use crate::text::chars_of;
use vstd::prelude::*;
use vstd::utf8::{encode_scalar, encode_utf8};

verus! {

/// A source file (e.g. `.html`, `.jsx`) to be processed.
pub struct SourceFile {
    /// Path to the file, relative or absolute.
    pub path: String,
    /// Full text content of the file.
    pub content: String,
}

/// The number of bytes of the UTF-8 encoding of `c`.
pub open spec fn char_width(c: char) -> nat {
    if (c as u32) < 0x80 {
        1
    } else if (c as u32) < 0x800 {
        2
    } else if (c as u32) < 0x10000 {
        3
    } else {
        4
    }
}

/// The number of bytes of the UTF-8 encoding of `t`.
pub open spec fn utf8_len(t: Seq<char>) -> nat {
    encode_utf8(t).len()
}

/// The byte offset of each character boundary of `s`: `offsets[k]` is the
/// length in bytes of the first `k` characters.
pub open spec fn is_offsets(s: Seq<char>, offsets: Seq<usize>) -> bool {
    &&& offsets.len() == s.len() + 1
    &&& forall|k: int| 0 <= k <= s.len() ==> #[trigger] offsets[k] == utf8_len(s.subrange(0, k))
}

pub proof fn lemma_encode_concat(a: Seq<char>, b: Seq<char>)
    ensures
        encode_utf8(a + b) == encode_utf8(a) + encode_utf8(b),
    decreases a.len(),
{
    if a.len() == 0 {
        assert(a + b =~= b);
        assert(encode_utf8(a) + encode_utf8(b) =~= encode_utf8(b));
    } else {
        assert((a + b).drop_first() =~= a.drop_first() + b);
        lemma_encode_concat(a.drop_first(), b);
        assert(encode_utf8(a + b) =~= encode_scalar(a[0] as u32) + encode_utf8(a.drop_first() + b));
    }
}

pub proof fn lemma_char_width(c: char)
    ensures
        encode_utf8(seq![c]).len() == char_width(c),
{
    vstd::utf8::char_is_scalar(c);
    assert(seq![c].drop_first() =~= Seq::<char>::empty());
    assert(encode_utf8(seq![c]) =~= encode_scalar(c as u32) + encode_utf8(Seq::<char>::empty()));
}

fn char_width_exec(c: char) -> (r: usize)
    ensures
        r == char_width(c),
{
    let u = c as u32;
    if u < 0x80 {
        1
    } else if u < 0x800 {
        2
    } else if u < 0x10000 {
        3
    } else {
        4
    }
}

/// The byte offsets of the character boundaries of `text` (see `is_offsets`).
pub fn byte_offsets(text: &str) -> (r: Vec<usize>)
    ensures
        is_offsets(text@, r@),
{
    let s = chars_of(text);
    let bytes = text.as_bytes();
    let mut r: Vec<usize> = Vec::new();
    let mut acc: usize = 0;
    r.push(0);
    proof {
        assert(text@.subrange(0, 0) =~= Seq::<char>::empty());
        lemma_encode_concat(text@, Seq::<char>::empty());
    }
    for k in 0..s.len()
        invariant
            s@ == text@,
            bytes@ == encode_utf8(text@),
            r@.len() == k + 1,
            acc == r@[k as int],
            forall|t: int| 0 <= t <= k ==> #[trigger] r@[t] == utf8_len(text@.subrange(0, t)),
    {
        proof {
            assert(text@.subrange(0, k + 1) =~= text@.subrange(0, k as int) + seq![text@[k as int]]);
            lemma_encode_concat(text@.subrange(0, k as int), seq![text@[k as int]]);
            lemma_char_width(text@[k as int]);
            assert(text@ =~= text@.subrange(0, k + 1) + text@.subrange(k + 1, text@.len() as int));
            lemma_encode_concat(text@.subrange(0, k + 1), text@.subrange(k + 1, text@.len() as int));
        }
        let w = char_width_exec(s[k]);
        assert(acc + w == utf8_len(text@.subrange(0, k + 1)));
        assert(utf8_len(text@.subrange(0, k + 1)) <= bytes@.len());
        assert(bytes@.len() == bytes.len());
        acc = acc + w;
        r.push(acc);
    }
    r
}

/// The number of characters of `s` that begin before the byte `offset`.
pub open spec fn chars_before(s: Seq<char>, offset: int, k: int) -> int
    decreases s.len() - k,
{
    if k < 0 || k >= s.len() || utf8_len(s.subrange(0, k)) >= offset {
        k
    } else {
        chars_before(s, offset, k + 1)
    }
}

/// The 1-based line and column after reading `t`: a newline starts a new
/// line at column 1, any other character moves one column on.
pub open spec fn lines_cols(t: Seq<char>) -> (nat, nat)
    decreases t.len(),
{
    if t.len() == 0 {
        (1, 1)
    } else {
        let (l, c) = lines_cols(t.drop_last());
        if t.last() == '\n' {
            (l + 1, 1)
        } else {
            (l, c + 1)
        }
    }
}

proof fn lemma_lines_cols_bound(t: Seq<char>)
    ensures
        lines_cols(t).0 <= t.len() + 1,
        lines_cols(t).1 <= t.len() + 1,
    decreases t.len(),
{
    if t.len() > 0 {
        lemma_lines_cols_bound(t.drop_last());
    }
}

impl SourceFile {
    /// The 1-based (line, column) of the byte `offset`: of the position
    /// after the characters that begin before it.
    pub fn line_col(&self, offset: usize) -> (r: (usize, usize))
        requires
            self.content@.len() < usize::MAX,
        ensures
            (r.0 as nat, r.1 as nat) == lines_cols(self.content@.subrange(0, chars_before(self.content@, offset as int, 0))),
    {
        let s = chars_of(&self.content);
        let offsets = byte_offsets(&self.content);
        let mut line: usize = 1;
        let mut col: usize = 1;
        let mut k: usize = 0;
        assert(self.content@.subrange(0, 0) =~= Seq::<char>::empty());
        while k < s.len() && offsets[k] < offset
            invariant
                s@ == self.content@,
                self.content@.len() < usize::MAX,
                is_offsets(self.content@, offsets@),
                k <= s@.len(),
                chars_before(self.content@, offset as int, 0) == chars_before(self.content@, offset as int, k as int),
                (line as nat, col as nat) == lines_cols(self.content@.subrange(0, k as int)),
            decreases s.len() - k,
        {
            proof {
                assert(self.content@.subrange(0, k + 1).drop_last() =~= self.content@.subrange(0, k as int));
                lemma_lines_cols_bound(self.content@.subrange(0, k as int));
            }
            if s[k] == '\n' {
                line = line + 1;
                col = 1;
            } else {
                col = col + 1;
            }
            k = k + 1;
        }
        (line, col)
    }
}

/// Finds where a source file uses CSS classes.
pub trait ClassUsageParser {
    /// Extracts all class names and their spans from the given source file.
    fn extract_classes(&self, source: &SourceFile) -> Result<Vec<ClassUsage>, Css2TwError>;
}

} // verus!
