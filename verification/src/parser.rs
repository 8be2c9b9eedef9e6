//! Turning raw document content into indexable text.

use vstd::prelude::*;
use crate::text::{chars_of, split_chars, split_on, string_from_chars, trim_chars, trimmed};

verus! {

broadcast use vstd::string::group_string_axioms;

/// Turns raw content into text.
pub trait DocumentParser {
    fn parse(&self, raw_content: &str) -> String;
}

/// Keeps the content as it is.
pub struct PlainTextParser;

/// Keeps the prose of Markdown: one line after another, each trimmed and
/// followed by a space; blank lines and code fences are dropped, and `**`
/// becomes `_`.
pub struct MarkdownParser;

/// `s` with each `**`, from the left, replaced by `_`.
pub open spec fn bold_replaced(s: Seq<char>) -> Seq<char>
    decreases s.len(),
{
    if s.len() == 0 {
        Seq::empty()
    } else if s.len() >= 2 && s[0] == '*' && s[1] == '*' {
        seq!['_'] + bold_replaced(s.skip(2))
    } else {
        seq![s[0]] + bold_replaced(s.skip(1))
    }
}

/// Whether a trimmed line opens or closes a code block.
pub open spec fn is_fence(t: Seq<char>) -> bool {
    t.len() >= 3 && t[0] == '`' && t[1] == '`' && t[2] == '`'
}

/// What one line contributes.
pub open spec fn markdown_line(line: Seq<char>) -> Seq<char> {
    let t = trimmed(line);
    if t.len() == 0 || is_fence(t) {
        Seq::empty()
    } else {
        bold_replaced(t) + seq![' ']
    }
}

/// What a sequence of lines contributes, in order.
pub open spec fn markdown_lines(lines: Seq<Seq<char>>) -> Seq<char>
    decreases lines.len(),
{
    if lines.len() == 0 {
        Seq::empty()
    } else {
        markdown_lines(lines.drop_last()) + markdown_line(lines.last())
    }
}

/// The text of Markdown content.
pub open spec fn markdown_text(raw: Seq<char>) -> Seq<char> {
    markdown_lines(split_on(raw, '\n'))
}

/// Appends `bold_replaced(t)` to `out`.
fn push_bold_replaced(t: &[char], out: &mut Vec<char>)
    ensures
        final(out)@ == old(out)@ + bold_replaced(t@),
{
    let mut i: usize = 0;
    proof {
        assert(t@.skip(0) =~= t@);
        assert(old(out)@ + Seq::<char>::empty() =~= old(out)@);
    }
    while i < t.len()
        invariant
            i <= t@.len(),
            old(out)@ + bold_replaced(t@) == out@ + bold_replaced(t@.skip(i as int)),
        decreases t@.len() - i,
    {
        let ghost rest = t@.skip(i as int);
        if t.len() - i >= 2 && t[i] == '*' && t[i + 1] == '*' {
            proof {
                assert(rest[0] == '*' && rest[1] == '*');
                assert(rest.skip(2) =~= t@.skip(i + 2));
                assert(out@.push('_') + bold_replaced(t@.skip(i + 2)) =~= out@ + (seq!['_'] + bold_replaced(rest.skip(2))));
            }
            out.push('_');
            i = i + 2;
        } else {
            proof {
                assert(rest[0] == t@[i as int]);
                assert(rest.skip(1) =~= t@.skip(i + 1));
                assert(out@.push(t@[i as int]) + bold_replaced(t@.skip(i + 1)) =~= out@ + (seq![rest[0]] + bold_replaced(rest.skip(1))));
            }
            out.push(t[i]);
            i = i + 1;
        }
    }
    proof {
        assert(out@ + bold_replaced(t@.skip(i as int)) =~= out@);
    }
}

impl DocumentParser for PlainTextParser {
    fn parse(&self, raw_content: &str) -> (r: String)
        ensures
            r@ == raw_content@,
    {
        raw_content.to_string()
    }
}

impl DocumentParser for MarkdownParser {
    fn parse(&self, raw_content: &str) -> (r: String)
        ensures
            r@ == markdown_text(raw_content@),
    {
        let chars = chars_of(raw_content);
        let lines = split_chars(chars.as_slice(), '\n');
        let ghost all = split_on(raw_content@, '\n');
        let mut out: Vec<char> = Vec::new();
        let mut i: usize = 0;
        while i < lines.len()
            invariant
                i <= lines@.len(),
                lines@.len() == all.len(),
                forall|k: int| 0 <= k < lines@.len() ==> #[trigger] lines@[k]@ == all[k],
                out@ == markdown_lines(all.take(i as int)),
            decreases lines@.len() - i,
        {
            proof {
                assert(all.take(i + 1).drop_last() =~= all.take(i as int));
                assert(all.take(i + 1).last() == lines@[i as int]@);
            }
            let t = trim_chars(lines[i].as_slice());
            let fence = t.len() >= 3 && t[0] == '`' && t[1] == '`' && t[2] == '`';
            if t.len() > 0 && !fence {
                let ghost before = out@;
                push_bold_replaced(t.as_slice(), &mut out);
                out.push(' ');
                proof {
                    assert(out@ =~= before + (bold_replaced(t@) + seq![' ']));
                }
            } else {
                proof {
                    assert(out@ + Seq::<char>::empty() =~= out@);
                }
            }
            i = i + 1;
        }
        proof {
            assert(all.take(all.len() as int) =~= all);
        }
        string_from_chars(out.as_slice())
    }
}

} // verus!
