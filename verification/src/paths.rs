//! The parts of a path that the library reads: its extension, its final
//! component and its parent, as `std::path::Path` splits them, and ASCII
//! case folding.

use vstd::prelude::*;
use std::path::Path;

verus! {

/// What `Path::extension` gives for a path, as text.
pub uninterp spec fn path_extension(path: Seq<char>) -> Option<Seq<char>>;

/// What `Path::file_name` gives for a path, as text.
pub uninterp spec fn path_file_name(path: Seq<char>) -> Option<Seq<char>>;

/// What `Path::parent` gives for a path, as text.
pub uninterp spec fn path_parent(path: Seq<char>) -> Option<Seq<char>>;

/// `Path::extension`: the part of the final component after its last dot.
/// The contract claims only that the answer is a fixed function of the path.
#[verifier::external_body]
pub(crate) fn extension_of(path: &str) -> (r: Option<String>)
    ensures
        match r {
            Some(e) => path_extension(path@) == Some(e@),
            None => path_extension(path@) is None,
        },
{
    Path::new(path).extension().and_then(|e| e.to_str()).map(|e| e.to_string())
}

/// `Path::file_name`: the final component of a path, unless it is `..`.
/// The contract claims only that the answer is a fixed function of the path.
#[verifier::external_body]
pub(crate) fn file_name_of(path: &str) -> (r: Option<String>)
    ensures
        match r {
            Some(e) => path_file_name(path@) == Some(e@),
            None => path_file_name(path@) is None,
        },
{
    Path::new(path).file_name().and_then(|e| e.to_str()).map(|e| e.to_string())
}

/// `Path::parent`: the path without its final component. The contract
/// claims only that the answer is a fixed function of the path.
#[verifier::external_body]
pub(crate) fn parent_of(path: &str) -> (r: Option<String>)
    ensures
        match r {
            Some(e) => path_parent(path@) == Some(e@),
            None => path_parent(path@) is None,
        },
{
    Path::new(path).parent().map(|p| p.to_string_lossy().into_owned())
}

/// `c` with ASCII upper case letters mapped to lower case.
pub open spec fn ascii_lower_char(c: char) -> char {
    if 'A' <= c <= 'Z' {
        ((c as u32) + 32) as char
    } else {
        c
    }
}

/// `s` with ASCII upper case letters mapped to lower case, as
/// `str::to_ascii_lowercase` gives it.
pub open spec fn ascii_lower(s: Seq<char>) -> Seq<char> {
    s.map_values(|c: char| ascii_lower_char(c))
}

/// Maps the ASCII upper case letters of `s` to lower case.
pub fn to_ascii_lower(s: &str) -> (r: String)
    ensures
        r@ == ascii_lower(s@),
{
    let chars = crate::text::chars_of(s);
    let mut out: Vec<char> = Vec::new();
    let mut i: usize = 0;
    while i < chars.len()
        invariant
            i <= chars@.len(),
            chars@ == s@,
            out@ == ascii_lower(s@.take(i as int)),
        decreases chars@.len() - i,
    {
        let c = chars[i];
        let lower = if 'A' <= c && c <= 'Z' {
            let code: u32 = (c as u32) + 32;
            proof {
                assert(0x61 <= code <= 0x7a);
            }
            char_from_ascii(code)
        } else {
            c
        };
        out.push(lower);
        proof {
            assert(ascii_lower(s@.take(i + 1)) =~= ascii_lower(s@.take(i as int)).push(ascii_lower_char(c)));
        }
        i = i + 1;
    }
    proof {
        assert(s@.take(s@.len() as int) =~= s@);
    }
    crate::text::string_from_chars(out.as_slice())
}

/// The character with an ASCII lower case letter's code.
fn char_from_ascii(code: u32) -> (c: char)
    requires
        0x61 <= code <= 0x7a,
    ensures
        c == code as char,
{
    let b: u8 = code as u8;
    b as char
}

} // verus!
