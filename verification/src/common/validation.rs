//! Validation of user input: file paths, identifiers and positions.

use vstd::prelude::*;
use crate::text::{is_alphabetic, is_alphanumeric, spec_is_alphabetic, spec_is_alphanumeric};

verus! {

broadcast use vstd::string::group_string_axioms;

/// A path is valid when it is not empty and holds no NUL character.
pub open spec fn valid_file_path(path: Seq<char>) -> bool {
    path.len() > 0 && !path.contains('\0')
}

/// Whether a character may follow the first one of an identifier.
pub open spec fn identifier_char(c: char) -> bool {
    spec_is_alphanumeric(c) || c == '_'
}

/// An identifier starts with a letter or `_`, and goes on with letters,
/// digits and `_`.
pub open spec fn valid_identifier(name: Seq<char>) -> bool {
    &&& name.len() > 0
    &&& (spec_is_alphabetic(name[0]) || name[0] == '_')
    &&& forall|i: int| 1 <= i < name.len() ==> #[trigger] identifier_char(name[i])
}

/// Whether `path` is a usable file path.
pub fn is_valid_file_path(path: &str) -> (r: bool)
    ensures
        r == valid_file_path(path@),
{
    let cs = crate::text::chars_of(path);
    if cs.len() == 0 {
        return false;
    }
    let mut i: usize = 0;
    while i < cs.len()
        invariant
            i <= cs@.len(),
            cs@ == path@,
            forall|j: int| 0 <= j < i ==> cs@[j] != '\0',
        decreases cs@.len() - i,
    {
        if cs[i] == '\0' {
            assert(path@[i as int] == '\0');
            return false;
        }
        i += 1;
    }
    true
}

/// Whether `name` is a valid identifier.
pub fn is_valid_identifier(name: &str) -> (r: bool)
    ensures
        r == valid_identifier(name@),
{
    let cs = crate::text::chars_of(name);
    if cs.len() == 0 {
        return false;
    }
    let first = cs[0];
    if !is_alphabetic(first) && first != '_' {
        return false;
    }
    let mut i: usize = 1;
    while i < cs.len()
        invariant
            1 <= i <= cs@.len(),
            cs@ == name@,
            forall|j: int| 1 <= j < i ==> #[trigger] identifier_char(cs@[j]),
        decreases cs@.len() - i,
    {
        let c = cs[i];
        if !(is_alphanumeric(c) || c == '_') {
            assert(!identifier_char(name@[i as int]));
            return false;
        }
        i += 1;
    }
    true
}

/// Whether a line and column, both counted from 1, are valid.
pub fn is_valid_position(line: u32, column: u32) -> (r: bool)
    ensures
        r == (line > 0 && column > 0),
{
    line > 0 && column > 0
}

} // verus!
