//! Checks made by the editor's dialogs.

use vstd::prelude::*;
use crate::text::{chars_of, is_whitespace, spec_is_whitespace, spec_to_uppercase, str_eq, to_uppercase, trim, trim_exec};

verus! {

broadcast use vstd::string::group_string_axioms;

/// The characters a file name may not hold.
pub open spec fn invalid_filename_char(c: char) -> bool {
    c == '/' || c == '\\' || c == ':' || c == '*' || c == '?' || c == '"' || c == '<' || c == '>' || c == '|'
}

/// The device names that Windows reserves.
pub open spec fn reserved_names() -> Seq<Seq<char>> {
    seq![
        "CON"@, "PRN"@, "AUX"@, "NUL"@, "COM1"@, "COM2"@, "COM3"@, "COM4"@, "COM5"@, "COM6"@,
        "COM7"@, "COM8"@, "COM9"@, "LPT1"@, "LPT2"@, "LPT3"@, "LPT4"@, "LPT5"@, "LPT6"@, "LPT7"@,
        "LPT8"@, "LPT9"@,
    ]
}

/// A file name is valid when it is not blank, holds none of the invalid
/// characters, and is not, in upper case, a reserved device name.
pub open spec fn valid_filename(name: Seq<char>) -> bool {
    &&& exists|i: int| 0 <= i < name.len() && !spec_is_whitespace(#[trigger] name[i])
    &&& forall|i: int| 0 <= i < name.len() ==> !invalid_filename_char(#[trigger] name[i])
    &&& !reserved_names().contains(spec_to_uppercase(name))
}

fn reserved_name_list() -> (r: Vec<&'static str>)
    ensures
        r@.len() == reserved_names().len(),
        forall|i: int| 0 <= i < r@.len() ==> #[trigger] r@[i]@ == reserved_names()[i],
{
    vec![
        "CON", "PRN", "AUX", "NUL", "COM1", "COM2", "COM3", "COM4", "COM5", "COM6", "COM7", "COM8",
        "COM9", "LPT1", "LPT2", "LPT3", "LPT4", "LPT5", "LPT6", "LPT7", "LPT8", "LPT9",
    ]
}

/// Whether `name` can be used as a file name.
pub fn validate_filename(name: &str) -> (r: bool)
    ensures
        r == valid_filename(name@),
{
    let cs = chars_of(name);
    let mut i: usize = 0;
    let mut blank = true;
    while i < cs.len()
        invariant
            i <= cs@.len(),
            cs@ == name@,
            blank == forall|j: int| 0 <= j < i ==> spec_is_whitespace(#[trigger] cs@[j]),
        decreases cs@.len() - i,
    {
        if !is_whitespace(cs[i]) {
            blank = false;
        }
        i += 1;
    }
    if blank {
        assert forall|j: int| 0 <= j < name@.len() implies spec_is_whitespace(#[trigger] name@[j]) by {}
        return false;
    }
    let mut k: usize = 0;
    while k < cs.len()
        invariant
            k <= cs@.len(),
            cs@ == name@,
            forall|j: int| 0 <= j < k ==> !invalid_filename_char(#[trigger] cs@[j]),
        decreases cs@.len() - k,
    {
        let c = cs[k];
        if c == '/' || c == '\\' || c == ':' || c == '*' || c == '?' || c == '"' || c == '<' || c == '>' || c == '|' {
            assert(invalid_filename_char(name@[k as int]));
            return false;
        }
        k += 1;
    }
    let upper = to_uppercase(name);
    let reserved = reserved_name_list();
    let mut m: usize = 0;
    while m < reserved.len()
        invariant
            m <= reserved@.len(),
            reserved@.len() == reserved_names().len(),
            forall|i: int| 0 <= i < reserved@.len() ==> #[trigger] reserved@[i]@ == reserved_names()[i],
            upper@ == spec_to_uppercase(name@),
            forall|j: int| 0 <= j < m ==> reserved_names()[j] != upper@,
        decreases reserved@.len() - m,
    {
        if str_eq(upper.as_str(), reserved[m]) {
            assert(reserved_names()[m as int] == upper@);
            return false;
        }
        m += 1;
    }
    assert(!reserved_names().contains(spec_to_uppercase(name@))) by {
        if reserved_names().contains(spec_to_uppercase(name@)) {
            let j = choose|j: int| 0 <= j < reserved_names().len() && reserved_names()[j] == spec_to_uppercase(name@);
            assert(reserved_names()[j] != upper@);
        }
    }
    true
}

/// The title of the new-entry dialog.
pub fn create_dialog_title(is_folder: bool) -> (r: &'static str)
    ensures
        is_folder ==> r@ == "New Folder"@,
        !is_folder ==> r@ == "New File"@,
{
    if is_folder {
        "New Folder"
    } else {
        "New File"
    }
}

/// The placeholder of the new-entry dialog's input.
pub fn create_dialog_placeholder(is_folder: bool) -> (r: &'static str)
    ensures
        is_folder ==> r@ == "Folder name"@,
        !is_folder ==> r@ == "File name"@,
{
    if is_folder {
        "Folder name"
    } else {
        "File name"
    }
}

/// Whether the new-entry dialog accepts `name`; the error it shows when
/// not.
pub fn submit_filename(name: &str) -> (r: Result<(), String>)
    ensures
        valid_filename(name@) <==> r is Ok,
        r matches Err(e) ==> e@ == "Invalid filename"@,
{
    if validate_filename(name) {
        Ok(())
    } else {
        Err("Invalid filename".to_string())
    }
}

/// Whether the input dialog accepts `value`: anything but blank text.
pub fn input_accepted(value: &str) -> (r: bool)
    ensures
        r == (trim(value@).len() > 0),
{
    let cs = chars_of(value);
    let t = trim_exec(cs.as_slice());
    t.len() > 0
}

} // verus!
