//! Where the data are kept.

use vstd::prelude::*;

use crate::text::{trim, trimmed};

verus! {

/// What the path of the data directory goes from.
#[derive(Clone, Copy, Debug, PartialEq, Eq, Structural)]
pub enum DirBase {
    /// The path that the user gives.
    Given,
    /// The directory for data of this machine.
    Local,
    /// The directory for data of the user.
    Data,
    /// The directory that the program is started in.
    Here,
}

/// The data directory.
#[derive(Debug)]
pub struct DirChoice {
    pub base: DirBase,
    pub path: String,
}

/// The data directory: the path that the user gives, unless it is blank, without the white space
/// at its two ends; else one in the first of the directories for data that there is; else one in the
/// directory that the program is started in.
pub open spec fn chosen_dir(given: Option<Seq<char>>, has_local: bool, has_data: bool) -> (
    DirBase,
    Seq<char>,
) {
    if given matches Some(path) && trimmed(path).len() > 0 {
        (DirBase::Given, trimmed(given.unwrap()))
    } else if has_local {
        (DirBase::Local, "life-tracking"@)
    } else if has_data {
        (DirBase::Data, "life-tracking"@)
    } else {
        (DirBase::Here, ".life-tracking"@)
    }
}

/// Chooses the data directory by the path that the user gives, and by whether there are a directory
/// for data of this machine and one for data of the user.
pub fn data_dir_choice(given: Option<String>, has_local: bool, has_data: bool) -> (res: DirChoice)
    ensures
        (res.base, res.path@) == chosen_dir(
            match given {
                Some(path) => Some(path@),
                None => None,
            },
            has_local,
            has_data,
        ),
{
    if let Some(path) = given {
        let path = trim(path.as_str());
        if !path.as_str().is_empty() {
            return DirChoice { base: DirBase::Given, path };
        }
    }
    if has_local {
        DirChoice { base: DirBase::Local, path: "life-tracking".to_string() }
    } else if has_data {
        DirChoice { base: DirBase::Data, path: "life-tracking".to_string() }
    } else {
        DirChoice { base: DirBase::Here, path: ".life-tracking".to_string() }
    }
}

} // verus!
