//! Finding plugins: which files are plugins, and their names.
use vstd::prelude::*;

use crate::text::{chars_of, find_from, position_from, str_eq};

verus! {

/// The name of the plugin in the file `file_name`: the text before the
/// first `.`, when the text after it is `wasm`.
pub open spec fn plugin_name(file_name: Seq<char>) -> Option<Seq<char>> {
    match find_from(file_name, '.', 0) {
        Some(i) => if file_name.skip(i + 1) == "wasm"@ {
            Some(file_name.take(i))
        } else {
            None
        },
        None => None,
    }
}

/// The name of the plugin in the file `file_name`, if the file is one.
pub fn plugin_name_of(file_name: &str) -> (res: Option<String>)
    ensures
        match res {
            Some(n) => plugin_name(file_name@) == Some(n@),
            None => plugin_name(file_name@) is None,
        },
{
    let chars = chars_of(file_name);
    match position_from(&chars, '.', 0) {
        Some(i) => {
            assert(i < chars.len());
            let ending = file_name.substring_char(i + 1, chars.len());
            if str_eq(ending, "wasm") {
                Some(file_name.substring_char(0, i).to_owned())
            } else {
                None
            }
        },
        None => None,
    }
}

/// Loads the plugins from a file or folder.
pub struct Loader {
    path: String,
}

impl Loader {
    /// The file or folder to load from.
    pub closed spec fn spec_path(&self) -> Seq<char> {
        self.path@
    }

    /// Creates a loader for the given file or folder.
    pub fn new(path: String) -> (res: Self)
        ensures
            res.spec_path() == path@,
    {
        Self { path }
    }

    /// The file or folder to load from.
    pub fn path(&self) -> (res: &str)
        ensures
            res@ == self.spec_path(),
    {
        self.path.as_str()
    }
}

} // verus!
