//! Creating a new project: the configuration file's text, and the errors
//! project creation can meet.

use vstd::prelude::*;

use crate::text::chars_vec;
use crate::text::push_str_chars;
use crate::text::string_from_chars;

verus! {

/// An error that occurred during the creation of a Hyde project; there is
/// not much that can go wrong other than I/O errors, so this just serves
/// as a classification for them.
#[derive(Clone, Debug)]
pub enum CreateError {
    /// Failed to create project directory
    ProjectDir { source: String },
    /// Failed to open config file
    OpenConfig { source: String },
    /// Failed to extract default theme
    ExtractTheme { source: String },
    /// A miscellaneous I/O error
    MiscIO { source: String, path: String },
}

/// The text of a new project's `hyde.toml`: the project's name, display
/// name and description, and the default theme path.
pub open spec fn spec_config_toml(name: Seq<char>, display_name: Seq<char>, desc: Seq<char>) -> Seq<
    char,
> {
    "name = \""@ + name + "\"\ndisplay_name = \""@ + display_name + "\"\ndescription = \""@ + desc
        + "\"\ntheme = \"default_theme\"\n"@
}

/// Builds the configuration text written into a new project's
/// `hyde.toml`; a missing description is written as an empty one.
pub fn write_config(name: &str, display_name: &str, desc: Option<&str>) -> (r: String)
    ensures
        r@ == spec_config_toml(
            name@,
            display_name@,
            match desc {
                Option::Some(d) => d@,
                Option::None => Seq::empty(),
            },
        ),
{
    let mut out = chars_vec("name = \"");
    push_str_chars(&mut out, name);
    push_str_chars(&mut out, "\"\ndisplay_name = \"");
    push_str_chars(&mut out, display_name);
    push_str_chars(&mut out, "\"\ndescription = \"");
    if let Option::Some(d) = desc {
        push_str_chars(&mut out, d);
    }
    push_str_chars(&mut out, "\"\ntheme = \"default_theme\"\n");
    proof {
        assert(out@ =~= spec_config_toml(
            name@,
            display_name@,
            match desc {
                Option::Some(d) => d@,
                Option::None => Seq::empty(),
            },
        ));
    }
    string_from_chars(&out)
}

} // verus!
