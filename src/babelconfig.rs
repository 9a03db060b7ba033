//! The library's configuration header, filled in from its CMake template.
use vstd::prelude::*;
use crate::text::{replace_text, replaced};

verus! {

/// The template with its placeholders filled: the data directory and the version go in,
/// module loading is switched off, three optional platform features are dropped, every
/// other `#cmakedefine` becomes a `#define`, and shared pointers are `std::shared_ptr`
/// from `<memory>`.
pub open spec fn babel_config_spec(template: Seq<char>, data_dir: Seq<char>, version: Seq<char>) -> Seq<char> {
    let t = replaced(template, "@BABEL_DATADIR@"@, data_dir);
    let t = replaced(t, "@BABEL_VERSION@"@, version);
    let t = replaced(t, "@MODULE_EXTENSION@"@, "na"@);
    let t = replaced(t, "@OB_MODULE_PATH@"@, "na"@);
    let t = replaced(t, "#cmakedefine HAVE_CONIO_H 1"@, ""@);
    let t = replaced(t, "#cmakedefine HAVE_SRANDDEV 1"@, ""@);
    let t = replaced(t, "#cmakedefine SCANDIR_NEEDS_CONST 1"@, ""@);
    let t = replaced(t, "#cmakedefine"@, "#define"@);
    let t = replaced(t, "@OB_SHARED_PTR_IMPLEMENTATION@"@, "std::shared_ptr"@);
    replaced(t, "@OB_SHARED_PTR_HEADER@"@, "memory"@)
}

/// Fills in the configuration header template.
pub fn babel_config(template: &str, data_dir: &str, version: &str) -> (r: String)
    ensures
        r@ == babel_config_spec(template@, data_dir@, version@),
{
    let t = replace_text(template, "@BABEL_DATADIR@", data_dir);
    let t = replace_text(t.as_str(), "@BABEL_VERSION@", version);
    let t = replace_text(t.as_str(), "@MODULE_EXTENSION@", "na");
    let t = replace_text(t.as_str(), "@OB_MODULE_PATH@", "na");
    let t = replace_text(t.as_str(), "#cmakedefine HAVE_CONIO_H 1", "");
    let t = replace_text(t.as_str(), "#cmakedefine HAVE_SRANDDEV 1", "");
    let t = replace_text(t.as_str(), "#cmakedefine SCANDIR_NEEDS_CONST 1", "");
    let t = replace_text(t.as_str(), "#cmakedefine", "#define");
    let t = replace_text(t.as_str(), "@OB_SHARED_PTR_IMPLEMENTATION@", "std::shared_ptr");
    replace_text(t.as_str(), "@OB_SHARED_PTR_HEADER@", "memory")
}

} // verus!
