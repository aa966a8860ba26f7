//! Deciding which entries of a walk are visible.

use crate::config::Config;
use crate::text::{chars_of, contains, contains_seq};
use vstd::prelude::*;

verus! {

/// A hidden name: it begins with a dot and is longer than the dot alone.
pub open spec fn is_hidden_name(name: Seq<char>) -> bool {
    name.len() > 1 && name[0] == '.'
}

/// Whether the walk may report an entry and go below it. In this order: a
/// cancelled search admits nothing; a hidden name is left out unless hidden
/// entries are asked for; a name that an ignore fragment or pattern applies to
/// is left out; a regular file above the size ceiling is left out. An entry
/// without a readable name is held to no rule on names.
pub open spec fn entry_admitted(
    walk_name: Option<Seq<char>>,
    file_size: Option<u64>,
    cancelled: bool,
    include_hidden: bool,
    config: Config,
) -> bool {
    &&& !cancelled
    &&& (walk_name matches Some(name) ==> {
        &&& include_hidden || config.include_hidden || !is_hidden_name(name)
        &&& !config.ignores_directory(name)
        &&& !config.ignores_file(name)
    })
    &&& (file_size matches Some(size) ==> size <= config.size_ceiling())
}

/// The view of an optional name.
pub open spec fn name_view(name: Option<&str>) -> Option<Seq<char>> {
    match name {
        Some(n) => Some(n@),
        None => None,
    }
}

/// Whether `name` is hidden.
pub fn is_hidden(name: &str) -> (r: bool)
    ensures
        r == is_hidden_name(name@),
{
    let chars = chars_of(name);
    chars.len() > 1 && chars[0] == '.'
}

/// Whether `size` bytes are more than the settings allow for a file.
pub fn exceeds_size_ceiling(size: u64, config: &Config) -> (r: bool)
    ensures
        r == (size > config.size_ceiling()),
{
    match config.max_file_size_mb.checked_mul(1024 * 1024) {
        Some(ceiling) => size > ceiling,
        None => false,
    }
}

/// The filter of the walk: whether an entry is reported and, where it is a
/// directory, entered.
pub fn should_visit(
    walk_name: Option<&str>,
    file_size: Option<u64>,
    cancelled: bool,
    include_hidden: bool,
    config: &Config,
) -> (r: bool)
    ensures
        r == entry_admitted(name_view(walk_name), file_size, cancelled, include_hidden, *config),
{
    if cancelled {
        return false;
    }
    if let Some(name) = walk_name {
        if !(include_hidden || config.include_hidden) && is_hidden(name) {
            return false;
        }
        if config.should_ignore_directory(name) {
            return false;
        }
        if config.should_ignore_file(name) {
            return false;
        }
    }
    if let Some(size) = file_size {
        if exceeds_size_ceiling(size, config) {
            return false;
        }
    }
    true
}

/// An error of the walk is worth a warning unless its message speaks of a
/// denied permission: such entries are passed over in silence.
pub open spec fn is_worth_warning(message: Seq<char>) -> bool {
    !contains_seq(message, "Permission denied"@)
}

/// Whether an error of the walk with this message is reported.
pub fn warrants_warning(message: &str) -> (r: bool)
    ensures
        r == is_worth_warning(message@),
{
    !contains(&chars_of(message), &chars_of("Permission denied"))
}

} // verus!
