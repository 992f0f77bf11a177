//! The usage banner.

use vstd::prelude::*;

verus! {

/// The part of the banner between the two places where the invocation name stands.
pub const BANNER_MIDDLE: &'static str =
    " (Rust list) is an ls-like utility to list directory contents.\n\nUsage: ";

/// The part of the banner behind the second place where the invocation name stands.
pub const BANNER_END: &'static str =
    " [OPTIONS]\nOptions:\n-h  -- this help\n-a  -- show all files\n";

/// The part of the banner between the two places where the invocation name stands.
pub open spec fn banner_middle() -> Seq<char> {
    BANNER_MIDDLE@
}

/// The part of the banner behind the second place where the invocation name stands.
pub open spec fn banner_end() -> Seq<char> {
    BANNER_END@
}

/// The usage banner for a program invoked as `name`.
pub open spec fn help_banner(name: Seq<char>) -> Seq<char> {
    name + banner_middle() + name + banner_end()
}

/// Builds the usage banner for a program invoked as `name`.
pub fn help_text(name: &str) -> (text: String)
    ensures
        text@ == help_banner(name@),
{
    let mut text = String::from_str(name);
    text.append(BANNER_MIDDLE);
    text.append(name);
    text.append(BANNER_END);
    text
}

} // verus!
