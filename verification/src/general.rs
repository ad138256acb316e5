use vstd::prelude::*;

use crate::text::fold_seq;

verus! {

/// An owned copy of a borrowed string.
pub fn s(st: &str) -> (r: String)
    ensures
        r@ == st@,
{
    st.to_owned()
}

/// How free-text input reads as a boolean: folded to lower case it
/// must be one of the usual yes or no words.
pub open spec fn spec_string_to_bool(s: Seq<char>) -> Option<bool> {
    if fold_seq(s) == fold_seq("t"@) || fold_seq(s) == fold_seq("true"@) || fold_seq(s)
        == fold_seq("y"@) || fold_seq(s) == fold_seq("yes"@) {
        Some(true)
    } else if fold_seq(s) == fold_seq("f"@) || fold_seq(s) == fold_seq("false"@) || fold_seq(s)
        == fold_seq("n"@) || fold_seq(s) == fold_seq("no"@) {
        Some(false)
    } else {
        None
    }
}

/// Reads free-text input as a boolean, without regard to ASCII letter
/// case, accepting the usual human spellings of yes and no.
pub fn string_to_bool(st: &str) -> (r: Option<bool>)
    ensures
        r == spec_string_to_bool(st@),
{
    if crate::text::str_eq_ignore_ascii_case(st, "t") || crate::text::str_eq_ignore_ascii_case(
        st,
        "true",
    ) || crate::text::str_eq_ignore_ascii_case(st, "y") || crate::text::str_eq_ignore_ascii_case(
        st,
        "yes",
    ) {
        Some(true)
    } else if crate::text::str_eq_ignore_ascii_case(st, "f")
        || crate::text::str_eq_ignore_ascii_case(st, "false")
        || crate::text::str_eq_ignore_ascii_case(st, "n") || crate::text::str_eq_ignore_ascii_case(
        st,
        "no",
    ) {
        Some(false)
    } else {
        None
    }
}

} // verus!
