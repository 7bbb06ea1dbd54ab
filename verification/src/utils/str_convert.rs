use vstd::prelude::*;

verus! {

/// `String::leak`: the string, kept alive for the rest of the program.
#[verifier::external_body]
fn leak(s: String) -> (r: &'static str)
    ensures
        r@ == s@,
{
    s.leak()
}

/// The text of `s` as a string slice that lives for the rest of the program
/// (the string's memory is never freed).
#[must_use]
pub fn convert(s: String) -> (r: &'static str)
    ensures
        r@ == s@,
{
    leak(s)
}

} // verus!
