//! Small verified string-building helpers over one trusted append.

use vstd::prelude::*;

verus! {

/// Relies on String::push_str: appends the given slice onto the end of the
/// string, leaving what was there before in place.
#[verifier::external_body]
pub fn append_str(s: &mut String, t: &str)
    ensures
        final(s)@ == old(s)@ + t@,
{
    s.push_str(t);
}

/// The first `n` parts joined with single spaces between them.
pub open spec fn joined_prefix(parts: Seq<Seq<char>>, n: int) -> Seq<char>
    decreases n,
{
    if n <= 0 {
        Seq::empty()
    } else if n == 1 {
        parts[0]
    } else {
        joined_prefix(parts, n - 1) + seq![' '] + parts[n - 1]
    }
}

/// All parts joined with single spaces between them.
pub open spec fn joined(parts: Seq<Seq<char>>) -> Seq<char> {
    joined_prefix(parts, parts.len() as int)
}

/// Join name parts with single spaces, as a full name is written.
pub fn join_parts(parts: &Vec<String>) -> (r: String)
    ensures
        r@ == joined(parts@.map_values(|p: String| p@)),
{
    let ghost mapped = parts@.map_values(|p: String| p@);
    let mut r = String::new();
    let n: usize = parts.len();
    for i in 0..n
        invariant
            n == parts@.len(),
            mapped == parts@.map_values(|p: String| p@),
            r@ == joined_prefix(mapped, i as int),
    {
        if i > 0 {
            append_str(&mut r, " ");
            proof {
                reveal_strlit(" ");
            }
        }
        append_str(&mut r, parts[i].as_str());
        proof {
            assert(mapped[i as int] == parts@[i as int]@);
        }
    }
    r
}

} // verus!
