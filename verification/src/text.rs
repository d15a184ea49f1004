use vstd::prelude::*;

verus! {

/// `prefix` followed by `msg`.
pub fn prefixed(prefix: &str, msg: &str) -> (s: String)
    ensures
        s@ == prefix@ + msg@,
{
    let mut s = String::from_str(prefix);
    s.append(msg);
    s
}

} // verus!
