//! Command-line option lookup.

use vstd::prelude::*;

verus! {

/// The value given after the first occurrence of `flag` that has a successor.
pub open spec fn spec_value_after(args: Seq<Seq<char>>, flag: Seq<char>) -> Option<Seq<char>>
    decreases args.len(),
{
    if args.len() < 2 {
        None
    } else if args[0] == flag {
        Some(args[1])
    } else {
        spec_value_after(args.drop_first(), flag)
    }
}

/// The argument that follows `flag`, if `flag` occurs before the last argument.
pub fn value_after(args: &[String], flag: &str) -> (r: Option<String>)
    ensures
        match spec_value_after(args@.map_values(|s: String| s@), flag@) {
            Some(v) => r matches Some(s) && s@ == v,
            None => r is None,
        },
{
    let ghost av = args@.map_values(|s: String| s@);
    let f = String::from_str(flag);
    let n = args.len();
    let mut i: usize = 0;
    assert(av.skip(0) =~= av);
    while i < n && i + 1 < n
        invariant
            n == args@.len() == av.len(),
            av == args@.map_values(|s: String| s@),
            f@ == flag@,
            i <= n,
            spec_value_after(av.skip(i as int), flag@) == spec_value_after(av, flag@),
        decreases n - i,
    {
        let ghost rest = av.skip(i as int);
        assert(rest[0] == args@[i as int]@);
        assert(rest[1] == args@[i + 1]@);
        if args[i] == f {
            return Some(args[i + 1].clone());
        }
        assert(rest.drop_first() =~= av.skip(i + 1));
        i = i + 1;
    }
    None
}

} // verus!
