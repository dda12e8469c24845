use vstd::prelude::*;
use vstd::string::*;
use crate::model::BuildError;

verus! {

/// The two-character marker that starts a profile argument.
pub open spec fn marker() -> Seq<char> {
    seq!['-', '-']
}

/// A profile argument is valid when it starts with the marker.
pub open spec fn has_marker(arg: Seq<char>) -> bool {
    arg.len() >= 2 && arg.subrange(0, 2) == marker()
}

/// Validates a profile argument and strips its marker.
pub fn parse_profile(arg: &str) -> (r: Result<String, BuildError>)
    ensures
        r is Ok <==> has_marker(arg@),
        r matches Ok(p) ==> p@ == arg@.subrange(2, arg@.len() as int),
        r matches Err(e) ==> e == BuildError::InvalidProfileSyntax,
{
    let n = arg.unicode_len();
    if n < 2 {
        return Err(BuildError::InvalidProfileSyntax);
    }
    let c0 = arg.get_char(0);
    let c1 = arg.get_char(1);
    if c0 != '-' || c1 != '-' {
        proof {
            if has_marker(arg@) {
                assert(arg@.subrange(0, 2)[0] == arg@[0]);
                assert(arg@.subrange(0, 2)[1] == arg@[1]);
            }
        }
        return Err(BuildError::InvalidProfileSyntax);
    }
    assert(arg@.subrange(0, 2) =~= marker());
    Ok(String::from_str(arg.substring_char(2, n)))
}

} // verus!
