//! Validation of environment variable names.
//!
//! The rule set is deliberately permissive: a name is rejected only when it
//! is empty or contains a space character. There is no length limit and no
//! character-set restriction beyond the space; this is a guard against
//! obviously malformed input, not a full identifier check.

use vstd::prelude::*;

verus! {

/// A variable name is valid when it is non-empty and has no space in it.
pub open spec fn valid_var_name(name: Seq<char>) -> bool {
    name.len() > 0 && !name.contains(' ')
}

/// Validate a variable name, returning the reason for rejection if any.
pub fn validate_var_name(name: &str) -> (r: Result<(), String>)
    ensures
        r is Ok <==> valid_var_name(name@),
        name@.len() == 0 ==> (r matches Err(m) && m@ == "Variable name cannot be empty"@),
        name@.len() > 0 && name@.contains(' ') ==> (r matches Err(m) && m@
            == "Variable name cannot contain spaces"@),
{
    if name.unicode_len() == 0 {
        return Err(String::from_str("Variable name cannot be empty"));
    }
    let mut i: usize = 0;
    let n = name.unicode_len();
    while i < n
        invariant
            i <= n,
            n == name@.len(),
            forall|j: int| 0 <= j < i ==> name@[j] != ' ',
        decreases n - i,
    {
        if name.get_char(i) == ' ' {
            assert(name@.contains(' '));
            return Err(String::from_str("Variable name cannot contain spaces"));
        }
        i = i + 1;
    }
    assert(!name@.contains(' '));
    Ok(())
}

} // verus!
