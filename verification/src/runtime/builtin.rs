use vstd::prelude::*;

verus! {

/// The output of a Constant or JsonConstant node: its value.
pub fn execute_constant(value: &str) -> (r: Result<String, String>)
    ensures
        r matches Ok(out) && out@ == value@,
{
    Ok(value.to_owned())
}

/// The output of an Echo node: its effective input.
pub fn execute_echo(input: &str) -> (r: Result<String, String>)
    ensures
        r matches Ok(out) && out@ == input@,
{
    Ok(input.to_owned())
}

} // verus!
