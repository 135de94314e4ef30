//! The one-off greeting prompt sent to the remote language-model service.
//! Building the prompt is the only part of the greeting operation that does
//! not touch the network; the caller sends the prompt verbatim and returns
//! the generated text or the transport failure unchanged.

use vstd::prelude::*;
use vstd::string::StringExecFns;

verus! {

/// The text of the greeting prompt for a given name.
pub open spec fn greeting_text(name: Seq<char>) -> Seq<char> {
    "Hello from "@ + name + "!"@
}

/// Builds the fixed greeting prompt for `name`.
pub fn greeting_prompt(name: &str) -> (r: String)
    ensures
        r@ == greeting_text(name@),
{
    let mut r = String::from_str("Hello from ");
    r.append(name);
    r.append("!");
    r
}

} // verus!
