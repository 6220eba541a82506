//! The computed part of the health endpoint: the response body naming
//! the resolved bot identity, with a well-defined placeholder before the
//! identity has been resolved. Serving HTTP is left to the surrounding
//! program.

use vstd::prelude::*;
use crate::context::{Context, Me};

verus! {

/// The body of the health reply: the bot's user name quoted, or empty
/// quotes while the identity is still the default placeholder.
pub open spec fn spec_index_body(m: Me) -> Seq<char> {
    match m.username {
        Some(u) => "Hello world! \""@ + u@ + "\""@,
        None => "Hello world! \"\""@,
    }
}

/// Renders the health reply for the current bot identity; reading before
/// the identity is resolved yields the placeholder, never a fault.
pub fn index_body(ctx: &Context) -> (r: String)
    ensures
        r@ == spec_index_body(ctx.spec_bot()),
{
    let me = ctx.get_bot();
    match &me.username {
        Some(u) => {
            let mut r = String::from_str("Hello world! \"");
            r.append(u.as_str());
            r.append("\"");
            r
        },
        None => String::from_str("Hello world! \"\""),
    }
}

} // verus!
