//! What the user is told when handling a message fails.

use crate::error::TheiaError;
use vstd::prelude::*;

verus! {

/// The handler of the chat gateway's events.
#[derive(Debug, Clone, Copy)]
pub struct TheiaEventHandler;

/// The code that users are shown in place of an error's details: thirty-two
/// zeros.
pub open spec fn error_code() -> Seq<char> {
    Seq::new(32, |i: int| '0')
}

/// The answer to a message whose handling failed.
pub open spec fn error_reply_text() -> Seq<char> {
    "\u{274c} An error occurred: `"@ + error_code() + "`"@
}

impl TheiaEventHandler {
    /// Takes charge of an error and gives the code to show to users. The
    /// code tells nothing of the error.
    pub fn handle_err(&self, _why: TheiaError) -> (r: String)
        ensures
            r@ == error_code(),
    {
        let mut r = String::new();
        let mut i: usize = 0;
        while i < 32
            invariant
                i <= 32,
                r@ == Seq::new(i as nat, |k: int| '0'),
            decreases 32 - i,
        {
            r.push('0');
            i += 1;
            assert(r@ =~= Seq::new(i as nat, |k: int| '0'));
        }
        r
    }

    /// Takes charge of an error and gives the answer to send to the user
    /// whose message could not be handled.
    pub fn handle_err_reply(&self, why: TheiaError) -> (r: String)
        ensures
            r@ == error_reply_text(),
    {
        let code = self.handle_err(why);
        let mut r = "\u{274c} An error occurred: `".to_owned();
        r.append(code.as_str());
        r.append("`");
        r
    }
}

} // verus!
