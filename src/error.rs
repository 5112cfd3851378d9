use vstd::prelude::*;
use vstd::string::*;

verus! {

/// An error raised on the host's side, as it reached this side.
pub struct NodeError {
    pub reason: String,
    pub stack: Option<String>,
    pub backtrace: String,
    pub hide_stack: Option<bool>,
}

impl NodeError {
    /// The reason, then the backtrace on the next line.
    pub fn message(&self) -> (r: String)
        ensures
            r@ == self.reason@ + seq!['\n'] + self.backtrace@,
    {
        let mut r = self.reason.clone();
        r.append("\n");
        r.append(self.backtrace.as_str());
        proof {
            reveal_strlit("\n");
        }
        r
    }
}

} // verus!
