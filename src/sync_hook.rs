use vstd::prelude::*;
use vstd::string::*;

verus! {

/// A named hook that records the names of its taps.
pub struct SyncHook {
    pub name: String,
    pub taps: Vec<String>,
}

impl SyncHook {
    /// A hook called `name`, with no taps.
    pub fn new(name: &str) -> (r: Self)
        ensures
            r.name@ == name@,
            r.taps@.len() == 0,
    {
        SyncHook { name: String::from_str(name), taps: Vec::new() }
    }

    /// Records a tap called `name` after the others.
    pub fn tap(&mut self, name: &str)
        ensures
            final(self).name@ == old(self).name@,
            final(self).taps@.len() == old(self).taps@.len() + 1,
            final(self).taps@.drop_last() == old(self).taps@,
            final(self).taps@.last()@ == name@,
    {
        self.taps.push(String::from_str(name));
        proof {
            assert(self.taps@.drop_last() =~= old(self).taps@);
        }
    }
}

} // verus!
