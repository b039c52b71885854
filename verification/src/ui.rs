//! What the user interface shows.
use vstd::prelude::*;

verus! {

/// A greeter, holding the name to greet.
#[derive(Debug)]
pub struct Hello {
    pub name: String,
}

impl Default for Hello {
    fn default() -> (r: Self)
        ensures
            r.name@.len() == 0,
    {
        Hello { name: String::new() }
    }
}

impl Hello {
    /// The greeting: "Hello <name>!".
    pub fn greeting(&self) -> (r: String)
        ensures
            r@ == "Hello "@ + self.name@ + "!"@,
    {
        let mut r = "Hello ".to_owned();
        r.append(self.name.as_str());
        r.append("!");
        r
    }
}

} // verus!
