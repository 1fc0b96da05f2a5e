//! Items of a restaurant's kitchen and menu.
use vstd::prelude::*;

verus! {

pub struct Vegetable {
    pub name: String,
    id: i32,
}

impl Vegetable {
    pub closed spec fn spec_name(&self) -> Seq<char> {
        self.name@
    }

    pub closed spec fn spec_id(&self) -> i32 {
        self.id
    }

    /// A vegetable called `name`, with id 1.
    pub fn new(name: &str) -> (r: Vegetable)
        ensures
            r.spec_name() == name@,
            r.spec_id() == 1,
    {
        Vegetable { name: String::from_str(name), id: 1 }
    }
}

#[derive(Clone, Copy, Debug, PartialEq, Eq, Structural)]
pub enum Appetizer {
    Soup,
    Salad,
}

} // verus!
