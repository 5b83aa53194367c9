//! The two installation targets, and values that differ between them.

use vstd::prelude::*;

verus! {

/// An installation target.
#[derive(Debug, Clone, Copy, PartialEq, Eq, Structural, PartialOrd, Ord, Hash)]
pub enum Side {
    Server,
    Client,
}

/// A pair of values of one type, one for each side.
#[derive(Debug, Clone)]
pub struct Sided<T> {
    pub client: T,
    pub server: T,
}

impl Side {
    /// The side's name as the variable table carries it.
    pub open spec fn name(self) -> Seq<char> {
        match self {
            Side::Client => "client"@,
            Side::Server => "server"@,
        }
    }

    /// The side's name in lower case.
    pub fn get(&self) -> (r: &'static str)
        ensures
            r@ == self.name(),
    {
        match *self {
            Side::Client => "client",
            Side::Server => "server",
        }
    }
}

impl<T> Sided<T> {
    /// The value that belongs to `side`.
    pub open spec fn pick(self, side: Side) -> T {
        match side {
            Side::Client => self.client,
            Side::Server => self.server,
        }
    }

    /// The value that belongs to `side`; the other one is not looked at.
    pub fn get(&self, side: Side) -> (r: &T)
        ensures
            *r == self.pick(side),
    {
        match side {
            Side::Client => &self.client,
            Side::Server => &self.server,
        }
    }
}

impl<T: View> View for Sided<T> {
    type V = Sided<T::V>;

    open spec fn view(&self) -> Sided<T::V> {
        Sided { client: self.client@, server: self.server@ }
    }
}

/// Whether `side` is one of `sides`.
pub fn contains_side(sides: &Vec<Side>, side: Side) -> (r: bool)
    ensures
        r == sides@.contains(side),
{
    let mut i: usize = 0;
    while i < sides.len()
        invariant
            i <= sides.len(),
            forall|j: int| 0 <= j < i ==> sides@[j] != side,
        decreases sides.len() - i,
    {
        if sides[i] == side {
            return true;
        }
        i = i + 1;
    }
    false
}

} // verus!
