//! Randomness: every random choice the game makes is one pick from a list.

use vstd::prelude::*;
use rand::seq::IndexedRandom;

verus! {

/// One element of a non-empty vector, picked with
/// `rand::seq::IndexedRandom::choose` and the thread's generator
/// `rand::rng()`.  For a non-empty slice the crate's source returns
/// `Some(&self[rng.random_range(..self.len())])`, so the contract claims
/// that the result is one of the vector's elements; which one is left open.
#[verifier::external_body]
fn choose_in<T>(vals: &Vec<T>) -> (picked: &T)
    requires
        vals.len() > 0,
    ensures
        vals@.contains(*picked),
{
    vals.as_slice().choose(&mut rand::rng()).unwrap()
}

/// A random integer of `low..high`, picked from the list of them.
pub fn random_between(low: i64, high: i64) -> (r: i64)
    requires
        low < high,
    ensures
        low <= r < high,
{
    let mut vals: Vec<i64> = Vec::new();
    let mut x = low;
    while x < high
        invariant
            low <= x <= high,
            vals@.len() == x - low,
            forall|k: int| 0 <= k < vals@.len() ==> vals@[k] == low + k,
        decreases high - x,
    {
        vals.push(x);
        x = x + 1;
    }
    let r = *choose_in(&vals);
    r
}

/// A random element of a non-empty vector.
pub fn random_from<'a, T>(vals: &'a Vec<T>) -> (r: &'a T)
    requires
        vals.len() > 0,
    ensures
        exists|i: int| 0 <= i < vals.len() && *r == vals@[i],
{
    choose_in(vals)
}

/// A random element of a non-empty vector, cloned out of it.
pub fn random_from_owned<T: Clone>(vals: &Vec<T>) -> (r: T)
    requires
        vals.len() > 0,
    ensures
        exists|i: int| 0 <= i < vals.len() && cloned::<T>(vals@[i], r),
{
    choose_in(vals).clone()
}

/// A random index below `len`, picked from the list of them.
pub fn random_index(len: usize) -> (r: usize)
    requires
        len > 0,
    ensures
        r < len,
{
    let mut vals: Vec<usize> = Vec::new();
    let mut i: usize = 0;
    while i < len
        invariant
            i <= len,
            vals@.len() == i,
            forall|k: int| 0 <= k < vals@.len() ==> vals@[k] == k,
        decreases len - i,
    {
        vals.push(i);
        i = i + 1;
    }
    let r = *choose_in(&vals);
    r
}

/// The timestamp a record starts with: the Unix epoch.
pub fn default_timestamp() -> (r: u64)
    ensures
        r == 0,
{
    0
}

} // verus!
