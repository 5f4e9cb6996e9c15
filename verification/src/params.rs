//! Named blend parameters.
//!
//! The parameter schema is declared when assets are loaded; blend-tree
//! nodes resolve their parameter names to indices at construction and read
//! by index afterwards, so a missing name surfaces at load time.

use vstd::prelude::*;
use crate::errors::AnimError;

verus! {

/// A set of named fixed-point parameter values, owned by a controller and
/// written by the driving application between updates.
pub struct ParamSet {
    pub names: Vec<String>,
    pub values: Vec<i64>,
}

impl ParamSet {
    /// One value per name, names pairwise distinct.
    pub open spec fn wf(self) -> bool {
        &&& self.names.len() == self.values.len()
        &&& forall|i: int, k: int|
            0 <= i < k < self.names.len() ==> (#[trigger] self.names[i])@ != (
            #[trigger] self.names[k])@
    }

    /// Whether a name is declared.
    pub open spec fn spec_has(self, name: Seq<char>) -> bool {
        exists|i: int| 0 <= i < self.names.len() && (#[trigger] self.names[i])@ == name
    }

    /// The empty parameter set.
    pub fn new() -> (r: ParamSet)
        ensures
            r.wf(),
            r.names@.len() == 0,
            r.values@.len() == 0,
    {
        ParamSet { names: Vec::new(), values: Vec::new() }
    }

    /// Number of declared parameters.
    pub fn len(&self) -> (r: usize)
        ensures
            r == self.names@.len(),
    {
        self.names.len()
    }

    /// The index of a declared name.
    pub fn find(&self, name: &String) -> (r: Option<usize>)
        ensures
            match r {
                Option::Some(i) => i < self.names@.len() && self.names@[i as int]@ == name@,
                Option::None => !self.spec_has(name@),
            },
    {
        let n: usize = self.names.len();
        let mut i: usize = 0;
        while i < n
            invariant
                n == self.names@.len(),
                i <= n,
                forall|k: int| 0 <= k < i ==> (#[trigger] self.names@[k])@ != name@,
            decreases n - i,
        {
            if self.names[i] == *name {
                return Option::Some(i);
            }
            i = i + 1;
        }
        Option::None
    }

    /// Declare a parameter: a new name is appended with the given value,
    /// an already-declared name has its value replaced.
    pub fn declare(&mut self, name: String, value: i64)
        requires
            old(self).wf(),
        ensures
            final(self).wf(),
            final(self).spec_has(name@),
            if old(self).spec_has(name@) {
                &&& final(self).names == old(self).names
                &&& exists|i: int|
                    0 <= i < old(self).names@.len() && (#[trigger] old(self).names@[i])@ == name@
                        && final(self).values@ == old(self).values@.update(i, value)
            } else {
                &&& final(self).names@ == old(self).names@.push(name)
                &&& final(self).values@ == old(self).values@.push(value)
            },
    {
        let found = self.find(&name);
        match found {
            Option::Some(i) => {
                self.values[i] = value;
            },
            Option::None => {
                self.names.push(name);
                self.values.push(value);
                proof {
                    assert((self.names@[old(self).names@.len() as int])@ == name@);
                    assert forall|i: int, k: int|
                        0 <= i < k < self.names@.len() implies (#[trigger] self.names@[i])@ != (
                        #[trigger] self.names@[k])@ by {
                        if k < self.names@.len() - 1 {
                        } else {
                            assert(self.names@[i] == old(self).names@[i]);
                        }
                    }
                }
            },
        }
    }

    /// The value of a declared name; an undeclared name is an error, never
    /// a silent default.
    pub fn value_of(&self, name: &String) -> (r: Result<i64, AnimError>)
        requires
            self.wf(),
        ensures
            match r {
                Ok(v) => exists|i: int|
                    0 <= i < self.names@.len() && (#[trigger] self.names@[i])@ == name@
                        && v == self.values@[i],
                Err(e) => e == AnimError::UnknownParameter && !self.spec_has(name@),
            },
    {
        let found = self.find(name);
        match found {
            Option::Some(i) => Ok(self.values[i]),
            Option::None => Err(AnimError::UnknownParameter),
        }
    }

    /// Set the value of a declared name; an undeclared name is an error
    /// and leaves the set unchanged.
    pub fn set_value(&mut self, name: &String, value: i64) -> (r: Result<(), AnimError>)
        requires
            old(self).wf(),
        ensures
            final(self).wf(),
            final(self).names == old(self).names,
            match r {
                Ok(()) => exists|i: int|
                    0 <= i < old(self).names@.len() && (#[trigger] old(self).names@[i])@ == name@
                        && final(self).values@ == old(self).values@.update(i, value),
                Err(e) => {
                    &&& e == AnimError::UnknownParameter
                    &&& !old(self).spec_has(name@)
                    &&& *final(self) == *old(self)
                },
            },
    {
        let found = self.find(name);
        match found {
            Option::Some(i) => {
                self.values[i] = value;
                Ok(())
            },
            Option::None => Err(AnimError::UnknownParameter),
        }
    }

    /// The value at a parameter index.
    pub fn value_at(&self, i: usize) -> (r: Result<i64, AnimError>)
        requires
            self.wf(),
        ensures
            match r {
                Ok(v) => i < self.values@.len() && v == self.values@[i as int],
                Err(e) => e == AnimError::IndexError && i >= self.values@.len(),
            },
    {
        if i < self.values.len() {
            Ok(self.values[i])
        } else {
            Err(AnimError::IndexError)
        }
    }
}

} // verus!
