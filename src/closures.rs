//! Memoising an expensive calculation, and a workout plan that uses it.
use std::collections::HashMap;
use std::hash::Hash;
use vstd::prelude::*;
use vstd::std_specs::hash::obeys_key_model;

verus! {

broadcast use vstd::std_specs::hash::group_hash_axioms;

/// Runs a calculation at most once per argument and remembers the results.
#[verifier::reject_recursive_types(U)]
pub struct Cacher<T, U> where T: Fn(U) -> U {
    calculation: T,
    value: HashMap<U, Option<U>>,
}

impl<T, U> Cacher<T, U> where T: Fn(U) -> U, U: Eq + Hash + Copy {
    pub closed spec fn calc(&self) -> T {
        self.calculation
    }

    /// The remembered results, by argument.
    pub closed spec fn cache(&self) -> Map<U, Option<U>> {
        self.value@
    }

    /// A cacher that has computed nothing yet.
    pub fn new(calculation: T) -> (r: Cacher<T, U>)
        ensures
            r.calc() == calculation,
            r.cache() == Map::<U, Option<U>>::empty(),
    {
        Cacher { calculation, value: HashMap::new() }
    }

    /// The result for `arg`: the remembered one if there is one, else a fresh
    /// result of the calculation, which is then remembered.
    pub fn value(&mut self, arg: U) -> (r: U)
        requires
            call_requires(old(self).calc(), (arg,)),
        ensures
            final(self).calc() == old(self).calc(),
            obeys_key_model::<U>() ==> match old(self).cache().get(arg) {
                Some(Some(v)) => r == v && final(self).cache() == old(self).cache(),
                _ => call_ensures(old(self).calc(), (arg,), r) && final(self).cache() == old(
                    self,
                ).cache().insert(arg, Some(r)),
            },
    {
        match self.value.get(&arg) {
            Some(Some(v)) => *v,
            _ => {
                let v = (self.calculation)(arg);
                self.value.insert(arg, Some(v));
                v
            },
        }
    }
}

/// Today's workout.
#[derive(Clone, Copy, Debug, PartialEq, Eq, Structural)]
pub enum Workout {
    Exercises { pushups: u32, situps: u32 },
    Rest,
    Run { minutes: u32 },
}

/// The workout for `intensity`: exercises below 25, otherwise a run, or a rest day
/// when `random_number` is 3. The amounts come from `calculation`, run at most once.
pub fn generate_workout<F: Fn(u32) -> u32>(
    intensity: u32,
    random_number: u32,
    calculation: F,
) -> (r: Workout)
    requires
        call_requires(calculation, (intensity,)),
    ensures
        intensity < 25 ==> (r matches Workout::Exercises { pushups, situps } && situps == pushups
            && call_ensures(calculation, (intensity,), pushups)),
        intensity >= 25 && random_number == 3 ==> r == Workout::Rest,
        intensity >= 25 && random_number != 3 ==> (r matches Workout::Run { minutes }
            && call_ensures(calculation, (intensity,), minutes)),
{
    let mut expensive_result = Cacher::new(calculation);
    if intensity < 25 {
        let pushups = expensive_result.value(intensity);
        let situps = expensive_result.value(intensity);
        Workout::Exercises { pushups, situps }
    } else if random_number == 3 {
        Workout::Rest
    } else {
        Workout::Run { minutes: expensive_result.value(intensity) }
    }
}

} // verus!
