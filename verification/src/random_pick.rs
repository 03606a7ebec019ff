use vstd::prelude::*;

verus! {

/// Relies on `rand::rng` and `rand::Rng::random_range`: a freshly seeded
/// generator hands back an index drawn from `0..n`.  Which index comes back
/// depends on chance, so nothing is assumed beyond the range.
#[verifier::external_body]
fn random_index(n: usize) -> (r: usize)
    requires
        n > 0,
    ensures
        r < n,
{
    rand::Rng::random_range(&mut rand::rng(), 0..n)
}

/// A pointer-like holder of three values that hands out one of them at
/// random on every read.
pub struct Random<T> {
    values: [T; 3],
}

impl<T: Copy> Random<T> {
    /// The three values the holder draws from.
    pub closed spec fn spec_values(self) -> Seq<T> {
        self.values@
    }

    pub fn new(val_1: T, val_2: T, val_3: T) -> (r: Random<T>)
        ensures
            r.spec_values() =~= seq![val_1, val_2, val_3],
    {
        Random { values: [val_1, val_2, val_3] }
    }

    /// One of the three values, chosen at random.
    pub fn pick(&self) -> (r: T)
        ensures
            exists|i: int| 0 <= i < 3 && r == self.spec_values()[i],
    {
        let i = random_index(3);
        let r = self.values[i];
        proof {
            assert(r == self.spec_values()[i as int]);
        }
        r
    }
}

/// A source of one random fact about the type `T` it is kept for.
pub struct Fact<T> {
    _phtype: core::marker::PhantomData<T>,
}

impl<T> Fact<T> {
    pub fn new() -> (f: Fact<T>) {
        Fact { _phtype: core::marker::PhantomData }
    }
}

impl<T> Fact<Vec<T>> {
    /// One of the three recorded facts about `Vec`, chosen at random.
    pub fn fact(&self) -> (r: &'static str)
        ensures
            r@ == "Vec is heap-allocated."@ || r@ == "There is a vec! macro."@ || r@
                == "The Vec type allows access to values by index, because it implements the Index trait."@,
    {
        let i = random_index(3);
        match i {
            0 => "Vec is heap-allocated.",
            1 => "There is a vec! macro.",
            _ => "The Vec type allows access to values by index, because it implements the Index trait.",
        }
    }
}

impl Fact<String> {
    /// One of the three recorded facts about `String`, chosen at random.
    pub fn fact(&self) -> (r: &'static str)
        ensures
            r@ == "String is UTF-8 encoded and growable"@ || r@
                == "String implements Deref<Target = str>"@ || r@
                == "A String is made up of three components: a pointer to some bytes, a length, and a capacity."@,
    {
        let i = random_index(3);
        match i {
            0 => "String is UTF-8 encoded and growable",
            1 => "String implements Deref<Target = str>",
            _ => "A String is made up of three components: a pointer to some bytes, a length, and a capacity.",
        }
    }
}

} // verus!
