use vstd::prelude::*;
use vstd::std_specs::cmp::PartialEqSpec;

verus! {

/// Three values of one type, rotated as a unit.
#[derive(Debug)]
pub struct Trinity<T> {
    pub a: T,
    pub b: T,
    pub c: T,
}

/// One rotation: every value moves one field forward, the last wraps round.
pub open spec fn spec_rotate<T>(t: Trinity<T>) -> Trinity<T> {
    Trinity { a: t.b, b: t.c, c: t.a }
}

impl<T> Trinity<T> {
    /// Rotates the three values one place.
    pub fn rotate(&mut self)
        ensures
            *final(self) == spec_rotate(*old(self)),
    {
        core::mem::swap(&mut self.a, &mut self.c);
        core::mem::swap(&mut self.b, &mut self.a);
    }
}

impl<T: PartialEq + PartialEqSpec> PartialEq for Trinity<T> {
    fn eq(&self, other: &Trinity<T>) -> (r: bool) {
        self.a == other.a && self.b == other.b && self.c == other.c
    }
}

impl<T: PartialEq + PartialEqSpec> vstd::std_specs::cmp::PartialEqSpecImpl for Trinity<T> {
    open spec fn obeys_eq_spec() -> bool {
        T::obeys_eq_spec()
    }

    open spec fn eq_spec(&self, other: &Trinity<T>) -> bool {
        self.a.eq_spec(&other.a) && self.b.eq_spec(&other.b) && self.c.eq_spec(&other.c)
    }
}

/// Whether `t` equals `expected` in any of its three rotations.
pub open spec fn spec_solved<T: PartialEq + PartialEqSpec>(t: Trinity<T>, expected: Trinity<T>) -> bool {
    ||| t.eq_spec(&expected)
    ||| spec_rotate(t).eq_spec(&expected)
    ||| spec_rotate(spec_rotate(t)).eq_spec(&expected)
}

/// The elements `resolve` keeps: those not solved by `expected`.
pub open spec fn keeps<T: PartialEq + PartialEqSpec>(expected: Trinity<T>) -> spec_fn(
    Trinity<T>,
) -> bool {
    |t: Trinity<T>| !spec_solved(t, expected)
}

/// Sorts out every trinity that can be rotated into the expected one.
#[derive(Debug)]
pub struct Solver<T: PartialEq + PartialEqSpec> {
    pub expected: Trinity<T>,
    pub unsolved: Vec<Trinity<T>>,
}

impl<T: PartialEq + PartialEqSpec> Solver<T> {
    /// Tries the three rotations of `t` against `expected`; a trinity that
    /// matches none is left as it was found (three rotations restore it).
    fn check_rotations(t: &mut Trinity<T>, expected: &Trinity<T>) -> (r: bool)
        ensures
            T::obeys_eq_spec() ==> r == spec_solved(*old(t), *expected),
            !r ==> *final(t) == *old(t),
    {
        let mut attempt: usize = 0;
        while attempt < 3
            invariant
                0 <= attempt <= 3,
                attempt == 0 ==> *t == *old(t),
                attempt == 1 ==> *t == spec_rotate(*old(t)),
                attempt == 2 ==> *t == spec_rotate(spec_rotate(*old(t))),
                attempt == 3 ==> *t == spec_rotate(spec_rotate(spec_rotate(*old(t)))),
                T::obeys_eq_spec() && attempt >= 1 ==> !(*old(t)).eq_spec(expected),
                T::obeys_eq_spec() && attempt >= 2 ==> !spec_rotate(*old(t)).eq_spec(expected),
                T::obeys_eq_spec() && attempt >= 3 ==> !spec_rotate(spec_rotate(*old(t))).eq_spec(
                    expected,
                ),
            decreases 3 - attempt,
        {
            if *t == *expected {
                return true;
            }
            t.rotate();
            attempt = attempt + 1;
        }
        proof {
            assert(spec_rotate(spec_rotate(spec_rotate(*old(t)))) == *old(t));
        }
        false
    }

    /// Drops from `unsolved` every trinity that is the expected one up to
    /// rotation; the rest stay, in order and as they were.
    pub fn resolve(&mut self)
        ensures
            final(self).expected == old(self).expected,
            T::obeys_eq_spec() ==> final(self).unsolved@ =~= old(self).unsolved@.filter(
                keeps(old(self).expected),
            ),
    {
        let ghost original = self.unsolved@;
        let ghost pred = keeps(old(self).expected);
        let ghost mut processed: int = 0;
        let mut i: usize = 0;
        proof {
            reveal(Seq::filter);
            assert(original.take(0).filter(pred) =~= Seq::<Trinity<T>>::empty());
        }
        while i < self.unsolved.len()
            invariant
                self.expected == old(self).expected,
                0 <= processed <= original.len(),
                i <= self.unsolved@.len(),
                self.unsolved@ =~= self.unsolved@.take(i as int) + original.skip(processed),
                pred == keeps(old(self).expected),
                T::obeys_eq_spec() ==> self.unsolved@.take(i as int) =~= original.take(
                    processed,
                ).filter(pred),
            decreases original.len() - processed,
        {
            let ghost before = self.unsolved@;
            let ghost current = self.unsolved@[i as int];
            let solved = {
                let e = &mut self.unsolved[i];
                Self::check_rotations(e, &self.expected)
            };
            proof {
                reveal(Seq::filter);
                assert(current == original[processed]);
                assert(original.take(processed + 1).drop_last() =~= original.take(processed));
                assert(original.take(processed + 1).last() == current);
            }
            if solved {
                self.unsolved.remove(i);
                proof {
                    reveal(Seq::filter);
                    assert(self.unsolved@ =~= before.take(i as int) + before.skip(i as int + 1));
                    if T::obeys_eq_spec() {
                        assert(pred(current) == !spec_solved(current, old(self).expected));
                        assert(!pred(current));
                        assert(self.unsolved@.take(i as int) =~= before.take(i as int));
                        assert(original.take(processed + 1).filter(pred) =~= original.take(
                            processed,
                        ).filter(pred));
                    }
                }
            } else {
                proof {
                    reveal(Seq::filter);
                    assert(self.unsolved@ =~= before);
                    if T::obeys_eq_spec() {
                        assert(pred(current) == !spec_solved(current, old(self).expected));
                        assert(pred(current));
                        assert(original.take(processed + 1).filter(pred) =~= original.take(
                            processed,
                        ).filter(pred).push(current));
                        assert(self.unsolved@.take(i as int + 1) =~= self.unsolved@.take(
                            i as int,
                        ).push(current));
                    }
                }
                i = i + 1;
            }
            proof {
                processed = processed + 1;
            }
        }
        proof {
            if T::obeys_eq_spec() {
                assert(original.skip(processed) =~= Seq::<Trinity<T>>::empty());
                assert(original.take(processed) =~= original);
                assert(self.unsolved@.take(i as int) =~= self.unsolved@);
            }
        }
    }
}

} // verus!
