//! A sequence that tolerates individually malformed elements.
//!
//! Untrusted documents carry arrays whose elements are validated one by one;
//! an element that fails validation occupies an absent slot and is skipped by
//! every reader, while the well-formed elements keep their original order.

use vstd::prelude::*;

verus! {

/// The well-formed elements of a slot sequence, in their original order.
pub open spec fn survivors<T>(s: Seq<Option<T>>) -> Seq<T>
    decreases s.len(),
{
    if s.len() == 0 {
        Seq::empty()
    } else {
        match s[0] {
            Some(t) => seq![t] + survivors(s.drop_first()),
            None => survivors(s.drop_first()),
        }
    }
}

/// How many slots of the sequence hold a well-formed element.
pub open spec fn num_valid<T>(s: Seq<Option<T>>) -> nat
    decreases s.len(),
{
    if s.len() == 0 {
        0
    } else {
        (if s[0] is Some {
            1nat
        } else {
            0nat
        }) + num_valid(s.drop_first())
    }
}

/// A vector of validation slots: `Some` for an element that parsed, `None`
/// for one that was rejected and is hidden from every reader.
pub struct LossyVec<T>(pub Vec<Option<T>>);

impl<T> View for LossyVec<T> {
    type V = Seq<Option<T>>;

    open spec fn view(&self) -> Seq<Option<T>> {
        self.0@
    }
}

impl<T> LossyVec<T> {
    /// Wrap an already-validated slot vector.
    pub fn from(other: Vec<Option<T>>) -> (r: LossyVec<T>)
        ensures
            r@ == other@,
    {
        LossyVec(other)
    }

    /// Borrow the surviving elements, in their original order.
    pub fn iter(&self) -> (r: Vec<&T>)
        ensures
            r@.len() == survivors(self@).len(),
            forall|i: int| 0 <= i < r@.len() ==> *r@[i] == survivors(self@)[i],
    {
        let mut r: Vec<&T> = Vec::new();
        let n = self.0.len();
        let mut j: usize = 0;
        while j < n
            invariant
                n == self@.len(),
                j <= n,
                r@.len() == survivors(self@.take(j as int)).len(),
                forall|i: int|
                    0 <= i < r@.len() ==> *r@[i] == survivors(self@.take(j as int))[i],
            decreases n - j,
        {
            proof {
                lemma_survivors_push(self@.take(j as int), self@[j as int]);
                assert(self@.take(j as int).push(self@[j as int]) =~= self@.take(j + 1));
            }
            match &self.0[j] {
                Some(t) => r.push(t),
                None => (),
            }
            j = j + 1;
        }
        proof {
            assert(self@.take(n as int) =~= self@);
        }
        r
    }
}

impl<T> LossyVec<T> {
    /// Drop the absent slots, keeping the surviving elements in order.
    pub fn purge(self) -> (r: Vec<T>)
        ensures
            r@ == survivors(self@),
    {
        let mut v = self.0;
        let ghost orig = v@;
        let mut r: Vec<T> = Vec::new();
        while v.len() > 0
            invariant
                survivors(orig) == r@ + survivors(v@),
            decreases v@.len(),
        {
            let ghost pre = v@;
            let slot = v.remove(0);
            proof {
                assert(pre.remove(0) =~= pre.drop_first());
            }
            match slot {
                Some(t) => {
                    r.push(t);
                    proof {
                        let ghost rp = r@;
                        assert(rp.drop_last() + seq![t] + survivors(v@) =~= rp + survivors(v@));
                    }
                },
                None => (),
            }
        }
        proof {
            assert(survivors(v@) =~= Seq::<T>::empty());
            assert(r@ + survivors(v@) =~= r@);
        }
        r
    }

    /// Map every surviving element through `f`, keeping the original order
    /// and the same discard policy.
    pub fn purge_map<B, F: Fn(T) -> B>(self, f: F) -> (r: Vec<B>)
        requires
            forall|t: T| call_requires(f, (t,)),
        ensures
            r@.len() == survivors(self@).len(),
            forall|i: int|
                0 <= i < r@.len() ==> call_ensures(f, (survivors(self@)[i],), #[trigger] r@[i]),
    {
        let ghost all = survivors(self@);
        let mut kept = self.purge();
        let mut r: Vec<B> = Vec::new();
        proof {
            assert(all.skip(0) =~= all);
        }
        while kept.len() > 0
            invariant
                r@.len() <= all.len(),
                kept@ == all.skip(r@.len() as int),
                forall|t: T| call_requires(f, (t,)),
                forall|j: int|
                    0 <= j < r@.len() ==> call_ensures(f, (all[j],), #[trigger] r@[j]),
            decreases kept@.len(),
        {
            let ghost i = r@.len() as int;
            let ghost pre = kept@;
            let x = kept.remove(0);
            proof {
                assert(x == all[i]);
                assert(pre.remove(0) =~= pre.drop_first());
                assert(all.skip(i).drop_first() =~= all.skip(i + 1));
            }
            let y = f(x);
            r.push(y);
        }
        r
    }
}

/// Appending a slot extends the survivors by the new element exactly when it
/// is well-formed.
pub proof fn lemma_survivors_push<T>(s: Seq<Option<T>>, x: Option<T>)
    ensures
        survivors(s.push(x)) == match x {
            Some(t) => survivors(s).push(t),
            None => survivors(s),
        },
    decreases s.len(),
{
    let sp = s.push(x);
    if s.len() == 0 {
        reveal_with_fuel(survivors, 2);
        assert(sp.drop_first() =~= Seq::<Option<T>>::empty());
        match x {
            Some(t) => {
                assert(survivors(sp) =~= survivors(s).push(t));
            },
            None => {},
        }
    } else {
        assert(sp.drop_first() =~= s.drop_first().push(x));
        lemma_survivors_push(s.drop_first(), x);
        match s[0] {
            Some(t0) => {
                match x {
                    Some(t) => {
                        assert(survivors(sp) =~= survivors(s).push(t));
                    },
                    None => {},
                }
            },
            None => {},
        }
    }
}

/// Tolerant parsing keeps exactly the well-formed elements: the number of
/// survivors equals the number of valid slots, whatever the mix.
pub proof fn lemma_lossy_tolerance<T>(s: Seq<Option<T>>)
    ensures
        survivors(s).len() == num_valid(s),
    decreases s.len(),
{
    if s.len() > 0 {
        lemma_lossy_tolerance(s.drop_first());
    }
}

} // verus!
