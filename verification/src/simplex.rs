use vstd::prelude::*;

verus! {

/// Result of assigning `slot[0] := slot[first]` and then `slot[1] := slot[second]`,
/// one after the other, and keeping the first two slots.
///
/// When `second` is 0 the second assignment reads the slot that the first one
/// has just overwritten.
pub open spec fn pair_after_moves<T>(s: Seq<T>, first: int, second: int) -> Seq<T> {
    let n0 = s[first];
    let n1 = if second == 0 { n0 } else { s[second] };
    seq![n0, n1]
}

/// Result of assigning `slot[0] := slot[first]`, `slot[1] := slot[second]` and
/// `slot[2] := slot[third]`, one after the other, and keeping the first three slots.
pub open spec fn triple_after_moves<T>(s: Seq<T>, first: int, second: int, third: int) -> Seq<T> {
    let n0 = s[first];
    let n1 = if second == 0 { n0 } else { s[second] };
    let n2 = if third == 0 {
        n0
    } else if third == 1 {
        n1
    } else {
        s[third]
    };
    seq![n0, n1, n2]
}

/// A simplex of at most four vertices, kept in a fixed array of four slots.
///
/// The slots past the current length keep whatever they held before; only the
/// first `len` slots are part of the simplex.
pub struct Simplex<T> {
    slots: [T; 4],
    len: usize,
}

impl<T> Simplex<T> {
    #[verifier::type_invariant]
    spec fn within_capacity(self) -> bool {
        self.len <= 4
    }

    /// The vertices of the simplex, oldest first.
    pub closed spec fn view(&self) -> Seq<T> {
        self.slots@.subrange(0, self.len as int)
    }

}

impl<T: Copy> Simplex<T> {
    /// An empty simplex whose four slots hold `fill`.
    pub fn new(fill: T) -> (s: Self)
        ensures
            s@ == Seq::<T>::empty(),
    {
        let s = Simplex { slots: [fill, fill, fill, fill], len: 0 };
        assert(s@ =~= Seq::<T>::empty());
        s
    }

    pub fn len(&self) -> (n: usize)
        ensures
            n == self@.len(),
            n <= 4,
    {
        proof {
            use_type_invariant(self);
        }
        self.len
    }

    /// The vertex at position `i`, counted from the oldest.
    pub fn get(&self, i: usize) -> (v: T)
        requires
            i < self@.len(),
        ensures
            v == self@[i as int],
    {
        proof {
            use_type_invariant(self);
        }
        self.slots[i]
    }

    /// Appends a vertex.
    pub fn push(&mut self, v: T)
        requires
            old(self)@.len() < 4,
        ensures
            final(self)@ == old(self)@.push(v),
        no_unwind
    {
        proof {
            use_type_invariant(&*self);
        }
        let n = self.len;
        self.slots[n] = v;
        self.len = n + 1;
        assert(self@ =~= old(self)@.push(v));
    }

    /// Drops the newest vertex.
    pub fn pop(&mut self)
        requires
            old(self)@.len() > 0,
        ensures
            final(self)@ == old(self)@.drop_last(),
        no_unwind
    {
        proof {
            use_type_invariant(&*self);
        }
        self.len = self.len - 1;
        assert(self@ =~= old(self)@.drop_last());
    }

    /// Keeps the single vertex at position `a`.
    pub fn keep_point(&mut self, a: usize)
        requires
            a < old(self)@.len(),
        ensures
            final(self)@ == seq![old(self)@[a as int]],
        no_unwind
    {
        proof {
            use_type_invariant(&*self);
        }
        self.slots[0] = self.slots[a];
        self.len = 1;
        assert(self@ =~= seq![old(self)@[a as int]]);
    }

    /// Moves the vertex at `first` to slot 0, then the vertex at `second` to
    /// slot 1, and keeps these two slots.
    pub fn keep_pair(&mut self, first: usize, second: usize)
        requires
            first < old(self)@.len(),
            second < old(self)@.len(),
        ensures
            final(self)@ == pair_after_moves(old(self)@, first as int, second as int),
        no_unwind
    {
        proof {
            use_type_invariant(&*self);
        }
        self.slots[0] = self.slots[first];
        self.slots[1] = self.slots[second];
        self.len = 2;
        assert(self@ =~= pair_after_moves(old(self)@, first as int, second as int));
    }

    /// Moves the vertices at `first`, `second` and `third` to slots 0, 1 and 2,
    /// in this order, and keeps these three slots.
    pub fn keep_triple(&mut self, first: usize, second: usize, third: usize)
        requires
            first < old(self)@.len(),
            second < old(self)@.len(),
            third < old(self)@.len(),
        ensures
            final(self)@ == triple_after_moves(
                old(self)@,
                first as int,
                second as int,
                third as int,
            ),
        no_unwind
    {
        proof {
            use_type_invariant(&*self);
        }
        self.slots[0] = self.slots[first];
        self.slots[1] = self.slots[second];
        self.slots[2] = self.slots[third];
        self.len = 3;
        assert(self@ =~= triple_after_moves(
            old(self)@,
            first as int,
            second as int,
            third as int,
        ));
    }
}

} // verus!
