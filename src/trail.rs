use vstd::prelude::*;

verus! {

/// The last `n` elements of `s`, in their order (all of `s` when it is shorter).
pub open spec fn last_n<T>(s: Seq<T>, n: nat) -> Seq<T> {
    if s.len() <= n {
        s
    } else {
        s.subrange(s.len() - n, s.len() as int)
    }
}

/// What a trail of capacity `m` holds after `pushes` were pushed into an empty
/// one, one at a time, in order.
pub open spec fn pushed_contents<T>(m: nat, pushes: Seq<T>) -> Seq<T>
    decreases pushes.len(),
{
    if pushes.len() == 0 {
        Seq::empty()
    } else {
        last_n(pushed_contents(m, pushes.drop_last()).push(pushes.last()), m)
    }
}

/// A bounded history, oldest first: once full, each push drops the oldest value.
pub struct Trail<T> {
    max_length: usize,
    values: Vec<T>,
}

impl<T> Trail<T> {
    /// The values held, oldest first.
    pub closed spec fn view(&self) -> Seq<T> {
        self.values@
    }

    /// The capacity the trail was made with.
    pub closed spec fn capacity(&self) -> nat {
        self.max_length as nat
    }

    pub closed spec fn wf(&self) -> bool {
        self.values.len() <= self.max_length
    }

    pub fn new(max_length: usize) -> (r: Trail<T>)
        ensures
            r.wf(),
            r.view() == Seq::<T>::empty(),
            r.capacity() == max_length,
    {
        Trail { max_length, values: Vec::new() }
    }

    /// Appends `value`; when the trail is full the oldest value leaves first.
    /// A trail of capacity zero stays empty.
    pub fn push(&mut self, value: T)
        requires
            old(self).wf(),
        ensures
            final(self).wf(),
            final(self).capacity() == old(self).capacity(),
            final(self).view() == last_n(old(self).view().push(value), old(self).capacity()),
    {
        if self.max_length == 0 {
            return;
        }
        if self.values.len() == self.max_length {
            self.values.remove(0);
        }
        self.values.push(value);
        assert(self.values@ =~= last_n(old(self).values@.push(value), old(self).max_length as nat));
    }

    pub fn get_value(&self, idx: usize) -> (r: &T)
        requires
            idx < self.view().len(),
        ensures
            *r == self.view()[idx as int],
    {
        &self.values[idx]
    }

    pub fn get_length(&self) -> (r: usize)
        ensures
            r == self.view().len(),
    {
        self.values.len()
    }

    pub fn get_max_length(&self) -> (r: usize)
        ensures
            r == self.capacity(),
    {
        self.max_length
    }
}

/// Pushing a sequence of values, one at a time, into an empty trail of
/// capacity `m` leaves exactly the last `min(#pushes, m)` of them, oldest first.
pub proof fn lemma_trail_keeps_latest<T>(m: nat, pushes: Seq<T>)
    ensures
        pushed_contents(m, pushes) == last_n(pushes, m),
        pushed_contents(m, pushes).len() == if pushes.len() <= m {
            pushes.len()
        } else {
            m
        },
    decreases pushes.len(),
{
    if pushes.len() > 0 {
        let before = pushes.drop_last();
        lemma_trail_keeps_latest(m, before);
        assert(last_n(before, m).push(pushes.last()) =~= last_n(pushes, m + 1)) by {
            if before.len() > m {
                assert(last_n(before, m).push(pushes.last()) =~= pushes.subrange(
                    pushes.len() - (m + 1),
                    pushes.len() as int,
                ));
            } else {
                assert(before.push(pushes.last()) =~= pushes);
            }
        }
        assert(last_n(last_n(pushes, m + 1), m) =~= last_n(pushes, m));
    }
}

} // verus!
