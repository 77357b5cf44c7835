use vstd::prelude::*;

verus! {

/// A key paired with its value, as handed out by map iteration helpers.
pub struct KeyValue<K, V> {
    pub key: K,
    pub value: V,
}

/// A manual iterator: `has_next` peeks, `next` consumes. It owns its
/// elements and hands them out in order.
pub struct Iter<T> {
    items: Vec<T>,
    pos: usize,
}

impl<T> Iter<T> {
    /// The elements not yet handed out.
    pub closed spec fn remaining(&self) -> Seq<T> {
        self.items@.skip(self.pos as int)
    }

    /// The position never passes the end.
    pub closed spec fn wf(&self) -> bool {
        self.pos <= self.items@.len()
    }

    pub fn from_vec(items: Vec<T>) -> (it: Iter<T>)
        ensures
            it.wf(),
            it.remaining() == items@,
    {
        let it = Iter { items, pos: 0 };
        proof {
            assert(it.remaining() =~= it.items@);
        }
        it
    }

    pub fn has_next(&self) -> (r: bool)
        requires
            self.wf(),
        ensures
            r == (self.remaining().len() > 0),
    {
        self.pos < self.items.len()
    }

    /// The next element; the iterator must not be exhausted.
    pub fn next(&mut self) -> (r: &T)
        requires
            old(self).wf(),
            old(self).remaining().len() > 0,
        ensures
            final(self).wf(),
            *r == old(self).remaining().first(),
            final(self).remaining() == old(self).remaining().drop_first(),
    {
        let i = self.pos;
        let n = self.items.len();
        proof {
            assert(i < n);
        }
        self.pos = self.pos + 1;
        proof {
            assert(self.remaining() =~= old(self).remaining().drop_first());
        }
        &self.items[i]
    }
}

} // verus!
