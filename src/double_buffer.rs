use vstd::prelude::*;

verus! {

/// Copies `src` element by element.
pub fn copy_cells<T: Copy>(src: &[T]) -> (r: Vec<T>)
    ensures
        r@ == src@,
{
    let mut r: Vec<T> = Vec::with_capacity(src.len());
    let mut i: usize = 0;
    while i < src.len()
        invariant
            i <= src@.len(),
            r@ == src@.subrange(0, i as int),
        decreases src@.len() - i,
    {
        r.push(src[i]);
        i = i + 1;
        assert(r@ =~= src@.subrange(0, i as int));
    }
    assert(r@ =~= src@);
    r
}

/// A mutable copy and an immutable copy of the same data.
///
/// Readers see the immutable copy, which holds the data as of the last
/// flush; writers change the mutable copy.
pub struct DataDoubleBuffer<T> {
    mut_data: Vec<T>,
    imm_data: Vec<T>,
}

/// What a [`DataDoubleBuffer`] holds: the data being written and the data
/// last flushed.
pub struct BufferPair<T> {
    pub written: Seq<T>,
    pub flushed: Seq<T>,
}

impl<T> View for DataDoubleBuffer<T> {
    type V = BufferPair<T>;

    closed spec fn view(&self) -> BufferPair<T> {
        BufferPair { written: self.mut_data@, flushed: self.imm_data@ }
    }
}

impl<T: Copy> DataDoubleBuffer<T> {
    pub open spec fn wf(&self) -> bool {
        self@.written.len() == self@.flushed.len()
    }

    pub fn new(data: Vec<T>) -> (r: Self)
        ensures
            r.wf(),
            r@.written == data@,
            r@.flushed == data@,
    {
        DataDoubleBuffer { mut_data: copy_cells(data.as_slice()), imm_data: data }
    }

    /// The data being written, for the caller to change in place.
    pub fn get_mut(&mut self) -> (r: &mut [T])
        ensures
            r@ == old(self)@.written,
            final(self)@.written == final(r)@,
            final(self)@.flushed == old(self)@.flushed,
    {
        self.mut_data.as_mut_slice()
    }

    /// The data as of the last flush.
    pub fn get_imm(&self) -> (r: &[T])
        ensures
            r@ == self@.flushed,
    {
        self.imm_data.as_slice()
    }

    /// A copy of the data being written.
    pub fn get_clone(&self) -> (r: Vec<T>)
        ensures
            r@ == self@.written,
    {
        copy_cells(self.mut_data.as_slice())
    }

    pub fn len(&self) -> (r: usize)
        ensures
            r == self@.written.len(),
    {
        self.mut_data.len()
    }

    /// Makes the flushed copy equal to the written one.
    pub fn flush(&mut self)
        requires
            old(self).wf(),
        ensures
            final(self).wf(),
            final(self)@.written == old(self)@.written,
            final(self)@.flushed == old(self)@.written,
    {
        let n = self.mut_data.len();
        let mut i: usize = 0;
        while i < n
            invariant
                n == self.mut_data@.len(),
                self.imm_data@.len() == n,
                self.mut_data@ == old(self).mut_data@,
                i <= n,
                forall|j: int| 0 <= j < i ==> self.imm_data@[j] == self.mut_data@[j],
            decreases n - i,
        {
            let v = self.mut_data[i];
            self.imm_data.set(i, v);
            i = i + 1;
        }
        assert(self.imm_data@ =~= self.mut_data@);
    }
}

} // verus!
