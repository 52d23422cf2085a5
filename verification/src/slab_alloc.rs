//! A fixed table of slab descriptors; a descriptor holding zero is free.

use vstd::prelude::*;

verus! {

/// Number of slabs the allocator manages.
pub const SLAB_COUNT: usize = 1024;

/// The slab table: one usage word per slab, zero meaning free.
#[derive(Debug)]
pub struct SlabAlloc {
    slabs: [usize; 1024],
}

/// The lowest index at which `slabs` holds zero, if any does.
pub open spec fn first_free(slabs: Seq<usize>) -> Option<usize> {
    if exists|i: int| 0 <= i < slabs.len() && slabs[i] == 0 {
        let i = choose|i: int|
            0 <= i < slabs.len() && slabs[i] == 0 && forall|j: int| 0 <= j < i ==> slabs[j] != 0;
        Some(i as usize)
    } else {
        None
    }
}

impl View for SlabAlloc {
    type V = Seq<usize>;

    closed spec fn view(&self) -> Seq<usize> {
        self.slabs@
    }
}

impl SlabAlloc {
    /// A table in which every slab is free.
    pub fn new() -> (s: Self)
        ensures
            s@.len() == SLAB_COUNT,
            forall|i: int| 0 <= i < SLAB_COUNT ==> s@[i] == 0,
    {
        Self { slabs: [0usize; 1024] }
    }

    /// The index of the first free slab, or `None` when every slab is in use.
    pub fn find_free_slab(&self) -> (r: Option<usize>)
        ensures
            self@.len() == SLAB_COUNT,
            r == first_free(self@),
            match r {
                Some(i) => i < SLAB_COUNT && self@[i as int] == 0 && forall|j: int|
                    0 <= j < i ==> self@[j] != 0,
                None => forall|j: int| 0 <= j < SLAB_COUNT ==> self@[j] != 0,
            },
    {
        let mut i: usize = 0;
        while i < SLAB_COUNT
            invariant
                i <= SLAB_COUNT,
                self.slabs@.len() == SLAB_COUNT,
                forall|j: int| 0 <= j < i ==> self.slabs@[j] != 0,
            decreases SLAB_COUNT - i,
        {
            if self.slabs[i] == 0 {
                proof {
                    lemma_first_free_is(self.slabs@, i as int);
                }
                return Some(i);
            }
            i = i + 1;
        }
        None
    }
}

/// When `i` is a free index and every earlier index is in use, `first_free` is `i`.
proof fn lemma_first_free_is(slabs: Seq<usize>, i: int)
    requires
        0 <= i < slabs.len(),
        slabs.len() <= usize::MAX,
        slabs[i] == 0,
        forall|j: int| 0 <= j < i ==> slabs[j] != 0,
    ensures
        first_free(slabs) == Some(i as usize),
{
    let k = choose|k: int|
        0 <= k < slabs.len() && slabs[k] == 0 && forall|j: int| 0 <= j < k ==> slabs[j] != 0;
    assert(0 <= k < slabs.len() && slabs[k] == 0 && forall|j: int| 0 <= j < k ==> slabs[j] != 0);
    if k < i {
        assert(slabs[k] != 0);
    }
    if i < k {
        assert(slabs[i] != 0);
    }
}

/// A table fresh from `new` hands out slab 0 first.
pub proof fn lemma_new_table_first_free(slabs: Seq<usize>)
    requires
        slabs.len() == SLAB_COUNT,
        forall|i: int| 0 <= i < SLAB_COUNT ==> slabs[i] == 0,
    ensures
        first_free(slabs) == Some(0usize),
{
    lemma_first_free_is(slabs, 0);
}

} // verus!
