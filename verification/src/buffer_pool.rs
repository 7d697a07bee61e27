//! Reuse of read buffers: two pools, standard and high-throughput, each keeping at
//! most a fixed number of emptied buffers.
use vstd::prelude::*;

verus! {

/// The most buffers a pool keeps.
pub const MAX_POOL_SIZE: usize = 1024;

/// A new empty buffer with room for `capacity` bytes.
///
/// Calls `Vec::with_capacity`. Claimed, as std documents: the vector is empty.
#[verifier::external_body]
fn vec_with_capacity(capacity: usize) -> (v: Vec<u8>)
    ensures
        v@.len() == 0,
{
    Vec::with_capacity(capacity)
}

/// The room a buffer has.
///
/// Calls `Vec::capacity`. Claimed, as std documents: at least the length.
#[verifier::external_body]
fn vec_capacity(v: &Vec<u8>) -> (n: usize)
    ensures
        n >= v@.len(),
{
    v.capacity()
}

/// Pools of read buffers.
pub struct BufferPool {
    standard_size: usize,
    high_throughput_size: usize,
    standard_pool: Vec<Vec<u8>>,
    high_throughput_pool: Vec<Vec<u8>>,
    max_pool_size: usize,
}

/// A buffer taken from a pool.
pub struct PooledBuffer {
    buffer: Vec<u8>,
    is_high_throughput: bool,
}

/// Every pooled buffer is empty.
pub open spec fn all_empty(p: Seq<Vec<u8>>) -> bool {
    forall|i: int| 0 <= i < p.len() ==> (#[trigger] p[i])@.len() == 0
}

impl BufferPool {
    #[verifier::type_invariant]
    spec fn inv(self) -> bool {
        &&& self.standard_pool@.len() <= self.max_pool_size
        &&& self.high_throughput_pool@.len() <= self.max_pool_size
        &&& all_empty(self.standard_pool@)
        &&& all_empty(self.high_throughput_pool@)
    }

    /// Buffers kept for standard mode.
    pub closed spec fn standard_count(&self) -> nat {
        self.standard_pool@.len()
    }

    /// Buffers kept for high-throughput mode.
    pub closed spec fn high_count(&self) -> nat {
        self.high_throughput_pool@.len()
    }

    /// The most buffers each pool keeps.
    pub closed spec fn limit(&self) -> usize {
        self.max_pool_size
    }

    /// Empty pools for buffers of the two sizes, keeping at most 1024 each.
    pub fn new(standard_size: usize, high_throughput_size: usize) -> (p: BufferPool)
        ensures
            p.standard_count() == 0,
            p.high_count() == 0,
            p.limit() == MAX_POOL_SIZE,
    {
        BufferPool {
            standard_size,
            high_throughput_size,
            standard_pool: Vec::new(),
            high_throughput_pool: Vec::new(),
            max_pool_size: MAX_POOL_SIZE,
        }
    }

    /// An empty standard buffer: a kept one if there is one, else a new one.
    pub fn get_standard(&mut self) -> (b: PooledBuffer)
        ensures
            b.contents().len() == 0,
            !b.is_high(),
            final(self).standard_count() == if old(self).standard_count() > 0 {
                (old(self).standard_count() - 1) as nat
            } else {
                0
            },
            final(self).high_count() == old(self).high_count(),
            final(self).limit() == old(self).limit(),
    {
        proof {
            use_type_invariant(&*self);
        }
        let mut pool: Vec<Vec<u8>> = Vec::new();
        std::mem::swap(&mut pool, &mut self.standard_pool);
        let buffer = match pool.pop() {
            Some(b) => b,
            None => vec_with_capacity(self.standard_size),
        };
        self.standard_pool = pool;
        PooledBuffer { buffer, is_high_throughput: false }
    }

    /// An empty high-throughput buffer: a kept one if there is one, else a new one.
    pub fn get_high_throughput(&mut self) -> (b: PooledBuffer)
        ensures
            b.contents().len() == 0,
            b.is_high(),
            final(self).high_count() == if old(self).high_count() > 0 {
                (old(self).high_count() - 1) as nat
            } else {
                0
            },
            final(self).standard_count() == old(self).standard_count(),
            final(self).limit() == old(self).limit(),
    {
        proof {
            use_type_invariant(&*self);
        }
        let mut pool: Vec<Vec<u8>> = Vec::new();
        std::mem::swap(&mut pool, &mut self.high_throughput_pool);
        let buffer = match pool.pop() {
            Some(b) => b,
            None => vec_with_capacity(self.high_throughput_size),
        };
        self.high_throughput_pool = pool;
        PooledBuffer { buffer, is_high_throughput: true }
    }

    /// Empties a buffer and keeps it in its pool, unless the pool is full.
    pub fn return_buffer(&mut self, buffer: Vec<u8>, is_high_throughput: bool)
        ensures
            final(self).limit() == old(self).limit(),
            is_high_throughput ==> final(self).standard_count() == old(self).standard_count()
                && final(self).high_count() == if old(self).high_count() < old(self).limit() {
                old(self).high_count() + 1
            } else {
                old(self).high_count()
            },
            !is_high_throughput ==> final(self).high_count() == old(self).high_count()
                && final(self).standard_count() == if old(self).standard_count() < old(self).limit() {
                old(self).standard_count() + 1
            } else {
                old(self).standard_count()
            },
    {
        proof {
            use_type_invariant(&*self);
        }
        let mut buffer = buffer;
        buffer.clear();
        let mut pool: Vec<Vec<u8>> = Vec::new();
        if is_high_throughput {
            std::mem::swap(&mut pool, &mut self.high_throughput_pool);
        } else {
            std::mem::swap(&mut pool, &mut self.standard_pool);
        }
        if pool.len() < self.max_pool_size {
            pool.push(buffer);
        }
        if is_high_throughput {
            self.high_throughput_pool = pool;
        } else {
            self.standard_pool = pool;
        }
    }
}

impl PooledBuffer {
    /// The bytes in the buffer.
    pub closed spec fn contents(&self) -> Seq<u8> {
        self.buffer@
    }

    /// Whether the buffer belongs to the high-throughput pool.
    pub closed spec fn is_high(&self) -> bool {
        self.is_high_throughput
    }

    /// The buffer, for change.
    pub fn as_mut(&mut self) -> (r: &mut Vec<u8>)
        ensures
            r@ == old(self).contents(),
            final(self).contents() == final(r)@,
            final(self).is_high() == old(self).is_high(),
    {
        &mut self.buffer
    }

    /// The room the buffer has.
    pub fn capacity(&self) -> (n: usize)
        ensures
            n >= self.contents().len(),
    {
        vec_capacity(&self.buffer)
    }

    /// The bytes, for good.
    pub fn freeze(self) -> (v: Vec<u8>)
        ensures
            v@ == self.contents(),
    {
        self.buffer
    }

    /// The buffer itself.
    pub fn into_inner(self) -> (v: Vec<u8>)
        ensures
            v@ == self.contents(),
    {
        self.buffer
    }
}

} // verus!
