//! Physical memory as a window of bytes that starts at a base address.

use vstd::prelude::*;

verus! {

/// A contiguous piece of physical memory.  Byte `i` of the window is the byte
/// at physical address `base + i`.
pub struct PhysMemory {
    base: u64,
    bytes: Vec<u8>,
}

/// Value of the `n` little-endian bytes of `s` that start at `at`.
pub open spec fn spec_le(s: Seq<u8>, at: int, n: nat) -> int
    decreases n,
{
    if n == 0 {
        0
    } else {
        s[at] as int + 256 * spec_le(s, at + 1, (n - 1) as nat)
    }
}

impl View for PhysMemory {
    type V = Seq<u8>;

    /// The bytes of the window, lowest address first.
    closed spec fn view(&self) -> Seq<u8> {
        self.bytes@
    }
}

impl PhysMemory {
    /// Physical address of the first byte.
    pub closed spec fn spec_base(&self) -> u64 {
        self.base
    }

    /// The window ends at or below the top of the address space.
    #[verifier::type_invariant]
    pub open spec fn wf(&self) -> bool {
        self.spec_base() + self@.len() <= u64::MAX
    }

    /// Whether the `len` bytes at `pa` all lie in the window.
    pub open spec fn holds(&self, pa: int, len: int) -> bool {
        self.spec_base() <= pa && 0 <= len && pa + len <= self.spec_base() + self@.len()
    }

    /// The byte at physical address `pa`.
    pub open spec fn byte_at(&self, pa: int) -> u8
        recommends
            self.holds(pa, 1),
    {
        self@[pa - self.spec_base()]
    }

    /// The window `[base, base + bytes.len())`, or `None` where it would run
    /// past the top of the address space.
    pub fn new(base: u64, bytes: Vec<u8>) -> (mem: Option<Self>)
        ensures
            mem is Some <==> base + bytes@.len() <= u64::MAX,
            mem matches Some(m) ==> m.spec_base() == base && m@ == bytes@ && m.wf(),
    {
        let len: usize = bytes.len();
        if len as u128 + base as u128 <= u64::MAX as u128 {
            Some(PhysMemory { base, bytes })
        } else {
            None
        }
    }

    /// Physical address of the first byte.
    pub fn base(&self) -> (b: u64)
        ensures
            b == self.spec_base(),
    {
        self.base
    }

    /// Number of bytes in the window.
    pub fn len(&self) -> (n: usize)
        ensures
            n == self@.len(),
    {
        self.bytes.len()
    }

    /// Whether the `len` bytes at `pa` all lie in the window.
    pub fn contains(&self, pa: u64, len: u64) -> (b: bool)
        ensures
            b == self.holds(pa as int, len as int),
    {
        let n: usize = self.bytes.len();
        pa >= self.base && (pa - self.base) as u128 + len as u128 <= n as u128
    }

    /// Index in the window of the byte at `pa`.
    fn index_of(&self, pa: u64) -> (i: usize)
        requires
            self.holds(pa as int, 0),
        ensures
            i == pa - self.spec_base(),
    {
        let n: usize = self.bytes.len();
        let off: u64 = pa - self.base;
        assert(off <= n);
        off as usize
    }

    /// The byte at `pa`, if the window holds it.
    pub fn read_u8(&self, pa: u64) -> (b: Option<u8>)
        ensures
            b == if self.holds(pa as int, 1) {
                Some(self.byte_at(pa as int))
            } else {
                None::<u8>
            },
    {
        if self.contains(pa, 1) {
            let i: usize = self.index_of(pa);
            Some(self.bytes[i])
        } else {
            None
        }
    }

    /// The little-endian value of the `n` bytes at `pa`, `n` at most eight, if
    /// the window holds them all.
    pub fn read_le(&self, pa: u64, n: u8) -> (v: Option<u64>)
        requires
            n <= 8,
        ensures
            v == if self.holds(pa as int, n as int) {
                Some(spec_le(self@, pa - self.spec_base(), n as nat) as u64)
            } else {
                None::<u64>
            },
            self.holds(pa as int, n as int) ==> 0 <= spec_le(
                self@,
                pa - self.spec_base(),
                n as nat,
            ) <= u64::MAX,
    {
        if !self.contains(pa, n as u64) {
            return None;
        }
        let start: usize = self.index_of(pa);
        proof {
            lemma_le_bound(self@, start as int, n as nat);
            reveal_with_fuel(pow256, 9);
            lemma_pow256_mono(n as nat, 8);
        }
        Some(read_le(self.bytes.as_slice(), start, n))
    }

    /// Writes `src[from..from + len]` to the `len` bytes at `pa`, and says
    /// whether it did.  Nothing is written unless the window holds all of the
    /// destination.
    pub fn write(&mut self, pa: u64, src: &[u8], from: usize, len: usize) -> (done: bool)
        requires
            from + len <= src@.len(),
        ensures
            final(self).spec_base() == old(self).spec_base(),
            done == old(self).holds(pa as int, len as int),
            done ==> final(self)@ == spec_write(
                old(self)@,
                pa - old(self).spec_base(),
                src@.subrange(from as int, from + len),
            ),
            !done ==> final(self)@ == old(self)@,
    {
        if !self.contains(pa, len as u64) {
            return false;
        }
        proof {
            use_type_invariant(&*self);
        }
        let start: usize = self.index_of(pa);
        let total: usize = src.len();
        let size: usize = self.bytes.len();
        let ghost before = self.bytes@;
        let ghost chunk = src@.subrange(from as int, from + len);
        let mut i: usize = 0;
        while i < len
            invariant
                i <= len,
                from + len <= src@.len() == total,
                start + len <= self.bytes@.len(),
                self.bytes@.len() == before.len() == size,
                self.base == old(self).base,
                self.base + before.len() <= u64::MAX,
                chunk == src@.subrange(from as int, from + len),
                self.bytes@ == spec_write(before, start as int, chunk.subrange(0, i as int)),
            decreases len - i,
        {
            let b: u8 = src[from + i];
            self.bytes[start + i] = b;
            i = i + 1;
            assert(self.bytes@ =~= spec_write(before, start as int, chunk.subrange(0, i as int)));
        }
        assert(chunk.subrange(0, len as int) =~= chunk);
        true
    }
}

/// The bytes `mem` with `chunk` written over the bytes from `at` on.
pub open spec fn spec_write(mem: Seq<u8>, at: int, chunk: Seq<u8>) -> Seq<u8> {
    Seq::new(
        mem.len(),
        |i: int|
            if at <= i < at + chunk.len() {
                chunk[i - at]
            } else {
                mem[i]
            },
    )
}

/// `spec_le` of at most eight bytes fits in 64 bits.
pub proof fn lemma_le_bound(s: Seq<u8>, at: int, n: nat)
    ensures
        0 <= spec_le(s, at, n),
        n <= 8 ==> spec_le(s, at, n) < pow256(n),
    decreases n,
{
    if n > 0 {
        lemma_le_bound(s, at + 1, (n - 1) as nat);
        reveal_with_fuel(pow256, 9);
    }
}

/// 256 to the power `n`, for `n` up to eight.
pub open spec fn pow256(n: nat) -> int
    decreases n,
{
    if n == 0 {
        1
    } else {
        256 * pow256((n - 1) as nat)
    }
}

/// The little-endian value of `data[at..at + n]`.
pub fn read_le(data: &[u8], at: usize, n: u8) -> (v: u64)
    requires
        n <= 8,
        at + n <= data@.len(),
    ensures
        v == spec_le(data@, at as int, n as nat),
{
    let total: usize = data.len();
    let mut v: u64 = 0;
    let mut k: u8 = n;
    proof {
        reveal_with_fuel(pow256, 9);
    }
    while k > 0
        invariant
            k <= n <= 8,
            at + n <= data@.len() == total,
            v == spec_le(data@, at + k, (n - k) as nat),
        decreases k,
    {
        k = k - 1;
        let b: u8 = data[at + k as usize];
        proof {
            lemma_le_bound(data@, at + k + 1, (n - k - 1) as nat);
            reveal_with_fuel(pow256, 9);
            assert(pow256((n - k - 1) as nat) <= pow256(7)) by {
                lemma_pow256_mono((n - k - 1) as nat, 7);
            }
        }
        v = v * 256 + b as u64;
    }
    v
}

/// `pow256` grows with its argument.
pub proof fn lemma_pow256_mono(a: nat, b: nat)
    requires
        a <= b,
    ensures
        pow256(a) <= pow256(b),
        pow256(a) >= 1,
    decreases b,
{
    if a < b {
        lemma_pow256_mono(a, (b - 1) as nat);
    } else if a > 0 {
        lemma_pow256_mono((a - 1) as nat, (a - 1) as nat);
    }
}

} // verus!
