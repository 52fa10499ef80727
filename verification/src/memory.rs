//! The code image: the bytes of executable memory that linking patches,
//! addressed as the running program will address them.
//!
//! Numbers are laid out least significant byte first, as every instruction
//! set this linker serves lays them out.

use vstd::prelude::*;

verus! {

/// 256 to the power `n`.
pub open spec fn pow256(n: nat) -> nat
    decreases n,
{
    if n == 0 {
        1
    } else {
        256 * pow256((n - 1) as nat)
    }
}

/// The number that `bytes` spell, least significant byte first.
pub open spec fn le_value(bytes: Seq<u8>) -> nat
    decreases bytes.len(),
{
    if bytes.len() == 0 {
        0
    } else {
        bytes[0] as nat + 256 * le_value(bytes.drop_first())
    }
}

/// The `width` low-order bytes of `value`, least significant first.
pub open spec fn le_bytes(value: nat, width: nat) -> Seq<u8>
    decreases width,
{
    if width == 0 {
        Seq::empty()
    } else {
        seq![(value % 256) as u8] + le_bytes(value / 256, (width - 1) as nat)
    }
}

/// Whether every address from `addr` up to `addr + width` holds a byte.
pub open spec fn mapped(image: Map<int, u8>, addr: int, width: nat) -> bool {
    forall|a: int| addr <= a < addr + width ==> #[trigger] image.dom().contains(a)
}

/// Whether no address from `addr` up to `addr + width` holds a byte.
pub open spec fn unmapped(image: Map<int, u8>, addr: int, width: nat) -> bool {
    forall|a: int| addr <= a < addr + width ==> !#[trigger] image.dom().contains(a)
}

/// The image with `bytes` placed at `addr` and the addresses after it.
pub open spec fn extended(image: Map<int, u8>, addr: int, bytes: Seq<u8>) -> Map<int, u8> {
    Map::new(
        |a: int| image.dom().contains(a) || addr <= a < addr + bytes.len(),
        |a: int|
            if addr <= a < addr + bytes.len() {
                bytes[a - addr]
            } else {
                image[a]
            },
    )
}

/// The `width` bytes of the image that start at `addr`.
pub open spec fn window(image: Map<int, u8>, addr: int, width: nat) -> Seq<u8> {
    Seq::new(width, |k: int| image[addr + k])
}

/// The number held by the `width` bytes at `addr`.
pub open spec fn load(image: Map<int, u8>, addr: int, width: nat) -> nat {
    le_value(window(image, addr, width))
}

/// The image with the `width` bytes at `addr` replaced by the low-order
/// bytes of `value`. No other address changes, and none is added.
pub open spec fn store(image: Map<int, u8>, addr: int, width: nat, value: nat) -> Map<int, u8> {
    Map::new(
        |a: int| image.dom().contains(a),
        |a: int|
            if addr <= a < addr + width {
                le_bytes(value, width)[a - addr]
            } else {
                image[a]
            },
    )
}

/// A run of consecutive bytes and the address of the first one.
struct Region {
    base: usize,
    bytes: Vec<u8>,
}

impl Region {
    spec fn holds(self, a: int) -> bool {
        self.base <= a < self.base + self.bytes.len()
    }
}

/// The code image: for each mapped address, the byte it holds.
pub struct Memory {
    regions: Vec<Region>,
}

impl View for Memory {
    type V = Map<int, u8>;

    /// The byte at each mapped address.
    closed spec fn view(&self) -> Map<int, u8> {
        Map::new(
            |a: int| exists|i: int| 0 <= i < self.regions.len() && #[trigger] self.regions[i].holds(a),
            |a: int|
                {
                    let i = choose|i: int|
                        0 <= i < self.regions.len() && #[trigger] self.regions[i].holds(a);
                    self.regions[i].bytes[a - self.regions[i].base]
                },
        )
    }
}

impl Memory {
    /// Every run holds a byte and lies below the top of the address space,
    /// and no address belongs to two runs.
    pub closed spec fn wf(self) -> bool {
        &&& forall|i: int|
            0 <= i < self.regions.len() ==> 0 < (#[trigger] self.regions[i]).bytes.len()
                && self.regions[i].base + self.regions[i].bytes.len() <= usize::MAX
        &&& forall|i: int, j: int, a: int|
            0 <= i < self.regions.len() && 0 <= j < self.regions.len() && i != j
                && #[trigger] self.regions[i].holds(a) ==> !#[trigger] self.regions[j].holds(a)
    }

    /// Every mapped address is an address of the machine.
    pub proof fn lemma_addresses(self)
        requires
            self.wf(),
        ensures
            forall|a: int| #[trigger] self@.dom().contains(a) ==> 0 <= a < usize::MAX,
    {
    }

    proof fn lemma_byte(self, i: int, a: int)
        requires
            self.wf(),
            0 <= i < self.regions.len(),
            self.regions[i].holds(a),
        ensures
            self@.dom().contains(a),
            self@[a] == self.regions[i].bytes[a - self.regions[i].base],
    {
    }

    /// An image with nothing mapped.
    pub fn new() -> (memory: Memory)
        ensures
            memory.wf(),
            memory@ == Map::<int, u8>::empty(),
    {
        let memory = Memory { regions: Vec::new() };
        assert(memory@ =~= Map::<int, u8>::empty());
        memory
    }

    /// The run that holds `addr`, if one does.
    fn find(&self, addr: usize) -> (found: Option<usize>)
        requires
            self.wf(),
        ensures
            match found {
                Some(i) => i < self.regions.len() && self.regions[i as int].holds(addr as int),
                None => !self@.dom().contains(addr as int),
            },
    {
        let mut i: usize = 0;
        while i < self.regions.len()
            invariant
                i <= self.regions.len(),
                forall|j: int| 0 <= j < i ==> !(#[trigger] self.regions[j]).holds(addr as int),
            decreases self.regions.len() - i,
        {
            let region = &self.regions[i];
            if region.base <= addr && addr - region.base < region.bytes.len() {
                return Some(i);
            }
            i += 1;
        }
        None
    }

    /// The byte at `addr`, if the address is mapped.
    pub fn byte(&self, addr: usize) -> (byte: Option<u8>)
        requires
            self.wf(),
        ensures
            byte == if self@.dom().contains(addr as int) {
                Some(self@[addr as int])
            } else {
                None
            },
    {
        match self.find(addr) {
            Some(i) => {
                proof {
                    self.lemma_byte(i as int, addr as int);
                }
                let region = &self.regions[i];
                Some(region.bytes[addr - region.base])
            },
            None => None,
        }
    }

    /// Replaces the byte at a mapped address.
    fn set_byte(&mut self, addr: usize, byte: u8)
        requires
            old(self).wf(),
            old(self)@.dom().contains(addr as int),
        ensures
            final(self).wf(),
            final(self)@ == old(self)@.insert(addr as int, byte),
    {
        let found = self.find(addr);
        let i = found.unwrap();
        let ghost before = *self;
        let offset = addr - self.regions[i].base;
        self.regions[i].bytes.set(offset, byte);
        proof {
            assert(forall|j: int, a: int|
                0 <= j < self.regions.len() ==> (#[trigger] self.regions[j].holds(a)
                    <==> before.regions[j].holds(a)));
            let after = before@.insert(addr as int, byte);
            before.lemma_byte(i as int, addr as int);
            assert forall|a: int| self@.dom().contains(a) <==> after.dom().contains(a) by {
                if self@.dom().contains(a) {
                    let j = choose|j: int|
                        0 <= j < self.regions.len() && #[trigger] self.regions[j].holds(a);
                    assert(before.regions[j].holds(a));
                }
                if after.dom().contains(a) {
                    let j = choose|j: int|
                        0 <= j < before.regions.len() && #[trigger] before.regions[j].holds(a);
                    assert(self.regions[j].holds(a));
                }
            }
            assert forall|a: int| #[trigger] self@.dom().contains(a) implies self@[a]
                == after[a] by {
                let j = choose|j: int|
                    0 <= j < self.regions.len() && #[trigger] self.regions[j].holds(a);
                self.lemma_byte(j, a);
                before.lemma_byte(j, a);
            }
            assert(self@ =~= before@.insert(addr as int, byte));
        }
    }

    /// Maps `bytes` at `base` and the addresses after it. Nothing is mapped
    /// where one of these addresses is taken already, or lies beyond the
    /// address space.
    pub fn map(&mut self, base: usize, bytes: Vec<u8>) -> (ok: bool)
        requires
            old(self).wf(),
        ensures
            final(self).wf(),
            ok <==> base + bytes@.len() <= usize::MAX && unmapped(
                old(self)@,
                base as int,
                bytes@.len(),
            ),
            ok ==> final(self)@ == extended(old(self)@, base as int, bytes@),
            !ok ==> final(self)@ == old(self)@,
    {
        if bytes.len() > usize::MAX - base {
            return false;
        }
        if bytes.len() == 0 {
            assert(self@ =~= extended(self@, base as int, bytes@));
            return true;
        }
        let end = base + bytes.len();
        let mut i: usize = 0;
        while i < self.regions.len()
            invariant
                self.wf(),
                *self == *old(self),
                base < end,
                i <= self.regions.len(),
                end == base + bytes@.len(),
                forall|j: int, a: int|
                    0 <= j < i && base <= a < end ==> !#[trigger] self.regions[j].holds(a),
            decreases self.regions.len() - i,
        {
            let region = &self.regions[i];
            if region.base < end && base < region.base + region.bytes.len() {
                proof {
                    let a = if base >= region.base {
                        base as int
                    } else {
                        region.base as int
                    };
                    self.lemma_byte(i as int, a);
                }
                return false;
            }
            i += 1;
        }
        let ghost before = *self;
        let ghost content = bytes@;
        self.regions.push(Region { base, bytes });
        proof {
            let n = before.regions.len() as int;
            assert(forall|j: int| 0 <= j < n ==> self.regions[j] == before.regions[j]);
            assert(self.regions[n].bytes@ == content);
            let after = extended(before@, base as int, content);
            assert forall|a: int| self@.dom().contains(a) <==> after.dom().contains(a) by {
                if self@.dom().contains(a) {
                    let j = choose|j: int|
                        0 <= j < self.regions.len() && #[trigger] self.regions[j].holds(a);
                    if j < n {
                        assert(before.regions[j].holds(a));
                    }
                }
                if after.dom().contains(a) {
                    if base <= a < base + content.len() {
                        assert(self.regions[n].holds(a));
                    } else {
                        let j = choose|j: int|
                            0 <= j < before.regions.len() && #[trigger] before.regions[j].holds(a);
                        assert(self.regions[j].holds(a));
                    }
                }
            }
            assert forall|a: int| #[trigger] self@.dom().contains(a) implies self@[a]
                == after[a] by {
                let j = choose|j: int|
                    0 <= j < self.regions.len() && #[trigger] self.regions[j].holds(a);
                self.lemma_byte(j, a);
                if j < n {
                    before.lemma_byte(j, a);
                }
            }
            assert(self@ =~= after);
        }
        true
    }

    /// Tells whether every address from `addr` up to `addr + width` is mapped.
    pub fn is_mapped(&self, addr: usize, width: usize) -> (all: bool)
        requires
            self.wf(),
        ensures
            all == mapped(self@, addr as int, width as nat),
    {
        proof {
            self.lemma_addresses();
        }
        let mut k: usize = 0;
        while k < width
            invariant
                self.wf(),
                k <= width,
                mapped(self@, addr as int, k as nat),
                forall|a: int| #[trigger] self@.dom().contains(a) ==> 0 <= a < usize::MAX,
            decreases width - k,
        {
            if k > usize::MAX - addr {
                assert(!self@.dom().contains(addr + k));
                return false;
            }
            if self.find(addr + k).is_none() {
                return false;
            }
            k += 1;
        }
        true
    }

    /// The number held by the `width` bytes at `addr`.
    pub fn load(&self, addr: usize, width: usize) -> (value: u64)
        requires
            self.wf(),
            width <= 8,
            mapped(self@, addr as int, width as nat),
        ensures
            value == load(self@, addr as int, width as nat),
    {
        proof {
            self.lemma_addresses();
        }
        let ghost bytes = window(self@, addr as int, width as nat);
        let mut value: u64 = 0;
        let mut i: usize = width;
        assert(bytes.subrange(width as int, width as int) =~= Seq::<u8>::empty());
        while i > 0
            invariant
                self.wf(),
                i <= width <= 8,
                mapped(self@, addr as int, width as nat),
                bytes == window(self@, addr as int, width as nat),
                value == le_value(bytes.subrange(i as int, width as int)),
                forall|a: int| #[trigger] self@.dom().contains(a) ==> 0 <= a < usize::MAX,
            decreases i,
        {
            proof {
                let tail = bytes.subrange(i as int, width as int);
                lemma_le_value_bound(tail);
                lemma_pow256_increases(tail.len(), 7);
                lemma_pow256_values();
                assert(pow256(8) == 256 * pow256(7)) by {
                    reveal_with_fuel(pow256, 2);
                }
                assert(self@.dom().contains(addr + i - 1));
                let longer = bytes.subrange(i - 1, width as int);
                assert(longer.drop_first() =~= tail);
            }
            i -= 1;
            let byte = self.byte(addr + i).unwrap();
            value = value * 256 + byte as u64;
        }
        assert(bytes.subrange(0, width as int) =~= bytes);
        value
    }

    /// Writes the `width` low-order bytes of `value` at `addr`.
    pub fn store(&mut self, addr: usize, width: usize, value: u64)
        requires
            old(self).wf(),
            mapped(old(self)@, addr as int, width as nat),
        ensures
            final(self).wf(),
            final(self)@ == store(old(self)@, addr as int, width as nat, value as nat),
    {
        proof {
            self.lemma_addresses();
            lemma_le_bytes_len(value as nat, width as nat);
        }
        let ghost bytes = le_bytes(value as nat, width as nat);
        let mut rest: u64 = value;
        let mut i: usize = 0;
        assert(self@ =~= store(old(self)@, addr as int, 0, value as nat));
        while i < width
            invariant
                self.wf(),
                i <= width,
                bytes == le_bytes(value as nat, width as nat),
                bytes.len() == width,
                mapped(old(self)@, addr as int, width as nat),
                forall|a: int| #[trigger] old(self)@.dom().contains(a) ==> 0 <= a < usize::MAX,
                forall|k: int|
                    i <= k < width ==> bytes[k] == le_bytes(rest as nat, (width - i) as nat)[k
                        - i],
                self@.dom() == old(self)@.dom(),
                forall|a: int| #[trigger]
                    self@.dom().contains(a) ==> self@[a] == if addr <= a < addr + i {
                        bytes[a - addr]
                    } else {
                        old(self)@[a]
                    },
            decreases width - i,
        {
            assert(old(self)@.dom().contains(addr + i));
            let ghost before = self@;
            let ghost here = le_bytes(rest as nat, (width - i) as nat);
            self.set_byte(addr + i, (rest % 256) as u8);
            proof {
                let next = le_bytes((rest / 256) as nat, (width - i - 1) as nat);
                lemma_le_bytes_len(rest as nat, (width - i) as nat);
                lemma_le_bytes_len((rest / 256) as nat, (width - i - 1) as nat);
                assert(here == seq![(rest as nat % 256) as u8] + next);
                assert(here[0] == (rest % 256) as u8);
                assert forall|k: int| i + 1 <= k < width implies bytes[k] == next[k - i - 1] by {
                    assert(here[k - i] == next[k - i - 1]);
                }
                assert(self@.dom() =~= old(self)@.dom());
            }
            rest = rest / 256;
            i += 1;
        }
        assert(self@ =~= store(old(self)@, addr as int, width as nat, value as nat));
    }

    /// The `len` bytes at `addr`, if all of them are mapped.
    pub fn bytes(&self, addr: usize, len: usize) -> (bytes: Option<Vec<u8>>)
        requires
            self.wf(),
        ensures
            mapped(self@, addr as int, len as nat) ==> bytes is Some && bytes.unwrap()@ == window(
                self@,
                addr as int,
                len as nat,
            ),
            !mapped(self@, addr as int, len as nat) ==> bytes is None,
    {
        if !self.is_mapped(addr, len) {
            return None;
        }
        proof {
            self.lemma_addresses();
        }
        let mut bytes: Vec<u8> = Vec::new();
        let mut k: usize = 0;
        while k < len
            invariant
                self.wf(),
                k <= len,
                mapped(self@, addr as int, len as nat),
                forall|a: int| #[trigger] self@.dom().contains(a) ==> 0 <= a < usize::MAX,
                bytes@ == window(self@, addr as int, k as nat),
            decreases len - k,
        {
            assert(self@.dom().contains(addr + k));
            let byte = self.byte(addr + k).unwrap();
            bytes.push(byte);
            assert(bytes@ =~= window(self@, addr as int, (k + 1) as nat));
            k += 1;
        }
        Some(bytes)
    }
}

/// The powers of 256 that bound a window of four and of eight bytes.
pub proof fn lemma_pow256_values()
    ensures
        pow256(0) == 1,
        pow256(4) == 0x1_0000_0000,
        pow256(8) == 0x1_0000_0000_0000_0000,
{
    reveal_with_fuel(pow256, 9);
}

/// A power of 256 is positive and grows with the exponent.
pub proof fn lemma_pow256_increases(a: nat, b: nat)
    requires
        a <= b,
    ensures
        0 < pow256(a) <= pow256(b),
    decreases b,
{
    if a < b {
        lemma_pow256_increases(a, (b - 1) as nat);
    } else if a > 0 {
        lemma_pow256_increases((a - 1) as nat, (b - 1) as nat);
    }
}

/// Bytes spell a number below 256 to the power of their count.
pub proof fn lemma_le_value_bound(bytes: Seq<u8>)
    ensures
        le_value(bytes) < pow256(bytes.len()),
    decreases bytes.len(),
{
    if bytes.len() > 0 {
        lemma_le_value_bound(bytes.drop_first());
    }
}

/// A number laid out over `width` bytes takes `width` bytes.
pub proof fn lemma_le_bytes_len(value: nat, width: nat)
    ensures
        le_bytes(value, width).len() == width,
    decreases width,
{
    if width > 0 {
        lemma_le_bytes_len(value / 256, (width - 1) as nat);
    }
}

/// Writing a number and reading it back gives the number reduced to the
/// width written.
pub proof fn lemma_le_value_of_bytes(value: nat, width: nat)
    ensures
        le_value(le_bytes(value, width)) == value % pow256(width),
    decreases width,
{
    if width > 0 {
        let rest = le_bytes(value / 256, (width - 1) as nat);
        let bytes = le_bytes(value, width);
        lemma_le_value_of_bytes(value / 256, (width - 1) as nat);
        lemma_le_bytes_len(value / 256, (width - 1) as nat);
        assert(bytes.drop_first() =~= rest);
        let p = pow256((width - 1) as nat);
        lemma_pow256_increases(0, (width - 1) as nat);
        vstd::arithmetic::div_mod::lemma_breakdown(value as int, 256, p as int);
        vstd::arithmetic::mul::lemma_mul_is_commutative(256, p as int);
    }
}

/// A store changes no address outside the bytes it writes, and maps none.
pub proof fn lemma_store_is_local(image: Map<int, u8>, addr: int, width: nat, value: nat)
    ensures
        store(image, addr, width, value).dom() == image.dom(),
        forall|a: int|
            image.dom().contains(a) && !(addr <= a < addr + width) ==> #[trigger] store(
                image,
                addr,
                width,
                value,
            )[a] == image[a],
{
    assert(store(image, addr, width, value).dom() =~= image.dom());
}

/// The bytes that a store leaves at the place it wrote.
pub proof fn lemma_window_after_store(image: Map<int, u8>, addr: int, width: nat, value: nat)
    requires
        mapped(image, addr, width),
    ensures
        window(store(image, addr, width, value), addr, width) == le_bytes(value, width),
{
    lemma_le_bytes_len(value, width);
    assert(window(store(image, addr, width, value), addr, width) =~= le_bytes(value, width));
}

/// Reading where a store wrote gives the number stored, if it fits the
/// width.
pub proof fn lemma_load_after_store(image: Map<int, u8>, addr: int, width: nat, value: nat)
    requires
        mapped(image, addr, width),
        value < pow256(width),
    ensures
        load(store(image, addr, width, value), addr, width) == value,
{
    lemma_window_after_store(image, addr, width, value);
    lemma_le_value_of_bytes(value, width);
    vstd::arithmetic::div_mod::lemma_small_mod(value, pow256(width));
}

/// Reading apart from where a store wrote gives what was there before.
pub proof fn lemma_load_apart_from_store(
    image: Map<int, u8>,
    addr: int,
    width: nat,
    value: nat,
    other: int,
    other_width: nat,
)
    requires
        mapped(image, other, other_width),
        other + other_width <= addr || addr + width <= other,
    ensures
        load(store(image, addr, width, value), other, other_width) == load(
            image,
            other,
            other_width,
        ),
{
    assert(window(store(image, addr, width, value), other, other_width) =~= window(
        image,
        other,
        other_width,
    ));
}

} // verus!
