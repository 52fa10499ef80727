//! Position independence: code whose records bake in no absolute address
//! links to the same bytes wherever it is placed.

use vstd::prelude::*;
use crate::allocation::{entry, FunctionExtent};
use crate::link::{Layout, Linking, Patch};
use crate::memory::{lemma_le_bytes_len, window};
use crate::relocation::{Relocation, RelocationKind, RelocationTarget};

verus! {

/// The image with every byte `by` addresses further on.
pub open spec fn moved_image(image: Map<int, u8>, by: int) -> Map<int, u8> {
    Map::new(|a: int| image.dom().contains(a - by), |a: int| image[a - by])
}

/// The record of `RiscvPCRelHi20` distances with every instruction `by`
/// addresses further on.
pub open spec fn moved_pairs(hi20s: Map<usize, u32>, by: int) -> Map<usize, u32> {
    Map::new(
        |k: usize| 0 <= k - by <= usize::MAX && hi20s.dom().contains((k - by) as usize),
        |k: usize| hi20s[(k - by) as usize],
    )
}

impl Linking {
    /// The state with every address `by` further on.
    pub open spec fn moved(self, by: int) -> Linking {
        Linking { image: moved_image(self.image, by), hi20s: moved_pairs(self.hi20s, by) }
    }

    /// Whether every instruction on record stays in the address space when
    /// moved by `by`.
    pub open spec fn pairs_movable(self, by: int) -> bool {
        forall|k: usize| #[trigger] self.hi20s.dom().contains(k) ==> 0 <= k + by <= usize::MAX
    }
}

impl Layout {
    /// Whether every function and every section stays in the address space
    /// when moved by `by`.
    pub open spec fn movable(self, by: int) -> bool {
        &&& forall|i: int|
            0 <= i < self.functions.len() ==> 0 <= (#[trigger] self.functions[i]).ptr + by
                <= usize::MAX
        &&& forall|i: int|
            0 <= i < self.sections.len() ==> 0 <= #[trigger] self.sections[i] + by <= usize::MAX
    }

    /// The placement with every function and every section `by` addresses
    /// further on. The runtime library routines stay where they are.
    pub open spec fn moved(self, by: int) -> Layout {
        Layout {
            functions: Seq::new(
                self.functions.len(),
                |i: int|
                    FunctionExtent {
                        ptr: (self.functions[i].ptr + by) as usize,
                        length: self.functions[i].length,
                    },
            ),
            sections: Seq::new(self.sections.len(), |i: int| (self.sections[i] + by) as usize),
            libcalls: self.libcalls,
            trampolines: self.trampolines,
            trampoline_len: self.trampoline_len,
        }
    }
}

impl Relocation {
    /// Whether the record bakes in no absolute address: it encodes a
    /// distance, or is the lower half of a RISC-V pair, and does not reach
    /// a runtime library routine directly.
    pub open spec fn relocatable(self) -> bool {
        &&& self.kind.is_pc_relative() || self.kind == RelocationKind::RiscvPCRelLo12I
        &&& !(self.reloc_target is LibCall && self.kind.reaches_libcalls())
    }
}

/// Whether every record of the stream is relocatable.
pub open spec fn stream_relocatable(stream: Seq<(u32, Vec<Relocation>)>) -> bool {
    forall|i: int, j: int|
        0 <= i < stream.len() && 0 <= j < stream[i].1@.len() ==> (#[trigger] stream[i].1@[j]).relocatable()
}

/// What a 64-bit value keeps when cut to the width of an address: its
/// residue modulo the size of the address space.
pub proof fn lemma_address_of_value(value: u64)
    ensures
        (value as usize) as int == (value as int) % (usize::MAX + 1),
{
    assert((value as usize) as u64 == value % 0x1_0000_0000 || (value as usize) as u64 == value)
        by (bit_vector);
    if usize::MAX != 0xffff_ffff {
        assert(value as usize == value);
    }
}

/// A value that names an address names, when moved, the address moved.
proof fn lemma_key_moves(value: u64, by: int)
    requires
        0 <= value + by <= u64::MAX,
        0 <= (value as usize) + by <= usize::MAX,
    ensures
        ((value + by) as u64) as usize == (value as usize) + by,
{
    let m = usize::MAX + 1;
    let k = (value as usize) as int;
    lemma_address_of_value(value);
    lemma_address_of_value((value + by) as u64);
    vstd::arithmetic::div_mod::lemma_fundamental_div_mod(value as int, m);
    vstd::arithmetic::div_mod::lemma_mod_multiples_vanish((value as int) / m, k + by, m);
    assert(value + by == m * ((value as int) / m) + (k + by));
    vstd::arithmetic::div_mod::lemma_small_mod((k + by) as nat, m as nat);
}

/// The target of a relocatable record moves with the placement.
proof fn lemma_target_moves(
    layout: Layout,
    kind: RelocationKind,
    target: RelocationTarget,
    by: int,
)
    requires
        layout.movable(by),
        !(target is LibCall && kind.reaches_libcalls()),
        layout.resolve(kind, target) is Ok,
        layout.moved(by).resolve(kind, target) is Ok,
    ensures
        layout.moved(by).resolve(kind, target).unwrap() == layout.resolve(kind, target).unwrap()
            + by,
{
    match target {
        RelocationTarget::LocalFunction(index) => {
            assert(entry(layout.moved(by).functions, index) is Some);
            assert(layout.moved(by).functions[index as int].ptr == (
            layout.functions[index as int].ptr + by) as usize);
        },
        RelocationTarget::CustomSection(index) => {
            assert(entry(layout.moved(by).sections, index) is Some);
            assert(layout.moved(by).sections[index as int] == (layout.sections[index as int]
                + by) as usize);
        },
        RelocationTarget::LibCall(id) => {
            let index = layout.trampolines;
            assert(entry(layout.moved(by).sections, index) is Some);
            assert(layout.moved(by).sections[index as int] == (layout.sections[index as int]
                + by) as usize);
        },
    }
}

/// The body that a stream names moves with the placement.
proof fn lemma_body_moves(layout: Layout, sections: bool, index: u32, by: int)
    requires
        layout.movable(by),
        layout.body(sections, index) is Ok,
    ensures
        layout.moved(by).body(sections, index) is Ok,
        layout.moved(by).body(sections, index).unwrap().0 == layout.body(
            sections,
            index,
        ).unwrap().0 + by,
        layout.moved(by).body(sections, index).unwrap().1 == layout.body(
            sections,
            index,
        ).unwrap().1,
{
    if sections {
        assert(layout.moved(by).sections[index as int] == (layout.sections[index as int]
            + by) as usize);
    } else {
        assert(layout.moved(by).functions[index as int].ptr == (
        layout.functions[index as int].ptr + by) as usize);
    }
}

/// The patch of a relocatable record moves with the placement: its site
/// moves, its value stays, but for the lower half of a RISC-V pair, whose
/// value names an instruction and moves with it.
proof fn lemma_patch_moves(
    layout: Layout,
    body: usize,
    body_len: Option<usize>,
    r: Relocation,
    by: int,
)
    requires
        layout.movable(by),
        0 <= body + by <= usize::MAX,
        r.relocatable(),
        layout.locate(body, body_len, r) is Ok,
        layout.moved(by).locate((body + by) as usize, body_len, r) is Ok,
    ensures
        ({
            let here = layout.locate(body, body_len, r).unwrap();
            let there = layout.moved(by).locate((body + by) as usize, body_len, r).unwrap();
            &&& there.kind == here.kind
            &&& there.site == here.site + by
            &&& here.kind == RelocationKind::RiscvPCRelLo12I ==> there.value == here.value + by
            &&& here.kind != RelocationKind::RiscvPCRelLo12I ==> there.value == here.value
        }),
{
    lemma_target_moves(layout, r.kind, r.reloc_target, by);
}

/// Encoding is blind to the place: a patch encoded in a state moved leaves
/// the state that it leaves unmoved, moved.
proof fn lemma_encoding_moves(state: Linking, here: Patch, there: Patch, by: int)
    requires
        state.pairs_movable(by),
        here.kind.is_supported(),
        there.kind == here.kind,
        there.site == here.site + by,
        here.kind == RelocationKind::RiscvPCRelLo12I ==> there.value == here.value + by,
        here.kind != RelocationKind::RiscvPCRelLo12I ==> there.value == here.value,
        state.refusal(here) is None,
    ensures
        state.moved(by).refusal(there) is None,
        state.moved(by).patched(there) == state.patched(here).moved(by),
        state.patched(here).pairs_movable(by),
{
    let width = here.kind.patch_width();
    let far = state.moved(by);
    if here.kind == RelocationKind::RiscvPCRelLo12I {
        lemma_key_moves(here.value, by);
        assert(there.key() == here.key() + by);
        assert(far.hi20s.dom().contains(there.key()));
    }
    assert(far.paired(there) == state.paired(here));
    assert(window(far.image, there.site as int, width) =~= window(
        state.image,
        here.site as int,
        width,
    ));
    assert(far.window(there) == state.window(here));
    let new = here.kind.patched(state.window(here), here.value, state.paired(here));
    assert(there.kind.patched(far.window(there), there.value, far.paired(there)) == new) by {
        if here.kind == RelocationKind::RiscvPCRelLo12I {
            assert(here.kind.field_bits(here.value, state.paired(here)) == here.kind.field_bits(
                there.value,
                state.paired(here),
            ));
        }
    }
    lemma_le_bytes_len(new as nat, width);
    assert(far.patched(there).image =~= state.patched(here).moved(by).image);
    assert(far.patched(there).hi20s =~= state.patched(here).moved(by).hi20s) by {
        if here.kind == RelocationKind::RiscvPCRelHi20 {
            assert forall|k: usize|
                far.patched(there).hi20s.dom().contains(k) <==> state.patched(here).moved(
                    by,
                ).hi20s.dom().contains(k) by {
                if k == there.site {
                    assert((k - by) as usize == here.site);
                }
            }
        }
    }
}

/// The records of one body, where they bake in no absolute address, do the
/// same to the body wherever it is placed.
pub proof fn lemma_body_is_position_independent(
    layout: Layout,
    state: Linking,
    body: usize,
    body_len: Option<usize>,
    records: Seq<Relocation>,
    by: int,
)
    requires
        layout.movable(by),
        0 <= body + by <= usize::MAX,
        state.pairs_movable(by),
        forall|i: int| 0 <= i < records.len() ==> (#[trigger] records[i]).relocatable(),
        layout.apply_all(state, body, body_len, records).1 is None,
        layout.moved(by).apply_all(state.moved(by), (body + by) as usize, body_len, records).1 is None,
    ensures
        layout.moved(by).apply_all(state.moved(by), (body + by) as usize, body_len, records).0
            == layout.apply_all(state, body, body_len, records).0.moved(by),
        layout.apply_all(state, body, body_len, records).0.pairs_movable(by),
    decreases records.len(),
{
    if records.len() > 0 {
        let r = records[0];
        let rest = records.drop_first();
        let here = layout.locate(body, body_len, r).unwrap();
        let there = layout.moved(by).locate((body + by) as usize, body_len, r).unwrap();
        lemma_patch_moves(layout, body, body_len, r, by);
        lemma_encoding_moves(state, here, there, by);
        assert forall|i: int| 0 <= i < rest.len() implies (#[trigger] rest[i]).relocatable() by {
            assert(rest[i] == records[i + 1]);
        }
        lemma_body_is_position_independent(
            layout,
            state.patched(here),
            body,
            body_len,
            rest,
            by,
        );
    }
}

/// One pass, where the records bake in no absolute address, does the same
/// to the code wherever it is placed.
pub proof fn lemma_pass_is_position_independent(
    layout: Layout,
    state: Linking,
    sections: bool,
    stream: Seq<(u32, Vec<Relocation>)>,
    by: int,
)
    requires
        layout.movable(by),
        state.pairs_movable(by),
        stream_relocatable(stream),
        layout.pass(state, sections, stream).1 is None,
        layout.moved(by).pass(state.moved(by), sections, stream).1 is None,
    ensures
        layout.moved(by).pass(state.moved(by), sections, stream).0 == layout.pass(
            state,
            sections,
            stream,
        ).0.moved(by),
        layout.pass(state, sections, stream).0.pairs_movable(by),
    decreases stream.len(),
{
    if stream.len() > 0 {
        let rest = stream.drop_first();
        let body = layout.body(sections, stream[0].0).unwrap();
        let records = stream[0].1@;
        lemma_body_moves(layout, sections, stream[0].0, by);
        assert forall|j: int| 0 <= j < records.len() implies (#[trigger] records[j]).relocatable() by {
            assert(stream[0].1@[j].relocatable());
        }
        lemma_body_is_position_independent(layout, state, body.0, body.1, records, by);
        assert forall|i: int, j: int| 0 <= i < rest.len() && 0 <= j < rest[i].1@.len() implies (
        #[trigger] rest[i].1@[j]).relocatable() by {
            assert(rest[i] == stream[i + 1]);
            assert(stream[i + 1].1@[j].relocatable());
        }
        lemma_pass_is_position_independent(
            layout,
            layout.apply_all(state, body.0, body.1, records).0,
            sections,
            rest,
            by,
        );
    }
}

/// Position independence: two invocations on the same code placed `by`
/// addresses apart, with the same records, none of which bakes in an
/// absolute address, leave the same bytes.
pub proof fn lemma_link_is_position_independent(
    layout: Layout,
    image: Map<int, u8>,
    function_relocations: Seq<(u32, Vec<Relocation>)>,
    section_relocations: Seq<(u32, Vec<Relocation>)>,
    by: int,
)
    requires
        layout.movable(by),
        stream_relocatable(function_relocations),
        stream_relocatable(section_relocations),
        layout.link(image, function_relocations, section_relocations).1 is None,
        layout.moved(by).link(moved_image(image, by), function_relocations, section_relocations).1 is None,
    ensures
        layout.moved(by).link(moved_image(image, by), function_relocations, section_relocations).0
            == moved_image(layout.link(image, function_relocations, section_relocations).0, by),
{
    let start = Linking { image, hi20s: Map::empty() };
    let far = Linking { image: moved_image(image, by), hi20s: Map::empty() };
    assert(far.hi20s =~= start.moved(by).hi20s);
    assert(far == start.moved(by));
    lemma_pass_is_position_independent(layout, start, true, section_relocations, by);
    let middle = layout.pass(start, true, section_relocations).0;
    lemma_pass_is_position_independent(layout, middle, false, function_relocations, by);
}

} // verus!
