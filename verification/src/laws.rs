//! What holds of linking, whatever the records and the placement.

use vstd::prelude::*;
use crate::allocation::{entry, trampoline_address};
use crate::encoding::{
    lemma_hi20_lo12_reassembles, lemma_movw_reassembles, lemma_outside_field_unchanged,
    lemma_patched_fits, lemma_patched_twice, sign_extend12,
};
use crate::link::{Layout, LinkError, Linking, Patch};
use crate::memory::{
    lemma_le_value_bound, lemma_load_after_store, lemma_load_apart_from_store,
    lemma_pow256_values, lemma_store_is_local, load, mapped, window,
};
use crate::relocation::{Relocation, RelocationKind, RelocationTarget};

verus! {

/// Locality of a patch: encoding changes the bytes of the window at the
/// patch site and no other, and maps no address.
pub proof fn lemma_patch_is_local(state: Linking, patch: Patch)
    ensures
        state.patched(patch).image.dom() == state.image.dom(),
        forall|a: int|
            state.image.dom().contains(a) && !patch.touches(a) ==> #[trigger] state.patched(
                patch,
            ).image[a] == state.image[a],
{
    let new = patch.kind.patched(state.window(patch), patch.value, state.paired(patch));
    lemma_store_is_local(state.image, patch.site as int, patch.kind.patch_width(), new as nat);
}

/// Where a located patch lies: at the record's offset from the start of the
/// body and, where the body has a length, within the body.
pub proof fn lemma_patch_lies_in_body(
    layout: Layout,
    body: usize,
    body_len: Option<usize>,
    r: Relocation,
)
    requires
        layout.locate(body, body_len, r) is Ok,
    ensures
        ({
            let patch = layout.locate(body, body_len, r).unwrap();
            &&& patch.kind == r.kind
            &&& patch.site == body + r.offset
            &&& body_len is Some ==> forall|a: int| #[trigger]
                patch.touches(a) ==> body <= a < body + body_len.unwrap()
        }),
{
}

/// Locality of a record: a record applied to a body changes no byte outside
/// its window at `body + offset`, so none outside the extent of the body,
/// and maps no address.
pub proof fn lemma_relocation_is_local(
    layout: Layout,
    state: Linking,
    body: usize,
    body_len: Option<usize>,
    r: Relocation,
)
    requires
        layout.apply(state, body, body_len, r) is Ok,
    ensures
        ({
            let next = layout.apply(state, body, body_len, r).unwrap();
            &&& next.image.dom() == state.image.dom()
            &&& forall|a: int|
                state.image.dom().contains(a) && !(body + r.offset <= a < body + r.offset
                    + r.kind.patch_width()) ==> #[trigger] next.image[a] == state.image[a]
            &&& body_len is Some ==> forall|a: int|
                state.image.dom().contains(a) && !(body <= a < body + body_len.unwrap())
                    ==> #[trigger] next.image[a] == state.image[a]
        }),
{
    let patch = layout.locate(body, body_len, r).unwrap();
    lemma_patch_lies_in_body(layout, body, body_len, r);
    lemma_patch_is_local(state, patch);
    let next = state.patched(patch);
    assert forall|a: int|
        state.image.dom().contains(a) && !(body + r.offset <= a < body + r.offset
            + r.kind.patch_width()) implies #[trigger] next.image[a] == state.image[a] by {
        assert(!patch.touches(a));
    }
    if body_len is Some {
        assert forall|a: int|
            state.image.dom().contains(a) && !(body <= a < body
                + body_len.unwrap()) implies #[trigger] next.image[a] == state.image[a] by {
            assert(!patch.touches(a));
        }
    }
}

/// Locality of a body: the records of one body change no byte that is not
/// in the window of one of them, so none outside the extent of the body,
/// and map no address; whether or not all of them are applied.
pub proof fn lemma_body_is_local(
    layout: Layout,
    state: Linking,
    body: usize,
    body_len: Option<usize>,
    records: Seq<Relocation>,
)
    ensures
        ({
            let end = layout.apply_all(state, body, body_len, records).0;
            &&& end.image.dom() == state.image.dom()
            &&& forall|a: int|
                state.image.dom().contains(a) && (forall|i: int|
                    0 <= i < records.len() ==> !(body + (#[trigger] records[i]).offset <= a < body
                        + records[i].offset + records[i].kind.patch_width())) ==> #[trigger] end.image[a]
                    == state.image[a]
            &&& body_len is Some ==> forall|a: int|
                state.image.dom().contains(a) && !(body <= a < body + body_len.unwrap())
                    ==> #[trigger] end.image[a] == state.image[a]
        }),
    decreases records.len(),
{
    if records.len() > 0 {
        match layout.apply(state, body, body_len, records[0]) {
            Err(_) => {},
            Ok(next) => {
                let rest = records.drop_first();
                let end = layout.apply_all(next, body, body_len, rest).0;
                lemma_relocation_is_local(layout, state, body, body_len, records[0]);
                lemma_body_is_local(layout, next, body, body_len, rest);
                assert forall|a: int|
                    state.image.dom().contains(a) && (forall|i: int|
                        0 <= i < records.len() ==> !(body + (#[trigger] records[i]).offset <= a
                            < body + records[i].offset
                            + records[i].kind.patch_width())) implies #[trigger] end.image[a]
                    == state.image[a] by {
                    assert(!(body + records[0].offset <= a < body + records[0].offset
                        + records[0].kind.patch_width()));
                    assert forall|i: int| 0 <= i < rest.len() implies !(body + (
                    #[trigger] rest[i]).offset <= a < body + rest[i].offset
                        + rest[i].kind.patch_width()) by {
                        assert(rest[i] == records[i + 1]);
                    }
                }
            },
        }
    }
}

/// Linking maps no address and unmaps none.
pub proof fn lemma_pass_maps_nothing(
    layout: Layout,
    state: Linking,
    sections: bool,
    stream: Seq<(u32, Vec<Relocation>)>,
)
    ensures
        layout.pass(state, sections, stream).0.image.dom() == state.image.dom(),
    decreases stream.len(),
{
    if stream.len() > 0 {
        match layout.body(sections, stream[0].0) {
            Err(_) => {},
            Ok(body) => {
                lemma_body_is_local(layout, state, body.0, body.1, stream[0].1@);
                let run = layout.apply_all(state, body.0, body.1, stream[0].1@);
                if run.1 is None {
                    lemma_pass_maps_nothing(layout, run.0, sections, stream.drop_first());
                }
            },
        }
    }
}

/// The pass over the functions changes no byte outside the extents of the
/// functions whose records it is given.
pub proof fn lemma_function_pass_is_local(
    layout: Layout,
    state: Linking,
    stream: Seq<(u32, Vec<Relocation>)>,
)
    ensures
        forall|a: int|
            state.image.dom().contains(a) && outside_functions(layout, stream, a)
                ==> #[trigger] layout.pass(state, false, stream).0.image[a] == state.image[a],
    decreases stream.len(),
{
    if stream.len() > 0 {
        match layout.body(false, stream[0].0) {
            Err(_) => {},
            Ok(body) => {
                lemma_body_is_local(layout, state, body.0, body.1, stream[0].1@);
                let run = layout.apply_all(state, body.0, body.1, stream[0].1@);
                let rest = stream.drop_first();
                if run.1 is None {
                    lemma_function_pass_is_local(layout, run.0, rest);
                }
                assert forall|a: int|
                    state.image.dom().contains(a) && outside_functions(
                        layout,
                        stream,
                        a,
                    ) implies #[trigger] layout.pass(state, false, stream).0.image[a]
                    == state.image[a] by {
                    assert(!in_function(layout, stream[0].0, a));
                    assert forall|i: int| 0 <= i < rest.len() implies !#[trigger] in_function(
                        layout,
                        rest[i].0,
                        a,
                    ) by {
                        assert(!in_function(layout, stream[i + 1].0, a));
                    }
                    assert(run.0.image[a] == state.image[a]);
                    if run.1 is None {
                        assert(outside_functions(layout, rest, a));
                        assert(layout.pass(run.0, false, rest).0.image[a] == run.0.image[a]);
                        assert(layout.pass(state, false, stream) == layout.pass(
                            run.0,
                            false,
                            rest,
                        ));
                    }
                }
            },
        }
    }
}

/// Whether `a` lies in the extent of none of the functions that `stream`
/// names.
pub open spec fn outside_functions(
    layout: Layout,
    stream: Seq<(u32, Vec<Relocation>)>,
    a: int,
) -> bool {
    forall|i: int| 0 <= i < stream.len() ==> !#[trigger] in_function(layout, stream[i].0, a)
}

/// Whether `a` lies in the extent of the function with local index `index`.
pub open spec fn in_function(layout: Layout, index: u32, a: int) -> bool {
    match entry(layout.functions, index) {
        Some(extent) => extent.ptr <= a < extent.ptr + extent.length,
        None => false,
    }
}

/// The window at the patch site holds, once the patch is encoded, the
/// patched number.
pub proof fn lemma_window_after_patch(state: Linking, patch: Patch)
    requires
        patch.kind.is_supported(),
        state.refusal(patch) is None,
    ensures
        state.patched(patch).window(patch) == patch.kind.patched(
            state.window(patch),
            patch.value,
            state.paired(patch),
        ),
{
    let width = patch.kind.patch_width();
    let old = state.window(patch);
    let new = patch.kind.patched(old, patch.value, state.paired(patch));
    lemma_le_value_bound(window(state.image, patch.site as int, width));
    lemma_pow256_values();
    if width == 4 {
        lemma_patched_fits(patch.kind, old, patch.value, state.paired(patch));
    }
    lemma_load_after_store(state.image, patch.site as int, width, new as nat);
}

/// Mask preservation: in the window at the patch site, the bits outside the
/// field of the kind are the same after the patch as before.
pub proof fn lemma_patch_preserves_mask(state: Linking, patch: Patch)
    requires
        patch.kind.is_supported(),
        state.refusal(patch) is None,
    ensures
        state.patched(patch).window(patch) & !patch.kind.field_mask() == state.window(patch)
            & !patch.kind.field_mask(),
{
    lemma_window_after_patch(state, patch);
    lemma_outside_field_unchanged(
        patch.kind,
        state.window(patch),
        patch.value,
        state.paired(patch),
    );
}

/// Idempotence of a patch: encoding a patch a second time changes nothing.
pub proof fn lemma_patch_is_idempotent(state: Linking, patch: Patch)
    requires
        patch.kind.is_supported(),
        state.refusal(patch) is None,
    ensures
        state.patched(patch).refusal(patch) is None,
        state.patched(patch).patched(patch) == state.patched(patch),
{
    let once = state.patched(patch);
    let twice = once.patched(patch);
    lemma_patch_is_local(state, patch);
    lemma_window_after_patch(state, patch);
    assert(once.paired(patch) == state.paired(patch));
    lemma_patched_twice(patch.kind, state.window(patch), patch.value, state.paired(patch));
    assert(twice.image =~= once.image);
    assert(twice.hi20s =~= once.hi20s);
}

/// How a runtime library routine is reached: a relocation of a kind that
/// holds a whole address resolves to the routine itself, any other to the
/// routine's trampoline, which lies `id` times the trampoline length into
/// the trampoline section.
pub proof fn lemma_libcall_resolution(layout: Layout, kind: RelocationKind, id: u32)
    ensures
        kind == RelocationKind::Abs8 || kind == RelocationKind::X86PCRel8 ==> (id
            < layout.libcalls.len() ==> layout.resolve(kind, RelocationTarget::LibCall(id)) == Ok::<
            usize,
            LinkError,
        >(layout.libcalls[id as int])),
        kind != RelocationKind::Abs8 && kind != RelocationKind::X86PCRel8 ==> (entry(
            layout.sections,
            layout.trampolines,
        ) is Some && entry(layout.sections, layout.trampolines).unwrap() + id
            * layout.trampoline_len <= usize::MAX ==> layout.resolve(
            kind,
            RelocationTarget::LibCall(id),
        ) == Ok::<usize, LinkError>(
            (entry(layout.sections, layout.trampolines).unwrap() + id * layout.trampoline_len) as usize,
        )),
{
}

/// The window of one patch is the same before and after another patch that
/// keeps apart from it.
pub proof fn lemma_window_apart_from_patch(state: Linking, patch: Patch, other: Patch)
    requires
        mapped(state.image, other.site as int, other.kind.patch_width()),
        other.site + other.kind.patch_width() <= patch.site || patch.site
            + patch.kind.patch_width() <= other.site,
    ensures
        state.patched(patch).window(other) == state.window(other),
{
    let new = patch.kind.patched(state.window(patch), patch.value, state.paired(patch));
    lemma_load_apart_from_store(
        state.image,
        patch.site as int,
        patch.kind.patch_width(),
        new as nat,
        other.site as int,
        other.kind.patch_width(),
    );
}

/// A window of four bytes holds a number of 32 bits.
pub proof fn lemma_window_fits(state: Linking, patch: Patch)
    requires
        patch.kind.patch_width() == 4,
    ensures
        state.window(patch) <= 0xffff_ffff,
{
    lemma_le_value_bound(window(state.image, patch.site as int, 4));
    lemma_pow256_values();
}

/// The RISC-V pair: a `RiscvPCRelHi20` for a distance of at most 32 bits,
/// followed by the `RiscvPCRelLo12I` that names its instruction, leaves in
/// two instructions whose immediates were empty a pair that materialises
/// the distance: the upper immediate shifted left by twelve, plus the lower
/// immediate sign-extended, is the distance again in 32-bit arithmetic.
pub proof fn lemma_riscv_pair_links(state: Linking, hi: Patch, lo: Patch)
    requires
        hi.kind == RelocationKind::RiscvPCRelHi20,
        lo.kind == RelocationKind::RiscvPCRelLo12I,
        lo.key() == hi.site,
        hi.value <= 0xffff_ffff,
        hi.site + 4 <= lo.site || lo.site + 4 <= hi.site,
        mapped(state.image, hi.site as int, 4),
        mapped(state.image, lo.site as int, 4),
        state.window(hi) & 0xffff_f000 == 0,
        state.window(lo) & 0xfff0_0000 == 0,
    ensures
        state.refusal(hi) is None,
        state.patched(hi).refusal(lo) is None,
        ({
            let end = state.patched(hi).patched(lo);
            let upper = end.window(hi) >> 12;
            let lower = end.window(lo) >> 20;
            (upper * 0x1000 + sign_extend12(lower)) % 0x1_0000_0000
        }) == hi.value,
{
    let middle = state.patched(hi);
    let end = middle.patched(lo);
    lemma_patch_is_local(state, hi);
    assert(mapped(middle.image, lo.site as int, 4));
    assert(mapped(middle.image, hi.site as int, 4));
    lemma_window_after_patch(state, hi);
    lemma_window_apart_from_patch(state, hi, lo);
    lemma_window_after_patch(middle, lo);
    lemma_window_apart_from_patch(middle, lo, hi);
    lemma_window_fits(state, hi);
    lemma_window_fits(state, lo);
    assert(middle.paired(lo) == hi.value as u32);
    assert(RelocationKind::RiscvPCRelLo12I.patched(state.window(lo), lo.value, hi.value as u32)
        == RelocationKind::RiscvPCRelLo12I.patched(state.window(lo), 0, hi.value as u32));
    lemma_hi20_lo12_reassembles(hi.value, state.window(hi), state.window(lo));
}

/// The four `Arm64Movw` kinds, encoded for one 64-bit target in four
/// instructions whose immediates were empty, leave four 16-bit immediates
/// that spell the target when put side by side at bits 0, 16, 32 and 48.
pub proof fn lemma_movw_links(state: Linking, w0: Patch, w1: Patch, w2: Patch, w3: Patch)
    requires
        w0.kind == RelocationKind::Arm64Movw0,
        w1.kind == RelocationKind::Arm64Movw1,
        w2.kind == RelocationKind::Arm64Movw2,
        w3.kind == RelocationKind::Arm64Movw3,
        w0.value == w1.value == w2.value == w3.value,
        forall|a: int|
            !(w0.touches(a) && w1.touches(a)) && !(w0.touches(a) && w2.touches(a)) && !(
            w0.touches(a) && w3.touches(a)) && !(w1.touches(a) && w2.touches(a)) && !(
            w1.touches(a) && w3.touches(a)) && !(w2.touches(a) && w3.touches(a)),
        mapped(state.image, w0.site as int, 4),
        mapped(state.image, w1.site as int, 4),
        mapped(state.image, w2.site as int, 4),
        mapped(state.image, w3.site as int, 4),
        state.window(w0) & 0x001f_ffe0 == 0,
        state.window(w1) & 0x001f_ffe0 == 0,
        state.window(w2) & 0x001f_ffe0 == 0,
        state.window(w3) & 0x001f_ffe0 == 0,
    ensures
        ({
            let end = state.patched(w0).patched(w1).patched(w2).patched(w3);
            let imm0 = (end.window(w0) >> 5) & 0xffff;
            let imm1 = (end.window(w1) >> 5) & 0xffff;
            let imm2 = (end.window(w2) >> 5) & 0xffff;
            let imm3 = (end.window(w3) >> 5) & 0xffff;
            imm0 | (imm1 << 16) | (imm2 << 32) | (imm3 << 48)
        }) == w0.value,
{
    let s1 = state.patched(w0);
    let s2 = s1.patched(w1);
    let s3 = s2.patched(w2);
    let s4 = s3.patched(w3);
    assert(w0.touches(w0.site as int) && w1.touches(w1.site as int) && w2.touches(
        w2.site as int,
    ) && w3.touches(w3.site as int));
    lemma_patch_is_local(state, w0);
    lemma_patch_is_local(s1, w1);
    lemma_patch_is_local(s2, w2);
    lemma_patch_is_local(s3, w3);
    // windows as they are when their patch is encoded
    lemma_window_apart_from_patch(state, w0, w1);
    lemma_window_apart_from_patch(state, w0, w2);
    lemma_window_apart_from_patch(state, w0, w3);
    lemma_window_apart_from_patch(s1, w1, w2);
    lemma_window_apart_from_patch(s1, w1, w3);
    lemma_window_apart_from_patch(s2, w2, w3);
    // windows once their patch is encoded
    lemma_window_after_patch(state, w0);
    lemma_window_after_patch(s1, w1);
    lemma_window_after_patch(s2, w2);
    lemma_window_after_patch(s3, w3);
    lemma_window_apart_from_patch(s1, w1, w0);
    lemma_window_apart_from_patch(s2, w2, w0);
    lemma_window_apart_from_patch(s3, w3, w0);
    lemma_window_apart_from_patch(s2, w2, w1);
    lemma_window_apart_from_patch(s3, w3, w1);
    lemma_window_apart_from_patch(s3, w3, w2);
    lemma_movw_reassembles(
        w0.value,
        state.window(w0),
        state.window(w1),
        state.window(w2),
        state.window(w3),
    );
}

/// Position independence of a distance: where the body and the target move
/// together, a PC-relative kind encodes the same value as before, and any
/// other kind the former value moved as far.
pub proof fn lemma_value_under_displacement(r: Relocation, body: usize, target: u64, by: int)
    requires
        0 <= body + by <= usize::MAX,
        0 <= target + by <= u64::MAX,
        r.address_defined(body, target),
        r.address_defined((body + by) as usize, (target + by) as u64),
    ensures
        r.site((body + by) as usize) == r.site(body) + by,
        r.kind.is_pc_relative() ==> r.value((body + by) as usize, (target + by) as u64) == r.value(
            body,
            target,
        ),
        !r.kind.is_pc_relative() ==> r.value((body + by) as usize, (target + by) as u64)
            == r.value(body, target) + by,
{
}

} // verus!
