//! Instruction-word layouts: which bits each relocation kind owns and how an
//! address is folded into them.
//!
//! Every supported kind patches a window of four or eight bytes at the patch
//! site. The window is read as one little-endian number, `old`; the bits that
//! the kind owns are its *field*; the number written back is `patched`.

use vstd::prelude::*;
use crate::relocation::{Relocation, RelocationKind};

verus! {

impl RelocationKind {
    /// Number of bytes patched at the patch site; 0 for a kind that the
    /// linker does not support.
    pub open spec fn patch_width(self) -> nat {
        match self {
            RelocationKind::Abs8
            | RelocationKind::X86PCRel8
            | RelocationKind::RiscvCall
            | RelocationKind::LArchCall36 => 8,
            RelocationKind::X86PCRel4
            | RelocationKind::X86CallPCRel4
            | RelocationKind::Arm64Call
            | RelocationKind::Arm64Movw0
            | RelocationKind::Arm64Movw1
            | RelocationKind::Arm64Movw2
            | RelocationKind::Arm64Movw3
            | RelocationKind::RiscvPCRelHi20
            | RelocationKind::RiscvPCRelLo12I
            | RelocationKind::LArchAbsHi20
            | RelocationKind::LArchAbsLo12
            | RelocationKind::LArchAbs64Hi12
            | RelocationKind::LArchAbs64Lo20
            | RelocationKind::LArchPCAlaHi20
            | RelocationKind::LArchPCAlaLo12
            | RelocationKind::LArchPCAla64Hi12
            | RelocationKind::LArchPCAla64Lo20
            | RelocationKind::Aarch64AdrPrelPgHi21
            | RelocationKind::Aarch64AdrPrelLo21
            | RelocationKind::Aarch64AddAbsLo12Nc
            | RelocationKind::Aarch64Ldst64AbsLo12Nc
            | RelocationKind::Aarch64Ldst128AbsLo12Nc => 4,
            _ => 0,
        }
    }

    /// Whether the linker can apply a relocation of this kind.
    pub open spec fn is_supported(self) -> bool {
        self.patch_width() != 0
    }

    /// The bits of the window that a relocation of this kind may change.
    pub open spec fn field_mask(self) -> u64 {
        match self {
            RelocationKind::Abs8 | RelocationKind::X86PCRel8 => 0xffff_ffff_ffff_ffff,
            RelocationKind::X86PCRel4 | RelocationKind::X86CallPCRel4 => 0xffff_ffff,
            // imm26, bits 0 to 25
            RelocationKind::Arm64Call => 0x03ff_ffff,
            // imm16, bits 5 to 20
            RelocationKind::Arm64Movw0
            | RelocationKind::Arm64Movw1
            | RelocationKind::Arm64Movw2
            | RelocationKind::Arm64Movw3 => 0x001f_ffe0,
            // imm20, bits 12 to 31
            RelocationKind::RiscvPCRelHi20 => 0xffff_f000,
            // imm12, bits 20 to 31
            RelocationKind::RiscvPCRelLo12I => 0xfff0_0000,
            // imm20 of the first instruction, imm12 of the second
            RelocationKind::RiscvCall => 0xfff0_0000_ffff_f000,
            // si20, bits 5 to 24
            RelocationKind::LArchAbsHi20
            | RelocationKind::LArchPCAlaHi20
            | RelocationKind::LArchAbs64Lo20
            | RelocationKind::LArchPCAla64Lo20 => 0x01ff_ffe0,
            // si12, bits 10 to 21
            RelocationKind::LArchAbsLo12
            | RelocationKind::LArchPCAlaLo12
            | RelocationKind::LArchAbs64Hi12
            | RelocationKind::LArchPCAla64Hi12 => 0x003f_fc00,
            // si20 of the first instruction, offs16 (bits 10 to 25) of the second
            RelocationKind::LArchCall36 => 0x03ff_fc00_01ff_ffe0,
            // immlo, bits 29 and 30; immhi, bits 5 to 23
            RelocationKind::Aarch64AdrPrelPgHi21 | RelocationKind::Aarch64AdrPrelLo21 => 0x60ff_ffe0,
            // imm12, bits 10 to 21
            RelocationKind::Aarch64AddAbsLo12Nc
            | RelocationKind::Aarch64Ldst64AbsLo12Nc
            | RelocationKind::Aarch64Ldst128AbsLo12Nc => 0x003f_fc00,
            _ => 0,
        }
    }

    /// Whether the field is cleared before the immediate is placed. Where it
    /// is not, the immediate is merged into what the field already holds.
    pub open spec fn overwrites(self) -> bool {
        match self {
            RelocationKind::Abs8
            | RelocationKind::X86PCRel4
            | RelocationKind::X86PCRel8
            | RelocationKind::X86CallPCRel4
            | RelocationKind::Arm64Call
            | RelocationKind::Aarch64AdrPrelPgHi21
            | RelocationKind::Aarch64AdrPrelLo21
            | RelocationKind::Aarch64AddAbsLo12Nc
            | RelocationKind::Aarch64Ldst64AbsLo12Nc
            | RelocationKind::Aarch64Ldst128AbsLo12Nc => true,
            _ => false,
        }
    }

    /// The immediate of this kind for `value`, shifted to its place in the
    /// window. `paired` is the distance recorded by the matching
    /// `RiscvPCRelHi20`; only `RiscvPCRelLo12I` reads it.
    pub open spec fn field_bits(self, value: u64, paired: u32) -> u64 {
        match self {
            RelocationKind::Abs8 | RelocationKind::X86PCRel8 => value,
            RelocationKind::X86PCRel4 | RelocationKind::X86CallPCRel4 => value & 0xffff_ffff,
            RelocationKind::Arm64Call => (value / 4) & 0x03ff_ffff,
            RelocationKind::Arm64Movw0 => (value & 0xffff) << 5,
            RelocationKind::Arm64Movw1 => ((value >> 16) & 0xffff) << 5,
            RelocationKind::Arm64Movw2 => ((value >> 32) & 0xffff) << 5,
            RelocationKind::Arm64Movw3 => ((value >> 48) & 0xffff) << 5,
            RelocationKind::RiscvPCRelHi20 => rounded_hi20(value),
            RelocationKind::RiscvPCRelLo12I => ((paired & 0xfff) as u64) << 20,
            RelocationKind::RiscvCall => ((value & 0xfff) << 52) | rounded_hi20(value),
            RelocationKind::LArchAbsHi20 | RelocationKind::LArchPCAlaHi20 => ((value >> 12)
                & 0xf_ffff) << 5,
            RelocationKind::LArchAbsLo12 | RelocationKind::LArchPCAlaLo12 => (value & 0xfff) << 10,
            RelocationKind::LArchAbs64Hi12 | RelocationKind::LArchPCAla64Hi12 => ((value >> 52)
                & 0xfff) << 10,
            RelocationKind::LArchAbs64Lo20 | RelocationKind::LArchPCAla64Lo20 => ((value >> 32)
                & 0xf_ffff) << 5,
            RelocationKind::LArchCall36 => (((value >> 18) & 0xf_ffff) << 5) | (((value >> 2)
                & 0xffff) << 42),
            RelocationKind::Aarch64AdrPrelPgHi21 => (((value >> 12) & 0b11) << 29) | (((value
                >> 14) & 0x7_ffff) << 5),
            RelocationKind::Aarch64AdrPrelLo21 => ((value & 0b11) << 29) | (((value >> 2)
                & 0x7_ffff) << 5),
            RelocationKind::Aarch64AddAbsLo12Nc => (value & 0xfff) << 10,
            RelocationKind::Aarch64Ldst64AbsLo12Nc => ((value & 0xfff) >> 3) << 10,
            RelocationKind::Aarch64Ldst128AbsLo12Nc => ((value & 0xfff) >> 4) << 10,
            _ => 0,
        }
    }

    /// The window after a relocation of this kind: `old` with the field
    /// replaced by, or merged with, the immediate for `value`.
    pub open spec fn patched(self, old: u64, value: u64, paired: u32) -> u64 {
        if self.overwrites() {
            (old & !self.field_mask()) | self.field_bits(value, paired)
        } else {
            old | self.field_bits(value, paired)
        }
    }

    /// Number of bytes patched at the patch site; 0 for a kind that the
    /// linker does not support.
    pub fn width(self) -> (w: usize)
        ensures
            w == self.patch_width(),
            w == 0 || w == 4 || w == 8,
    {
        match self {
            RelocationKind::Abs8
            | RelocationKind::X86PCRel8
            | RelocationKind::RiscvCall
            | RelocationKind::LArchCall36 => 8,
            RelocationKind::X86PCRel4
            | RelocationKind::X86CallPCRel4
            | RelocationKind::Arm64Call
            | RelocationKind::Arm64Movw0
            | RelocationKind::Arm64Movw1
            | RelocationKind::Arm64Movw2
            | RelocationKind::Arm64Movw3
            | RelocationKind::RiscvPCRelHi20
            | RelocationKind::RiscvPCRelLo12I
            | RelocationKind::LArchAbsHi20
            | RelocationKind::LArchAbsLo12
            | RelocationKind::LArchAbs64Hi12
            | RelocationKind::LArchAbs64Lo20
            | RelocationKind::LArchPCAlaHi20
            | RelocationKind::LArchPCAlaLo12
            | RelocationKind::LArchPCAla64Hi12
            | RelocationKind::LArchPCAla64Lo20
            | RelocationKind::Aarch64AdrPrelPgHi21
            | RelocationKind::Aarch64AdrPrelLo21
            | RelocationKind::Aarch64AddAbsLo12Nc
            | RelocationKind::Aarch64Ldst64AbsLo12Nc
            | RelocationKind::Aarch64Ldst128AbsLo12Nc => 4,
            _ => 0,
        }
    }

    /// The bits of the window that a relocation of this kind may change.
    pub fn mask(self) -> (m: u64)
        ensures
            m == self.field_mask(),
    {
        match self {
            RelocationKind::Abs8 | RelocationKind::X86PCRel8 => 0xffff_ffff_ffff_ffff,
            RelocationKind::X86PCRel4 | RelocationKind::X86CallPCRel4 => 0xffff_ffff,
            RelocationKind::Arm64Call => 0x03ff_ffff,
            RelocationKind::Arm64Movw0
            | RelocationKind::Arm64Movw1
            | RelocationKind::Arm64Movw2
            | RelocationKind::Arm64Movw3 => 0x001f_ffe0,
            RelocationKind::RiscvPCRelHi20 => 0xffff_f000,
            RelocationKind::RiscvPCRelLo12I => 0xfff0_0000,
            RelocationKind::RiscvCall => 0xfff0_0000_ffff_f000,
            RelocationKind::LArchAbsHi20
            | RelocationKind::LArchPCAlaHi20
            | RelocationKind::LArchAbs64Lo20
            | RelocationKind::LArchPCAla64Lo20 => 0x01ff_ffe0,
            RelocationKind::LArchAbsLo12
            | RelocationKind::LArchPCAlaLo12
            | RelocationKind::LArchAbs64Hi12
            | RelocationKind::LArchPCAla64Hi12 => 0x003f_fc00,
            RelocationKind::LArchCall36 => 0x03ff_fc00_01ff_ffe0,
            RelocationKind::Aarch64AdrPrelPgHi21 | RelocationKind::Aarch64AdrPrelLo21 => 0x60ff_ffe0,
            RelocationKind::Aarch64AddAbsLo12Nc
            | RelocationKind::Aarch64Ldst64AbsLo12Nc
            | RelocationKind::Aarch64Ldst128AbsLo12Nc => 0x003f_fc00,
            _ => 0,
        }
    }

    /// The immediate of this kind for `value`, shifted to its place in the
    /// window.
    pub fn immediate(self, value: u64, paired: u32) -> (bits: u64)
        ensures
            bits == self.field_bits(value, paired),
    {
        match self {
            RelocationKind::Abs8 | RelocationKind::X86PCRel8 => value,
            RelocationKind::X86PCRel4 | RelocationKind::X86CallPCRel4 => value & 0xffff_ffff,
            RelocationKind::Arm64Call => (value / 4) & 0x03ff_ffff,
            RelocationKind::Arm64Movw0 => (value & 0xffff) << 5,
            RelocationKind::Arm64Movw1 => ((value >> 16) & 0xffff) << 5,
            RelocationKind::Arm64Movw2 => ((value >> 32) & 0xffff) << 5,
            RelocationKind::Arm64Movw3 => ((value >> 48) & 0xffff) << 5,
            RelocationKind::RiscvPCRelHi20 => value.wrapping_add(0x800) & 0xffff_f000,
            RelocationKind::RiscvPCRelLo12I => ((paired & 0xfff) as u64) << 20,
            RelocationKind::RiscvCall => ((value & 0xfff) << 52) | (value.wrapping_add(0x800)
                & 0xffff_f000),
            RelocationKind::LArchAbsHi20 | RelocationKind::LArchPCAlaHi20 => ((value >> 12)
                & 0xf_ffff) << 5,
            RelocationKind::LArchAbsLo12 | RelocationKind::LArchPCAlaLo12 => (value & 0xfff) << 10,
            RelocationKind::LArchAbs64Hi12 | RelocationKind::LArchPCAla64Hi12 => ((value >> 52)
                & 0xfff) << 10,
            RelocationKind::LArchAbs64Lo20 | RelocationKind::LArchPCAla64Lo20 => ((value >> 32)
                & 0xf_ffff) << 5,
            RelocationKind::LArchCall36 => (((value >> 18) & 0xf_ffff) << 5) | (((value >> 2)
                & 0xffff) << 42),
            RelocationKind::Aarch64AdrPrelPgHi21 => (((value >> 12) & 0b11) << 29) | (((value
                >> 14) & 0x7_ffff) << 5),
            RelocationKind::Aarch64AdrPrelLo21 => ((value & 0b11) << 29) | (((value >> 2)
                & 0x7_ffff) << 5),
            RelocationKind::Aarch64AddAbsLo12Nc => (value & 0xfff) << 10,
            RelocationKind::Aarch64Ldst64AbsLo12Nc => ((value & 0xfff) >> 3) << 10,
            RelocationKind::Aarch64Ldst128AbsLo12Nc => ((value & 0xfff) >> 4) << 10,
            _ => 0,
        }
    }

    /// The window after a relocation of this kind.
    pub fn patch(self, old: u64, value: u64, paired: u32) -> (new: u64)
        ensures
            new == self.patched(old, value, paired),
    {
        let bits = self.immediate(value, paired);
        match self {
            RelocationKind::Abs8
            | RelocationKind::X86PCRel4
            | RelocationKind::X86PCRel8
            | RelocationKind::X86CallPCRel4
            | RelocationKind::Arm64Call
            | RelocationKind::Aarch64AdrPrelPgHi21
            | RelocationKind::Aarch64AdrPrelLo21
            | RelocationKind::Aarch64AddAbsLo12Nc
            | RelocationKind::Aarch64Ldst64AbsLo12Nc
            | RelocationKind::Aarch64Ldst128AbsLo12Nc => (old & !self.mask()) | bits,
            _ => old | bits,
        }
    }
}

impl Relocation {
    /// The bytes that the record patches in a body that starts at `start`
    /// and is `body_len` bytes long, if it has a length: the address of the
    /// first and their number. A record of an unsupported kind patches
    /// none, nor does one whose bytes would lie beyond the body or beyond
    /// the address space.
    pub open spec fn window_at(self, start: usize, body_len: Option<usize>) -> Option<
        (usize, usize),
    > {
        if self.kind.is_supported() && start + self.offset + self.kind.patch_width() <= usize::MAX
            && (body_len is Some ==> self.offset + self.kind.patch_width() <= body_len.unwrap()) {
            Some(((start + self.offset) as usize, self.kind.patch_width() as usize))
        } else {
            None
        }
    }

    /// The bytes that the record patches in a body that starts at `start`
    /// and is `body_len` bytes long, if it has a length.
    pub fn window(&self, start: usize, body_len: Option<usize>) -> (window: Option<(usize, usize)>)
        ensures
            window == self.window_at(start, body_len),
    {
        let width = self.kind.width();
        if width == 0 {
            return None;
        }
        if let Some(len) = body_len {
            if self.offset > len || width > len - self.offset {
                return None;
            }
        }
        match start.checked_add(self.offset) {
            Some(site) => if width <= usize::MAX - site {
                Some((site, width))
            } else {
                None
            },
            None => None,
        }
    }
}

/// `value` rounded to the nearest multiple of 4096, as a 32-bit quantity:
/// the upper twenty bits of a RISC-V `auipc`/`addi` pair, whose lower
/// twelve bits are added sign-extended.
pub open spec fn rounded_hi20(value: u64) -> u64 {
    vstd::wrapping::u64_specs::wrapping_add(value, 0x800) & 0xffff_f000
}

/// A twelve-bit immediate read as a signed number, the way a RISC-V I-type
/// instruction does.
pub open spec fn sign_extend12(imm: u64) -> int {
    if imm >= 0x800 {
        imm - 0x1000
    } else {
        imm as int
    }
}

/// The immediate never reaches outside the field of its kind.
pub proof fn lemma_immediate_within_field(kind: RelocationKind, value: u64, paired: u32)
    ensures
        kind.field_bits(value, paired) & !kind.field_mask() == 0,
{
    let rounded = rounded_hi20(value);
    let sum = vstd::wrapping::u64_specs::wrapping_add(value, 0x800);
    assert(rounded == sum & 0xffff_f000);
    assert({
        &&& value & !0xffff_ffff_ffff_ffffu64 == 0
        &&& (value & 0xffff_ffff) & !0xffff_ffffu64 == 0
        &&& ((value / 4) & 0x03ff_ffff) & !0x03ff_ffffu64 == 0
        &&& ((value & 0xffff) << 5) & !0x001f_ffe0u64 == 0
        &&& (((value >> 16) & 0xffff) << 5) & !0x001f_ffe0u64 == 0
        &&& (((value >> 32) & 0xffff) << 5) & !0x001f_ffe0u64 == 0
        &&& (((value >> 48) & 0xffff) << 5) & !0x001f_ffe0u64 == 0
        &&& (sum & 0xffff_f000) & !0xffff_f000u64 == 0
        &&& (((value & 0xfff) << 52) | (sum & 0xffff_f000)) & !0xfff0_0000_ffff_f000u64 == 0
        &&& (((paired & 0xfff) as u64) << 20) & !0xfff0_0000u64 == 0
    }) by (bit_vector);
    assert({
        &&& (((value >> 12) & 0xf_ffff) << 5) & !0x01ff_ffe0u64 == 0
        &&& ((value & 0xfff) << 10) & !0x003f_fc00u64 == 0
        &&& (((value >> 52) & 0xfff) << 10) & !0x003f_fc00u64 == 0
        &&& (((value >> 32) & 0xf_ffff) << 5) & !0x01ff_ffe0u64 == 0
        &&& ((((value >> 18) & 0xf_ffff) << 5) | (((value >> 2) & 0xffff) << 42))
            & !0x03ff_fc00_01ff_ffe0u64 == 0
        &&& ((((value >> 12) & 0b11) << 29) | (((value >> 14) & 0x7_ffff) << 5)) & !0x60ff_ffe0u64
            == 0
        &&& (((value & 0b11) << 29) | (((value >> 2) & 0x7_ffff) << 5)) & !0x60ff_ffe0u64 == 0
        &&& (((value & 0xfff) >> 3) << 10) & !0x003f_fc00u64 == 0
        &&& (((value & 0xfff) >> 4) << 10) & !0x003f_fc00u64 == 0
        &&& 0u64 & !0u64 == 0
    }) by (bit_vector);
}

/// Mask preservation: whatever the kind, the bits of the window outside its
/// field are the same after the patch as before.
pub proof fn lemma_outside_field_unchanged(kind: RelocationKind, old: u64, value: u64, paired: u32)
    ensures
        kind.patched(old, value, paired) & !kind.field_mask() == old & !kind.field_mask(),
{
    let bits = kind.field_bits(value, paired);
    let mask = kind.field_mask();
    lemma_immediate_within_field(kind, value, paired);
    assert(bits & !mask == 0 ==> ((old & !mask) | bits) & !mask == old & !mask && (old | bits)
        & !mask == old & !mask) by (bit_vector);
}

/// Patching a window a second time, for the same value, changes nothing.
pub proof fn lemma_patched_twice(kind: RelocationKind, old: u64, value: u64, paired: u32)
    ensures
        kind.patched(kind.patched(old, value, paired), value, paired) == kind.patched(
            old,
            value,
            paired,
        ),
{
    let bits = kind.field_bits(value, paired);
    let mask = kind.field_mask();
    lemma_immediate_within_field(kind, value, paired);
    assert(bits & !mask == 0 ==> ((((old & !mask) | bits) & !mask) | bits) == ((old & !mask)
        | bits) && ((old | bits) | bits) == (old | bits)) by (bit_vector);
}

/// A four-byte window stays a four-byte window.
pub proof fn lemma_patched_fits(kind: RelocationKind, old: u64, value: u64, paired: u32)
    requires
        kind.patch_width() == 4,
        old <= 0xffff_ffff,
    ensures
        kind.patched(old, value, paired) <= 0xffff_ffff,
{
    let bits = kind.field_bits(value, paired);
    let mask = kind.field_mask();
    lemma_immediate_within_field(kind, value, paired);
    assert(mask <= 0xffff_ffff);
    assert(bits & !mask == 0 && mask <= 0xffff_ffff && old <= 0xffff_ffff ==> ((old & !mask)
        | bits) <= 0xffff_ffff && (old | bits) <= 0xffff_ffff) by (bit_vector);
}

/// The four `Arm64Movw` kinds, applied for one 64-bit target to instructions
/// whose immediate is still empty, leave four 16-bit immediates that spell
/// the target when put side by side at bits 0, 16, 32 and 48.
pub proof fn lemma_movw_reassembles(target: u64, op0: u64, op1: u64, op2: u64, op3: u64)
    requires
        op0 & 0x001f_ffe0 == 0,
        op1 & 0x001f_ffe0 == 0,
        op2 & 0x001f_ffe0 == 0,
        op3 & 0x001f_ffe0 == 0,
    ensures
        ({
            let imm0 = (RelocationKind::Arm64Movw0.patched(op0, target, 0) >> 5) & 0xffff;
            let imm1 = (RelocationKind::Arm64Movw1.patched(op1, target, 0) >> 5) & 0xffff;
            let imm2 = (RelocationKind::Arm64Movw2.patched(op2, target, 0) >> 5) & 0xffff;
            let imm3 = (RelocationKind::Arm64Movw3.patched(op3, target, 0) >> 5) & 0xffff;
            imm0 | (imm1 << 16) | (imm2 << 32) | (imm3 << 48)
        }) == target,
{
    assert(op0 & 0x001f_ffe0 == 0 && op1 & 0x001f_ffe0 == 0 && op2 & 0x001f_ffe0 == 0 && op3
        & 0x001f_ffe0 == 0 ==> ({
        let imm0 = ((op0 | ((target & 0xffff) << 5)) >> 5) & 0xffff;
        let imm1 = ((op1 | (((target >> 16) & 0xffff) << 5)) >> 5) & 0xffff;
        let imm2 = ((op2 | (((target >> 32) & 0xffff) << 5)) >> 5) & 0xffff;
        let imm3 = ((op3 | (((target >> 48) & 0xffff) << 5)) >> 5) & 0xffff;
        imm0 | (imm1 << 16) | (imm2 << 32) | (imm3 << 48)
    }) == target) by (bit_vector);
}

/// A `RiscvPCRelHi20` and the `RiscvPCRelLo12I` paired with it, applied for a
/// distance of at most 32 bits to instructions whose immediates are still
/// empty, materialise that distance: the upper immediate shifted left by
/// twelve, plus the lower immediate sign-extended, is the distance again in
/// 32-bit arithmetic.
pub proof fn lemma_hi20_lo12_reassembles(distance: u64, auipc: u64, addi: u64)
    requires
        distance <= 0xffff_ffff,
        auipc <= 0xffff_ffff,
        addi <= 0xffff_ffff,
        auipc & 0xffff_f000 == 0,
        addi & 0xfff0_0000 == 0,
    ensures
        ({
            let upper = RelocationKind::RiscvPCRelHi20.patched(auipc, distance, 0) >> 12;
            let lower = RelocationKind::RiscvPCRelLo12I.patched(addi, 0, distance as u32) >> 20;
            (upper * 0x1000 + sign_extend12(lower)) % 0x1_0000_0000
        }) == distance,
{
    let sum = vstd::wrapping::u64_specs::wrapping_add(distance, 0x800);
    let paired = distance as u32;
    let upper = (auipc | (sum & 0xffff_f000)) >> 12;
    let lower = (addi | (((paired & 0xfff) as u64) << 20)) >> 20;
    assert(sum == distance + 0x800);
    assert(paired == distance);
    assert({
        &&& lower == distance & 0xfff
        &&& upper == (sum & 0xffff_f000) >> 12
    }) by (bit_vector)
        requires
            auipc <= 0xffff_ffff,
            addi <= 0xffff_ffff,
            auipc & 0xffff_f000 == 0,
            addi & 0xfff0_0000 == 0,
            paired == distance,
            upper == (auipc | (sum & 0xffff_f000)) >> 12,
            lower == (addi | (((paired & 0xfff) as u64) << 20)) >> 20,
    ;
    assert({
        &&& lower < 0x800 ==> upper * 0x1000 + lower == distance
        &&& lower >= 0x800 && distance < 0xffff_f800 ==> upper * 0x1000 + lower == distance
            + 0x1000
        &&& distance >= 0xffff_f800 ==> upper == 0 && lower >= 0x800 && lower + 0xffff_f000
            == distance
        &&& lower < 0x1000
    }) by (bit_vector)
        requires
            distance <= 0xffff_ffff,
            sum == distance + 0x800,
            lower == distance & 0xfff,
            upper == (sum & 0xffff_f000) >> 12,
    ;
}

} // verus!
