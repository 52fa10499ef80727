//! Relocation records: what to patch, where, and against which target.

use vstd::prelude::*;

verus! {

/// Addressing mode of a relocation: how the resolved address is encoded at
/// the patch site.
#[derive(Clone, Copy, Debug, PartialEq, Eq, Structural, Hash)]
pub enum RelocationKind {
    /// Absolute 64-bit address.
    Abs8,
    /// x86 PC-relative 4-byte.
    X86PCRel4,
    /// x86 PC-relative 8-byte.
    X86PCRel8,
    /// x86 call to PC-relative 4-byte.
    X86CallPCRel4,
    /// x86 call to PLT-relative 4-byte.
    X86CallPLTRel4,
    /// x86 GOT PC-relative 4-byte.
    X86GOTPCRel4,
    /// Arm32 call target.
    Arm32Call,
    /// Arm64 call target (`bl`).
    Arm64Call,
    /// Arm64 `movk`/`movz`, bits 0 to 15 of the address.
    Arm64Movw0,
    /// Arm64 `movk`/`movz`, bits 16 to 31 of the address.
    Arm64Movw1,
    /// Arm64 `movk`/`movz`, bits 32 to 47 of the address.
    Arm64Movw2,
    /// Arm64 `movk`/`movz`, bits 48 to 63 of the address.
    Arm64Movw3,
    /// RISC-V PC-relative high 20 bits (`auipc`).
    RiscvPCRelHi20,
    /// RISC-V PC-relative low 12 bits, I-type; paired with a
    /// `RiscvPCRelHi20` through the address of that instruction.
    RiscvPCRelLo12I,
    /// RISC-V call target (`auipc` + `jalr`).
    RiscvCall,
    /// LoongArch absolute address, bits 12 to 31.
    LArchAbsHi20,
    /// LoongArch absolute address, bits 0 to 11.
    LArchAbsLo12,
    /// LoongArch absolute address, bits 52 to 63.
    LArchAbs64Hi12,
    /// LoongArch absolute address, bits 32 to 51.
    LArchAbs64Lo20,
    /// LoongArch 36-bit call (`pcaddu18i` + `jirl`).
    LArchCall36,
    /// LoongArch PC-aligned address, bits 12 to 31.
    LArchPCAlaHi20,
    /// LoongArch PC-aligned address, bits 0 to 11.
    LArchPCAlaLo12,
    /// LoongArch PC-aligned address, bits 52 to 63.
    LArchPCAla64Hi12,
    /// LoongArch PC-aligned address, bits 32 to 51.
    LArchPCAla64Lo20,
    /// ELF x86-64 TLS general-dynamic.
    ElfX86_64TlsGd,
    /// AArch64 `adrp`: page-relative, bits 12 and up of the distance.
    Aarch64AdrPrelPgHi21,
    /// AArch64 `adr`: 21-bit PC-relative distance.
    Aarch64AdrPrelLo21,
    /// AArch64 `add`: low 12 bits of the address, no overflow check.
    Aarch64AddAbsLo12Nc,
    /// AArch64 64-bit load/store: low 12 bits of the address, scaled by 8.
    Aarch64Ldst64AbsLo12Nc,
    /// AArch64 128-bit load/store: low 12 bits of the address, scaled by 16.
    Aarch64Ldst128AbsLo12Nc,
}

/// The entity a relocation refers to.
#[derive(Clone, Copy, Debug, PartialEq, Eq, Structural, Hash)]
pub enum RelocationTarget {
    /// A function defined in the module, by its local index.
    LocalFunction(u32),
    /// A runtime library routine, by its identifier.
    LibCall(u32),
    /// A data section of the module, by its index.
    CustomSection(u32),
}

/// A relocation record left by the code generator.
#[derive(Clone, Copy, Debug, PartialEq, Eq, Structural, Hash)]
pub struct Relocation {
    /// How the address is encoded at the patch site.
    pub kind: RelocationKind,
    /// What the patched instruction refers to.
    pub reloc_target: RelocationTarget,
    /// Where the patch site lies, in bytes from the start of the enclosing body.
    pub offset: usize,
    /// Constant added to the resolved address.
    pub addend: i64,
}

/// The residue of `x` modulo 2^64: what a 64-bit register holds after
/// two's-complement arithmetic.
pub open spec fn wrap64(x: int) -> u64 {
    (x % 0x1_0000_0000_0000_0000) as u64
}

impl RelocationKind {
    /// Kinds whose value is the distance from the patch site to the target.
    /// Every other kind carries the target address itself.
    pub open spec fn is_pc_relative(self) -> bool {
        match self {
            RelocationKind::X86PCRel4
            | RelocationKind::X86PCRel8
            | RelocationKind::X86CallPCRel4
            | RelocationKind::Arm64Call
            | RelocationKind::RiscvPCRelHi20
            | RelocationKind::RiscvCall
            | RelocationKind::LArchCall36
            | RelocationKind::Aarch64AdrPrelPgHi21
            | RelocationKind::Aarch64AdrPrelLo21 => true,
            _ => false,
        }
    }

    /// Tells whether the value of this kind is a distance from the patch site.
    pub fn pc_relative(self) -> (b: bool)
        ensures
            b == self.is_pc_relative(),
    {
        match self {
            RelocationKind::X86PCRel4
            | RelocationKind::X86PCRel8
            | RelocationKind::X86CallPCRel4
            | RelocationKind::Arm64Call
            | RelocationKind::RiscvPCRelHi20
            | RelocationKind::RiscvCall
            | RelocationKind::LArchCall36
            | RelocationKind::Aarch64AdrPrelPgHi21
            | RelocationKind::Aarch64AdrPrelLo21 => true,
            _ => false,
        }
    }
}

impl Relocation {
    /// The address of the patch site when the enclosing body starts at `start`.
    pub open spec fn site(self, start: usize) -> int {
        start + self.offset
    }

    /// Whether `for_address` is defined: the patch site is an address, and an
    /// absolute value is one too.
    pub open spec fn address_defined(self, start: usize, target: u64) -> bool {
        &&& self.site(start) <= usize::MAX
        &&& !self.kind.is_pc_relative() ==> 0 <= target + self.addend <= u64::MAX
    }

    /// The value to encode at the patch site: for a PC-relative kind the
    /// distance from the patch site to the target plus the addend, in
    /// two's complement; for any other kind the target plus the addend.
    pub open spec fn value(self, start: usize, target: u64) -> u64 {
        if self.kind.is_pc_relative() {
            wrap64(target + self.addend - self.site(start))
        } else {
            (target + self.addend) as u64
        }
    }

    /// The addressing mode of this record.
    pub fn kind(&self) -> (k: RelocationKind)
        ensures
            k == self.kind,
    {
        self.kind
    }

    /// The entity this record refers to.
    pub fn reloc_target(&self) -> (t: RelocationTarget)
        ensures
            t == self.reloc_target,
    {
        self.reloc_target
    }

    /// The patch site and the value to encode there, for a body that starts
    /// at `start` and a target resolved to `target`; `None` where
    /// `address_defined` fails.
    pub fn try_for_address(&self, start: usize, target: u64) -> (r: Option<(usize, u64)>)
        ensures
            self.address_defined(start, target) ==> r == Some(
                (self.site(start) as usize, self.value(start, target)),
            ),
            !self.address_defined(start, target) ==> r is None,
    {
        let site = match start.checked_add(self.offset) {
            Some(site) => site,
            None => {
                return None;
            },
        };
        if self.kind.pc_relative() {
            let distance = target.wrapping_sub(site as u64);
            Some((site, distance.wrapping_add_signed(self.addend)))
        } else {
            match target.checked_add_signed(self.addend) {
                Some(value) => Some((site, value)),
                None => None,
            }
        }
    }

    /// The patch site and the value to encode there, for a body that starts
    /// at `start` and a target resolved to `target`.
    pub fn for_address(&self, start: usize, target: u64) -> (r: (usize, u64))
        requires
            self.address_defined(start, target),
        ensures
            r.0 == self.site(start),
            r.1 == self.value(start, target),
    {
        self.try_for_address(start, target).unwrap()
    }
}

} // verus!
