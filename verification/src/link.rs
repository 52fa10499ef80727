//! The linker: resolves the target of each relocation record and patches the
//! code image accordingly, sections first, then function bodies.

use std::collections::HashMap;
use vstd::prelude::*;
use wasmer_types::ModuleInfo;
use crate::allocation::{
    entry, function_extents, get_libcall_trampoline, libcall_addresses, section_bases,
    trampoline_address, FunctionExtent, FunctionMap, SectionMap,
};
use crate::memory::{load, mapped, store, Memory};
use crate::relocation::{Relocation, RelocationKind, RelocationTarget};

verus! {

broadcast use vstd::std_specs::hash::group_hash_axioms;

/// Why a relocation record cannot be applied.
#[derive(Clone, Copy, Debug, PartialEq, Eq, Structural)]
pub enum LinkError {
    /// The allocation map has no function with this local index.
    UnknownFunction(u32),
    /// The allocation map has no section with this index.
    UnknownSection(u32),
    /// No runtime library routine has this identifier.
    UnknownLibCall(u32),
    /// The linker does not support this kind.
    UnsupportedKind(RelocationKind),
    /// The patch site, the trampoline or an absolute value lies beyond the
    /// address space.
    AddressOverflow,
    /// The distance to the target does not fit the instruction of this kind.
    OutOfRange(RelocationKind),
    /// A `RiscvPCRelLo12I` names this address, at which no `RiscvPCRelHi20`
    /// has been applied.
    UnpairedLo12(usize),
    /// The patch would reach beyond the enclosing body.
    OutsideBody,
    /// The patch site, at this address, is not in the code image.
    Unmapped(usize),
}

/// The placement that records are resolved against.
pub struct Layout {
    /// The extent of each function, by local index.
    pub functions: Seq<FunctionExtent>,
    /// The address of each section, by index.
    pub sections: Seq<usize>,
    /// The address of each runtime library routine, by identifier.
    pub libcalls: Seq<usize>,
    /// The index of the section that holds the trampolines.
    pub trampolines: u32,
    /// The number of bytes of one trampoline.
    pub trampoline_len: usize,
}

/// What linking changes as it goes.
pub struct Linking {
    /// The code image.
    pub image: Map<int, u8>,
    /// For each `RiscvPCRelHi20` applied so far, by the address of its
    /// instruction, the low 32 bits of the distance it encoded.
    pub hi20s: Map<usize, u32>,
}

/// A record resolved against a placement: which value to encode, where, and
/// how.
#[derive(Clone, Copy, Debug, PartialEq, Eq, Structural)]
pub struct Patch {
    /// How the value is encoded.
    pub kind: RelocationKind,
    /// The address of the patch site.
    pub site: usize,
    /// The value to encode: an address, or a distance in two's complement.
    pub value: u64,
}

/// A 64-bit value read as a two's-complement number.
pub open spec fn signed(value: u64) -> int {
    if value >= 0x8000_0000_0000_0000 {
        value - 0x1_0000_0000_0000_0000
    } else {
        value as int
    }
}

impl RelocationKind {
    /// Whether a routine of the runtime library is reached directly: the
    /// kinds that hold a full 64-bit address. Every other kind goes through
    /// the routine's trampoline.
    pub open spec fn reaches_libcalls(self) -> bool {
        self == RelocationKind::Abs8 || self == RelocationKind::X86PCRel8
    }

    /// Whether the instruction of this kind can encode the distance `value`.
    pub open spec fn in_range(self, value: u64) -> bool {
        match self {
            RelocationKind::Arm64Call => -0x1000_0000 < signed(value) < 0x1000_0000,
            RelocationKind::Aarch64AdrPrelPgHi21 => -0x1_0000_0000 <= signed(value)
                < 0x1_0000_0000,
            RelocationKind::Aarch64AdrPrelLo21 => -0x10_0000 <= signed(value) < 0x10_0000,
            _ => true,
        }
    }

    /// Tells whether the instruction of this kind can encode the distance
    /// `value`.
    pub fn fits(self, value: u64) -> (b: bool)
        ensures
            b == self.in_range(value),
    {
        match self {
            RelocationKind::Arm64Call => value < 0x1000_0000 || value > 0xffff_ffff_f000_0000,
            RelocationKind::Aarch64AdrPrelPgHi21 => value < 0x1_0000_0000 || value
                >= 0xffff_ffff_0000_0000,
            RelocationKind::Aarch64AdrPrelLo21 => value < 0x10_0000 || value
                >= 0xffff_ffff_fff0_0000,
            _ => true,
        }
    }
}

impl Layout {
    /// The address that `target` resolves to for a relocation of `kind`: the
    /// first byte of a function or of a section; for a runtime library
    /// routine its own address where the kind reaches it, its trampoline's
    /// otherwise.
    pub open spec fn resolve(self, kind: RelocationKind, target: RelocationTarget) -> Result<
        usize,
        LinkError,
    > {
        match target {
            RelocationTarget::LocalFunction(index) => match entry(self.functions, index) {
                Some(extent) => Ok(extent.ptr),
                None => Err(LinkError::UnknownFunction(index)),
            },
            RelocationTarget::CustomSection(index) => match entry(self.sections, index) {
                Some(base) => Ok(base),
                None => Err(LinkError::UnknownSection(index)),
            },
            RelocationTarget::LibCall(id) => if kind.reaches_libcalls() {
                if id < self.libcalls.len() {
                    Ok(self.libcalls[id as int])
                } else {
                    Err(LinkError::UnknownLibCall(id))
                }
            } else {
                match entry(self.sections, self.trampolines) {
                    Some(base) => match trampoline_address(id, base, self.trampoline_len) {
                        Some(address) => Ok(address),
                        None => Err(LinkError::AddressOverflow),
                    },
                    None => Err(LinkError::UnknownSection(self.trampolines)),
                }
            },
        }
    }

    /// The patch that `r` asks for in a body that starts at `body`, or the
    /// reason why the record is refused whatever the code image holds.
    /// `body_len` is the length of the body; a section, whose length the
    /// allocation map does not record, has none.
    pub open spec fn locate(self, body: usize, body_len: Option<usize>, r: Relocation) -> Result<
        Patch,
        LinkError,
    > {
        match self.resolve(r.kind, r.reloc_target) {
            Err(e) => Err(e),
            Ok(target) => {
                let value = r.value(body, target as u64);
                if !r.kind.is_supported() {
                    Err(LinkError::UnsupportedKind(r.kind))
                } else if !r.address_defined(body, target as u64) {
                    Err(LinkError::AddressOverflow)
                } else if !r.kind.in_range(value) {
                    Err(LinkError::OutOfRange(r.kind))
                } else if body_len is Some && r.offset + r.kind.patch_width() > body_len.unwrap() {
                    Err(LinkError::OutsideBody)
                } else {
                    Ok(Patch { kind: r.kind, site: r.site(body) as usize, value })
                }
            },
        }
    }

    /// What applying `r` does, for a body that starts at `body`: the state
    /// after the patch, or the reason why the record is refused.
    pub open spec fn apply(
        self,
        state: Linking,
        body: usize,
        body_len: Option<usize>,
        r: Relocation,
    ) -> Result<Linking, LinkError> {
        match self.locate(body, body_len, r) {
            Err(e) => Err(e),
            Ok(patch) => state.encode(patch),
        }
    }
}

impl Patch {
    /// The address that a `RiscvPCRelLo12I` names: that of the instruction
    /// of its partner.
    pub open spec fn key(self) -> usize {
        self.value as usize
    }

    /// Whether the patch changes the byte at `a`.
    pub open spec fn touches(self, a: int) -> bool {
        self.site <= a < self.site + self.kind.patch_width()
    }
}

impl Linking {
    /// Why `patch` cannot be encoded in this state, if it cannot.
    pub open spec fn refusal(self, patch: Patch) -> Option<LinkError> {
        if patch.kind == RelocationKind::RiscvPCRelLo12I && !self.hi20s.dom().contains(
            patch.key(),
        ) {
            Some(LinkError::UnpairedLo12(patch.key()))
        } else if !mapped(self.image, patch.site as int, patch.kind.patch_width()) {
            Some(LinkError::Unmapped(patch.site))
        } else {
            None
        }
    }

    /// The distance that `patch` encodes from the record of its partner;
    /// only a `RiscvPCRelLo12I` has one.
    pub open spec fn paired(self, patch: Patch) -> u32 {
        if patch.kind == RelocationKind::RiscvPCRelLo12I {
            self.hi20s[patch.key()]
        } else {
            0
        }
    }

    /// The window at the patch site, as a number.
    pub open spec fn window(self, patch: Patch) -> u64 {
        load(self.image, patch.site as int, patch.kind.patch_width()) as u64
    }

    /// The state after `patch` is encoded: the window at the patch site is
    /// patched, and a `RiscvPCRelHi20` leaves the low 32 bits of its value
    /// under the address of its instruction, for its partner.
    pub open spec fn patched(self, patch: Patch) -> Linking {
        let new = patch.kind.patched(self.window(patch), patch.value, self.paired(patch));
        Linking {
            image: store(self.image, patch.site as int, patch.kind.patch_width(), new as nat),
            hi20s: if patch.kind == RelocationKind::RiscvPCRelHi20 {
                self.hi20s.insert(patch.site, patch.value as u32)
            } else {
                self.hi20s
            },
        }
    }

    /// What encoding `patch` does: the state after it, or the reason why it
    /// is refused.
    pub open spec fn encode(self, patch: Patch) -> Result<Linking, LinkError> {
        match self.refusal(patch) {
            Some(e) => Err(e),
            None => Ok(self.patched(patch)),
        }
    }
}

/// The placement that the linker's arguments describe.
pub open spec fn layout_of(
    allocated_functions: FunctionMap,
    allocated_sections: SectionMap,
    libcalls: Seq<usize>,
    libcall_trampolines: u32,
    libcall_trampoline_len: usize,
) -> Layout {
    Layout {
        functions: function_extents(allocated_functions),
        sections: section_bases(allocated_sections),
        libcalls,
        trampolines: libcall_trampolines,
        trampoline_len: libcall_trampoline_len,
    }
}

/// Resolves the target of a relocation of `kind` to its address.
pub fn resolve_target(
    kind: RelocationKind,
    target: RelocationTarget,
    allocated_functions: &FunctionMap,
    allocated_sections: &SectionMap,
    libcalls: &Vec<usize>,
    libcall_trampolines: u32,
    libcall_trampoline_len: usize,
) -> (address: Result<usize, LinkError>)
    ensures
        address == layout_of(
            *allocated_functions,
            *allocated_sections,
            libcalls@,
            libcall_trampolines,
            libcall_trampoline_len,
        ).resolve(kind, target),
{
    match target {
        RelocationTarget::LocalFunction(index) => match allocated_functions.get(index) {
            Some(extent) => Ok(extent.ptr),
            None => Err(LinkError::UnknownFunction(index)),
        },
        RelocationTarget::CustomSection(index) => match allocated_sections.get(index) {
            Some(base) => Ok(base),
            None => Err(LinkError::UnknownSection(index)),
        },
        RelocationTarget::LibCall(id) => {
            // A kind that holds a whole address reaches the routine itself;
            // any other kind is sent through the routine's trampoline.
            if kind == RelocationKind::Abs8 || kind == RelocationKind::X86PCRel8 {
                if (id as usize) < libcalls.len() {
                    Ok(libcalls[id as usize])
                } else {
                    Err(LinkError::UnknownLibCall(id))
                }
            } else {
                match allocated_sections.get(libcall_trampolines) {
                    Some(base) => match get_libcall_trampoline(id, base, libcall_trampoline_len) {
                        Some(address) => Ok(address),
                        None => Err(LinkError::AddressOverflow),
                    },
                    None => Err(LinkError::UnknownSection(libcall_trampolines)),
                }
            }
        },
    }
}

impl Layout {
    /// What applying `records` in order does, for one body: the state when
    /// all are applied, or the state reached and the reason why the first
    /// refused record is refused.
    pub open spec fn apply_all(
        self,
        state: Linking,
        body: usize,
        body_len: Option<usize>,
        records: Seq<Relocation>,
    ) -> (Linking, Option<LinkError>)
        decreases records.len(),
    {
        if records.len() == 0 {
            (state, None)
        } else {
            match self.apply(state, body, body_len, records[0]) {
                Err(e) => (state, Some(e)),
                Ok(next) => self.apply_all(next, body, body_len, records.drop_first()),
            }
        }
    }

    /// Where the body with index `index` starts and how long it is, among
    /// the sections or among the functions.
    pub open spec fn body(self, sections: bool, index: u32) -> Result<
        (usize, Option<usize>),
        LinkError,
    > {
        if sections {
            match entry(self.sections, index) {
                Some(base) => Ok((base, None)),
                None => Err(LinkError::UnknownSection(index)),
            }
        } else {
            match entry(self.functions, index) {
                Some(extent) => Ok((extent.ptr, Some(extent.length))),
                None => Err(LinkError::UnknownFunction(index)),
            }
        }
    }

    /// What one pass does, over the sections or over the functions: each
    /// body's records are applied in the order given, body after body, up to
    /// the first record that is refused.
    pub open spec fn pass(
        self,
        state: Linking,
        sections: bool,
        stream: Seq<(u32, Vec<Relocation>)>,
    ) -> (Linking, Option<LinkError>)
        decreases stream.len(),
    {
        if stream.len() == 0 {
            (state, None)
        } else {
            match self.body(sections, stream[0].0) {
                Err(e) => (state, Some(e)),
                Ok(body) => {
                    let (next, refused) = self.apply_all(state, body.0, body.1, stream[0].1@);
                    if refused is Some {
                        (next, refused)
                    } else {
                        self.pass(next, sections, stream.drop_first())
                    }
                },
            }
        }
    }

    /// What linking does to `image`: with no `RiscvPCRelHi20` on record, the
    /// pass over the sections, then the pass over the functions.
    pub open spec fn link(
        self,
        image: Map<int, u8>,
        function_relocations: Seq<(u32, Vec<Relocation>)>,
        section_relocations: Seq<(u32, Vec<Relocation>)>,
    ) -> (Map<int, u8>, Option<LinkError>) {
        let start = Linking { image, hi20s: Map::empty() };
        let (middle, refused) = self.pass(start, true, section_relocations);
        if refused is Some {
            (middle.image, refused)
        } else {
            let (end, refused) = self.pass(middle, false, function_relocations);
            (end.image, refused)
        }
    }
}

/// What a run reports: success where no record was refused, the reason
/// otherwise.
pub open spec fn verdict(refused: Option<LinkError>) -> Result<(), LinkError> {
    match refused {
        Some(e) => Err(e),
        None => Ok(()),
    }
}

/// Resolves `r` against the placement: the patch it asks for in a body that
/// starts at `body`, or the reason why it is refused.
pub fn locate_relocation(
    body: usize,
    body_len: Option<usize>,
    r: &Relocation,
    allocated_functions: &FunctionMap,
    allocated_sections: &SectionMap,
    libcalls: &Vec<usize>,
    libcall_trampolines: u32,
    libcall_trampoline_len: usize,
) -> (patch: Result<Patch, LinkError>)
    ensures
        patch == layout_of(
            *allocated_functions,
            *allocated_sections,
            libcalls@,
            libcall_trampolines,
            libcall_trampoline_len,
        ).locate(body, body_len, *r),
{
    let kind = r.kind();
    let target = match resolve_target(
        kind,
        r.reloc_target(),
        allocated_functions,
        allocated_sections,
        libcalls,
        libcall_trampolines,
        libcall_trampoline_len,
    ) {
        Ok(target) => target,
        Err(e) => {
            return Err(e);
        },
    };
    let width = kind.width();
    if width == 0 {
        return Err(LinkError::UnsupportedKind(kind));
    }
    let (site, value) = match r.try_for_address(body, target as u64) {
        Some(pair) => pair,
        None => {
            return Err(LinkError::AddressOverflow);
        },
    };
    if !kind.fits(value) {
        return Err(LinkError::OutOfRange(kind));
    }
    if let Some(len) = body_len {
        if r.offset > len || width > len - r.offset {
            return Err(LinkError::OutsideBody);
        }
    }
    Ok(Patch { kind, site, value })
}

/// Tells whether `patch` can be encoded, and why not where it cannot.
pub fn check_patch(patch: &Patch, riscv_pcrel_hi20s: &HashMap<usize, u32>, memory: &Memory) -> (accepted:
    Result<(), LinkError>)
    requires
        memory.wf(),
    ensures
        accepted == verdict(
            (Linking { image: memory@, hi20s: riscv_pcrel_hi20s@ }).refusal(*patch),
        ),
{
    if patch.kind == RelocationKind::RiscvPCRelLo12I {
        let key = #[verifier::truncate]
        (patch.value as usize);
        if !riscv_pcrel_hi20s.contains_key(&key) {
            return Err(LinkError::UnpairedLo12(key));
        }
    }
    if !memory.is_mapped(patch.site, patch.kind.width()) {
        return Err(LinkError::Unmapped(patch.site));
    }
    Ok(())
}

/// Encodes `patch`: reads the window at the patch site, folds the value
/// into the field of the kind, and writes the window back. A
/// `RiscvPCRelHi20` records the low 32 bits of its value under the address
/// of its instruction; a `RiscvPCRelLo12I` takes its value for the address
/// of its partner and encodes the low twelve bits recorded under it.
pub fn patch_site(patch: Patch, riscv_pcrel_hi20s: &mut HashMap<usize, u32>, memory: &mut Memory)
    requires
        old(memory).wf(),
        patch.kind.is_supported(),
        (Linking { image: old(memory)@, hi20s: old(riscv_pcrel_hi20s)@ }).refusal(patch) is None,
    ensures
        final(memory).wf(),
        (Linking { image: final(memory)@, hi20s: final(riscv_pcrel_hi20s)@ }) == (Linking {
            image: old(memory)@,
            hi20s: old(riscv_pcrel_hi20s)@,
        }).patched(patch),
{
    let distance = if patch.kind == RelocationKind::RiscvPCRelLo12I {
        let key = #[verifier::truncate]
        (patch.value as usize);
        *riscv_pcrel_hi20s.get(&key).unwrap()
    } else {
        0
    };
    if patch.kind == RelocationKind::RiscvPCRelHi20 {
        // Kept for the `RiscvPCRelLo12I` that names this instruction.
        riscv_pcrel_hi20s.insert(patch.site, #[verifier::truncate] (patch.value as u32));
    }
    let width = patch.kind.width();
    let old = memory.load(patch.site, width);
    let new = patch.kind.patch(old, patch.value, distance);
    memory.store(patch.site, width, new);
}

/// Tells whether `r` can be applied, and why not where it cannot. Nothing
/// is changed.
pub fn check_relocation(
    body: usize,
    body_len: Option<usize>,
    r: &Relocation,
    allocated_functions: &FunctionMap,
    allocated_sections: &SectionMap,
    libcalls: &Vec<usize>,
    libcall_trampolines: u32,
    libcall_trampoline_len: usize,
    riscv_pcrel_hi20s: &HashMap<usize, u32>,
    memory: &Memory,
) -> (accepted: Result<(), LinkError>)
    requires
        memory.wf(),
    ensures
        match layout_of(
            *allocated_functions,
            *allocated_sections,
            libcalls@,
            libcall_trampolines,
            libcall_trampoline_len,
        ).apply(
            (Linking { image: memory@, hi20s: riscv_pcrel_hi20s@ }),
            body,
            body_len,
            *r,
        ) {
            Ok(_) => accepted is Ok,
            Err(e) => accepted == Err::<(), LinkError>(e),
        },
{
    match locate_relocation(
        body,
        body_len,
        r,
        allocated_functions,
        allocated_sections,
        libcalls,
        libcall_trampolines,
        libcall_trampoline_len,
    ) {
        Ok(patch) => check_patch(&patch, riscv_pcrel_hi20s, memory),
        Err(e) => Err(e),
    }
}

/// Applies `r` to the body that starts at `body`: resolves the target,
/// computes the value, and patches the window at the patch site.
pub fn apply_relocation(
    body: usize,
    body_len: Option<usize>,
    r: &Relocation,
    allocated_functions: &FunctionMap,
    allocated_sections: &SectionMap,
    libcalls: &Vec<usize>,
    libcall_trampolines: u32,
    libcall_trampoline_len: usize,
    riscv_pcrel_hi20s: &mut HashMap<usize, u32>,
    memory: &mut Memory,
)
    requires
        old(memory).wf(),
        layout_of(
            *allocated_functions,
            *allocated_sections,
            libcalls@,
            libcall_trampolines,
            libcall_trampoline_len,
        ).apply(
            (Linking { image: old(memory)@, hi20s: old(riscv_pcrel_hi20s)@ }),
            body,
            body_len,
            *r,
        ) is Ok,
    ensures
        final(memory).wf(),
        Ok::<Linking, LinkError>(
            (Linking { image: final(memory)@, hi20s: final(riscv_pcrel_hi20s)@ }),
        ) == layout_of(
            *allocated_functions,
            *allocated_sections,
            libcalls@,
            libcall_trampolines,
            libcall_trampoline_len,
        ).apply(
            (Linking { image: old(memory)@, hi20s: old(riscv_pcrel_hi20s)@ }),
            body,
            body_len,
            *r,
        ),
{
    let kind = r.kind();
    let resolved = resolve_target(
        kind,
        r.reloc_target(),
        allocated_functions,
        allocated_sections,
        libcalls,
        libcall_trampolines,
        libcall_trampoline_len,
    );
    let target = resolved.unwrap();
    let (site, value) = r.for_address(body, target as u64);
    patch_site(Patch { kind, site, value }, riscv_pcrel_hi20s, memory);
}

/// Applies the records of one body in order, up to the first that is
/// refused.
pub fn link_body(
    body: usize,
    body_len: Option<usize>,
    records: &Vec<Relocation>,
    allocated_functions: &FunctionMap,
    allocated_sections: &SectionMap,
    libcalls: &Vec<usize>,
    libcall_trampolines: u32,
    libcall_trampoline_len: usize,
    riscv_pcrel_hi20s: &mut HashMap<usize, u32>,
    memory: &mut Memory,
) -> (done: Result<(), LinkError>)
    requires
        old(memory).wf(),
    ensures
        final(memory).wf(),
        ((Linking { image: final(memory)@, hi20s: final(riscv_pcrel_hi20s)@ }), done) == ({
            let run = layout_of(
                *allocated_functions,
                *allocated_sections,
                libcalls@,
                libcall_trampolines,
                libcall_trampoline_len,
            ).apply_all(
                (Linking { image: old(memory)@, hi20s: old(riscv_pcrel_hi20s)@ }),
                body,
                body_len,
                records@,
            );
            (run.0, verdict(run.1))
        }),
{
    let ghost layout = layout_of(
        *allocated_functions,
        *allocated_sections,
        libcalls@,
        libcall_trampolines,
        libcall_trampoline_len,
    );
    let ghost start = Linking { image: memory@, hi20s: riscv_pcrel_hi20s@ };
    let mut i: usize = 0;
    assert(records@.skip(0) =~= records@);
    while i < records.len()
        invariant
            memory.wf(),
            i <= records.len(),
            start == (Linking { image: old(memory)@, hi20s: old(riscv_pcrel_hi20s)@ }),
            layout == layout_of(
                *allocated_functions,
                *allocated_sections,
                libcalls@,
                libcall_trampolines,
                libcall_trampoline_len,
            ),
            layout.apply_all(start, body, body_len, records@) == layout.apply_all(
                (Linking { image: memory@, hi20s: riscv_pcrel_hi20s@ }),
                body,
                body_len,
                records@.skip(i as int),
            ),
        decreases records.len() - i,
    {
        let r = &records[i];
        assert(records@.skip(i as int)[0] == *r);
        assert(records@.skip(i as int).drop_first() =~= records@.skip(i + 1));
        match check_relocation(
            body,
            body_len,
            r,
            allocated_functions,
            allocated_sections,
            libcalls,
            libcall_trampolines,
            libcall_trampoline_len,
            riscv_pcrel_hi20s,
            memory,
        ) {
            Err(e) => {
                return Err(e);
            },
            Ok(()) => {
                apply_relocation(
                    body,
                    body_len,
                    r,
                    allocated_functions,
                    allocated_sections,
                    libcalls,
                    libcall_trampolines,
                    libcall_trampoline_len,
                    riscv_pcrel_hi20s,
                    memory,
                );
            },
        }
        i += 1;
    }
    Ok(())
}

/// Applies the records of each body of `stream` in order, the bodies being
/// sections or functions, up to the first record that is refused.
pub fn link_pass(
    sections: bool,
    stream: &Vec<(u32, Vec<Relocation>)>,
    allocated_functions: &FunctionMap,
    allocated_sections: &SectionMap,
    libcalls: &Vec<usize>,
    libcall_trampolines: u32,
    libcall_trampoline_len: usize,
    riscv_pcrel_hi20s: &mut HashMap<usize, u32>,
    memory: &mut Memory,
) -> (done: Result<(), LinkError>)
    requires
        old(memory).wf(),
    ensures
        final(memory).wf(),
        ((Linking { image: final(memory)@, hi20s: final(riscv_pcrel_hi20s)@ }), done) == ({
            let run = layout_of(
                *allocated_functions,
                *allocated_sections,
                libcalls@,
                libcall_trampolines,
                libcall_trampoline_len,
            ).pass(
                (Linking { image: old(memory)@, hi20s: old(riscv_pcrel_hi20s)@ }),
                sections,
                stream@,
            );
            (run.0, verdict(run.1))
        }),
{
    let ghost layout = layout_of(
        *allocated_functions,
        *allocated_sections,
        libcalls@,
        libcall_trampolines,
        libcall_trampoline_len,
    );
    let ghost start = Linking { image: memory@, hi20s: riscv_pcrel_hi20s@ };
    let mut i: usize = 0;
    assert(stream@.skip(0) =~= stream@);
    while i < stream.len()
        invariant
            memory.wf(),
            i <= stream.len(),
            start == (Linking { image: old(memory)@, hi20s: old(riscv_pcrel_hi20s)@ }),
            layout == layout_of(
                *allocated_functions,
                *allocated_sections,
                libcalls@,
                libcall_trampolines,
                libcall_trampoline_len,
            ),
            layout.pass(start, sections, stream@) == layout.pass(
                (Linking { image: memory@, hi20s: riscv_pcrel_hi20s@ }),
                sections,
                stream@.skip(i as int),
            ),
        decreases stream.len() - i,
    {
        let index = stream[i].0;
        let records = &stream[i].1;
        assert(stream@.skip(i as int)[0] == stream@[i as int]);
        assert(stream@.skip(i as int).drop_first() =~= stream@.skip(i + 1));
        let (body, body_len) = if sections {
            match allocated_sections.get(index) {
                Some(base) => (base, None),
                None => {
                    return Err(LinkError::UnknownSection(index));
                },
            }
        } else {
            match allocated_functions.get(index) {
                Some(extent) => (extent.ptr, Some(extent.length)),
                None => {
                    return Err(LinkError::UnknownFunction(index));
                },
            }
        };
        let done = link_body(
            body,
            body_len,
            records,
            allocated_functions,
            allocated_sections,
            libcalls,
            libcall_trampolines,
            libcall_trampoline_len,
            riscv_pcrel_hi20s,
            memory,
        );
        if done.is_err() {
            return done;
        }
        i += 1;
    }
    Ok(())
}

/// Links a module against runtime library routines at the addresses
/// `libcalls`: applies the relocations of the sections, then those of the
/// functions, to the code image, up to the first record that is refused.
pub fn link_module_with(
    libcalls: &Vec<usize>,
    allocated_functions: &FunctionMap,
    function_relocations: &Vec<(u32, Vec<Relocation>)>,
    allocated_sections: &SectionMap,
    section_relocations: &Vec<(u32, Vec<Relocation>)>,
    libcall_trampolines: u32,
    trampoline_len: usize,
    memory: &mut Memory,
) -> (done: Result<(), LinkError>)
    requires
        old(memory).wf(),
    ensures
        final(memory).wf(),
        (final(memory)@, done) == ({
            let run = layout_of(
                *allocated_functions,
                *allocated_sections,
                libcalls@,
                libcall_trampolines,
                trampoline_len,
            ).link(old(memory)@, function_relocations@, section_relocations@);
            (run.0, verdict(run.1))
        }),
{
    let mut riscv_pcrel_hi20s: HashMap<usize, u32> = HashMap::new();
    assert(riscv_pcrel_hi20s@ =~= Map::<usize, u32>::empty());
    let sections_done = link_pass(
        true,
        section_relocations,
        allocated_functions,
        allocated_sections,
        libcalls,
        libcall_trampolines,
        trampoline_len,
        &mut riscv_pcrel_hi20s,
        memory,
    );
    if sections_done.is_err() {
        return sections_done;
    }
    link_pass(
        false,
        function_relocations,
        allocated_functions,
        allocated_sections,
        libcalls,
        libcall_trampolines,
        trampoline_len,
        &mut riscv_pcrel_hi20s,
        memory,
    )
}

/// Links a module, patching the allocated functions and sections with the
/// required relocations. The runtime library routines are those of this
/// process.
pub fn link_module(
    _module: &ModuleInfo,
    allocated_functions: &FunctionMap,
    function_relocations: &Vec<(u32, Vec<Relocation>)>,
    allocated_sections: &SectionMap,
    section_relocations: &Vec<(u32, Vec<Relocation>)>,
    libcall_trampolines: u32,
    trampoline_len: usize,
    memory: &mut Memory,
) -> (done: Result<(), LinkError>)
    requires
        old(memory).wf(),
    ensures
        final(memory).wf(),
        exists|libcalls: Seq<usize>|
            (final(memory)@, done) == ({
                let run = (#[trigger] layout_of(
                    *allocated_functions,
                    *allocated_sections,
                    libcalls,
                    libcall_trampolines,
                    trampoline_len,
                )).link(old(memory)@, function_relocations@, section_relocations@);
                (run.0, verdict(run.1))
            }),
{
    let libcalls = libcall_addresses();
    link_module_with(
        &libcalls,
        allocated_functions,
        function_relocations,
        allocated_sections,
        section_relocations,
        libcall_trampolines,
        trampoline_len,
        memory,
    )
}

} // verus!
