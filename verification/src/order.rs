//! Order independence: what the records of one body do together does not
//! depend on the order they come in, as long as their windows keep apart
//! and no `RiscvPCRelLo12I` among them waits for a `RiscvPCRelHi20` among
//! them.

use vstd::prelude::*;
use crate::laws::{lemma_patch_is_local, lemma_patch_lies_in_body, lemma_window_apart_from_patch};
use crate::link::{Layout, Linking, Patch};
use crate::memory::mapped;
use crate::relocation::{Relocation, RelocationKind};

verus! {

/// Whether the windows of two records of one body keep apart.
pub open spec fn apart(r: Relocation, q: Relocation) -> bool {
    r.offset + r.kind.patch_width() <= q.offset || q.offset + q.kind.patch_width() <= r.offset
}

/// Whether the windows of the records of one body keep apart from one
/// another.
pub open spec fn windows_apart(records: Seq<Relocation>) -> bool {
    forall|i: int, j: int|
        0 <= i < records.len() && 0 <= j < records.len() && i != j ==> apart(
            #[trigger] records[i],
            #[trigger] records[j],
        )
}

/// Whether `lo`, if it is a `RiscvPCRelLo12I` that names the instruction of
/// `hi`, a `RiscvPCRelHi20`, finds on record already what `hi` will record.
pub open spec fn settled(
    layout: Layout,
    state: Linking,
    body: usize,
    body_len: Option<usize>,
    lo: Relocation,
    hi: Relocation,
) -> bool {
    let l = layout.locate(body, body_len, lo);
    let h = layout.locate(body, body_len, hi);
    l is Ok && h is Ok && lo.kind == RelocationKind::RiscvPCRelLo12I && hi.kind
        == RelocationKind::RiscvPCRelHi20 && l.unwrap().key() == h.unwrap().site
        ==> state.hi20s.dom().contains(h.unwrap().site) && state.hi20s[h.unwrap().site]
        == h.unwrap().value as u32
}

/// Whether no `RiscvPCRelLo12I` among the records depends on a
/// `RiscvPCRelHi20` among them: where one names the instruction of another,
/// what that one will record is on record already.
pub open spec fn pairs_settled(
    layout: Layout,
    state: Linking,
    body: usize,
    body_len: Option<usize>,
    records: Seq<Relocation>,
) -> bool {
    forall|i: int, j: int|
        0 <= i < records.len() && 0 <= j < records.len() ==> settled(
            layout,
            state,
            body,
            body_len,
            #[trigger] records[i],
            #[trigger] records[j],
        )
}

/// Whether the window of `r`, in a body that starts at `body`, holds `a`.
pub open spec fn reaches(body: usize, r: Relocation, a: int) -> bool {
    body + r.offset <= a < body + r.offset + r.kind.patch_width()
}

/// Whether no window of `records` holds `a`.
pub open spec fn untouched(body: usize, records: Seq<Relocation>, a: int) -> bool {
    forall|i: int| 0 <= i < records.len() ==> !reaches(body, #[trigger] records[i], a)
}

/// Whether a `RiscvPCRelHi20` among `records` has its instruction at `k`.
pub open spec fn recorded(body: usize, records: Seq<Relocation>, k: usize) -> bool {
    exists|i: int|
        0 <= i < records.len() && (#[trigger] records[i]).kind == RelocationKind::RiscvPCRelHi20
            && body + records[i].offset == k
}

/// The state after `r` alone is applied.
pub open spec fn alone(
    layout: Layout,
    state: Linking,
    body: usize,
    body_len: Option<usize>,
    r: Relocation,
) -> Linking {
    layout.apply(state, body, body_len, r).unwrap()
}

/// Whether `end` is what the records do one by one, each taken alone: every
/// byte in a window is as the record of that window leaves it, every other
/// byte is as before; and likewise of what the `RiscvPCRelHi20` among them
/// record.
pub open spec fn sums_up(
    layout: Layout,
    state: Linking,
    body: usize,
    body_len: Option<usize>,
    records: Seq<Relocation>,
    end: Linking,
) -> bool {
    &&& end.image.dom() == state.image.dom()
    &&& forall|i: int, a: int|
        0 <= i < records.len() && #[trigger] reaches(body, records[i], a) ==> end.image[a]
            == alone(layout, state, body, body_len, records[i]).image[a]
    &&& forall|a: int|
        state.image.dom().contains(a) && untouched(body, records, a) ==> #[trigger] end.image[a]
            == state.image[a]
    &&& forall|k: usize|
        #[trigger] end.hi20s.dom().contains(k) <==> state.hi20s.dom().contains(k) || recorded(
            body,
            records,
            k,
        )
    &&& forall|i: int|
        0 <= i < records.len() && (#[trigger] records[i]).kind == RelocationKind::RiscvPCRelHi20
            ==> end.hi20s[(body + records[i].offset) as usize] == alone(
            layout,
            state,
            body,
            body_len,
            records[i],
        ).hi20s[(body + records[i].offset) as usize]
    &&& forall|k: usize|
        state.hi20s.dom().contains(k) && !recorded(body, records, k) ==> #[trigger] end.hi20s[k]
            == state.hi20s[k]
}

/// Once the first record is applied, the others keep apart and stay
/// settled, and each of them that could be applied before can be applied
/// now, with the same effect on its own window.
proof fn lemma_after_first(
    layout: Layout,
    state: Linking,
    body: usize,
    body_len: Option<usize>,
    records: Seq<Relocation>,
)
    requires
        records.len() > 0,
        layout.apply(state, body, body_len, records[0]) is Ok,
        windows_apart(records),
        pairs_settled(layout, state, body, body_len, records),
    ensures
        windows_apart(records.drop_first()),
        pairs_settled(
            layout,
            alone(layout, state, body, body_len, records[0]),
            body,
            body_len,
            records.drop_first(),
        ),
        forall|i: int|
            1 <= i < records.len() ==> (layout.apply(state, body, body_len, #[trigger] records[i]) is Ok
                <==> layout.apply(
                alone(layout, state, body, body_len, records[0]),
                body,
                body_len,
                records[i],
            ) is Ok),
        forall|i: int, a: int|
            1 <= i < records.len() && layout.apply(state, body, body_len, records[i]) is Ok
                && #[trigger] reaches(body, records[i], a) ==> alone(
                layout,
                alone(layout, state, body, body_len, records[0]),
                body,
                body_len,
                records[i],
            ).image[a] == alone(layout, state, body, body_len, records[i]).image[a],
{
    let head = records[0];
    let rest = records.drop_first();
    let lead = layout.locate(body, body_len, head).unwrap();
    let next = alone(layout, state, body, body_len, head);
    lemma_patch_lies_in_body(layout, body, body_len, head);
    lemma_patch_is_local(state, lead);
    assert forall|i: int, j: int|
        0 <= i < rest.len() && 0 <= j < rest.len() && i != j implies apart(
        #[trigger] rest[i],
        #[trigger] rest[j],
    ) by {
        assert(apart(records[i + 1], records[j + 1]));
    }
    // What the records after the first find on record is what they found before.
    assert forall|i: int| 1 <= i < records.len() implies ({
        let l = layout.locate(body, body_len, #[trigger] records[i]);
        l is Ok && records[i].kind == RelocationKind::RiscvPCRelLo12I && state.hi20s.dom().contains(
            l.unwrap().key(),
        ) ==> next.hi20s.dom().contains(l.unwrap().key()) && next.hi20s[l.unwrap().key()]
            == state.hi20s[l.unwrap().key()]
    }) by {
        assert(settled(layout, state, body, body_len, records[i], records[0]));
    }
    assert forall|i: int, j: int| 0 <= i < rest.len() && 0 <= j < rest.len() implies settled(
        layout,
        next,
        body,
        body_len,
        #[trigger] rest[i],
        #[trigger] rest[j],
    ) by {
        let lo = records[i + 1];
        let hi = records[j + 1];
        assert(settled(layout, state, body, body_len, lo, hi));
        let h = layout.locate(body, body_len, hi);
        if h is Ok && hi.kind == RelocationKind::RiscvPCRelHi20 {
            lemma_patch_lies_in_body(layout, body, body_len, hi);
            assert(apart(records[0], records[j + 1]));
        }
    }
    assert forall|i: int| 1 <= i < records.len() implies (layout.apply(
        state,
        body,
        body_len,
        #[trigger] records[i],
    ) is Ok <==> layout.apply(next, body, body_len, records[i]) is Ok) by {
        let l = layout.locate(body, body_len, records[i]);
        if l is Ok {
            let p = l.unwrap();
            lemma_patch_lies_in_body(layout, body, body_len, records[i]);
            assert(settled(layout, state, body, body_len, records[i], records[0]));
            assert(mapped(state.image, p.site as int, p.kind.patch_width()) <==> mapped(
                next.image,
                p.site as int,
                p.kind.patch_width(),
            ));
        }
    }
    assert forall|i: int, a: int|
        1 <= i < records.len() && layout.apply(state, body, body_len, records[i]) is Ok
            && #[trigger] reaches(body, records[i], a) implies alone(
        layout,
        next,
        body,
        body_len,
        records[i],
    ).image[a] == alone(layout, state, body, body_len, records[i]).image[a] by {
        let p = layout.locate(body, body_len, records[i]).unwrap();
        lemma_patch_lies_in_body(layout, body, body_len, records[i]);
        assert(apart(records[0], records[i]));
        assert(settled(layout, state, body, body_len, records[i], records[0]));
        lemma_window_apart_from_patch(state, lead, p);
        assert(next.paired(p) == state.paired(p));
        assert(state.image.dom().contains(a));
    }
}

/// The records of one body, where their windows keep apart and their pairs
/// are settled, do together what each does alone.
pub proof fn lemma_body_sums_up(
    layout: Layout,
    state: Linking,
    body: usize,
    body_len: Option<usize>,
    records: Seq<Relocation>,
)
    requires
        layout.apply_all(state, body, body_len, records).1 is None,
        windows_apart(records),
        pairs_settled(layout, state, body, body_len, records),
    ensures
        forall|i: int|
            0 <= i < records.len() ==> layout.apply(state, body, body_len, #[trigger] records[i]) is Ok,
        sums_up(
            layout,
            state,
            body,
            body_len,
            records,
            layout.apply_all(state, body, body_len, records).0,
        ),
    decreases records.len(),
{
    if records.len() > 0 {
        let head = records[0];
        let rest = records.drop_first();
        let lead = layout.locate(body, body_len, head).unwrap();
        let next = alone(layout, state, body, body_len, head);
        let end = layout.apply_all(state, body, body_len, records).0;
        assert(end == layout.apply_all(next, body, body_len, rest).0);
        lemma_after_first(layout, state, body, body_len, records);
        lemma_body_sums_up(layout, next, body, body_len, rest);
        lemma_patch_lies_in_body(layout, body, body_len, head);
        lemma_patch_is_local(state, lead);
        assert forall|i: int| 0 <= i < records.len() implies layout.apply(
            state,
            body,
            body_len,
            #[trigger] records[i],
        ) is Ok by {
            if i > 0 {
                assert(rest[i - 1] == records[i]);
            }
        }
        assert forall|a: int| reaches(body, head, a) implies untouched(body, rest, a) by {
            assert forall|j: int| 0 <= j < rest.len() implies !reaches(
                body,
                #[trigger] rest[j],
                a,
            ) by {
                assert(apart(records[0], records[j + 1]));
            }
        }
        assert forall|i: int, a: int|
            0 <= i < records.len() && #[trigger] reaches(body, records[i], a) implies end.image[a]
            == alone(layout, state, body, body_len, records[i]).image[a] by {
            if i > 0 {
                assert(rest[i - 1] == records[i]);
                assert(reaches(body, rest[i - 1], a));
            } else {
                assert(lead.touches(a));
                assert(next.image.dom().contains(a));
            }
        }
        assert forall|a: int|
            state.image.dom().contains(a) && untouched(body, records, a) implies #[trigger] end.image[a]
            == state.image[a] by {
            assert forall|j: int| 0 <= j < rest.len() implies !reaches(
                body,
                #[trigger] rest[j],
                a,
            ) by {
                assert(!reaches(body, records[j + 1], a));
            }
            assert(!reaches(body, records[0], a));
            assert(!lead.touches(a));
        }
        assert forall|k: usize| recorded(body, records, k) <==> (head.kind
            == RelocationKind::RiscvPCRelHi20 && body + head.offset == k) || recorded(
            body,
            rest,
            k,
        ) by {
            if recorded(body, records, k) {
                let i = choose|i: int|
                    0 <= i < records.len() && (#[trigger] records[i]).kind
                        == RelocationKind::RiscvPCRelHi20 && body + records[i].offset == k;
                if i > 0 {
                    assert(rest[i - 1] == records[i]);
                }
            }
            if recorded(body, rest, k) {
                let i = choose|i: int|
                    0 <= i < rest.len() && (#[trigger] rest[i]).kind
                        == RelocationKind::RiscvPCRelHi20 && body + rest[i].offset == k;
                assert(records[i + 1] == rest[i]);
            }
            if head.kind == RelocationKind::RiscvPCRelHi20 && body + head.offset == k {
                assert(records[0] == head);
            }
        }
        assert forall|k: usize| #[trigger]
            end.hi20s.dom().contains(k) <==> state.hi20s.dom().contains(k) || recorded(
                body,
                records,
                k,
            ) by {
        }
        if head.kind == RelocationKind::RiscvPCRelHi20 {
            assert(!recorded(body, rest, lead.site)) by {
                if recorded(body, rest, lead.site) {
                    let i = choose|i: int|
                        0 <= i < rest.len() && (#[trigger] rest[i]).kind
                            == RelocationKind::RiscvPCRelHi20 && body + rest[i].offset == lead.site;
                    assert(apart(records[0], records[i + 1]));
                }
            }
        }
        assert forall|i: int|
            0 <= i < records.len() && (#[trigger] records[i]).kind
                == RelocationKind::RiscvPCRelHi20 implies end.hi20s[(body
            + records[i].offset) as usize] == alone(
            layout,
            state,
            body,
            body_len,
            records[i],
        ).hi20s[(body + records[i].offset) as usize] by {
            lemma_patch_lies_in_body(layout, body, body_len, records[i]);
            if i > 0 {
                assert(rest[i - 1] == records[i]);
            }
        }
        assert forall|k: usize|
            state.hi20s.dom().contains(k) && !recorded(body, records, k) implies #[trigger] end.hi20s[k]
            == state.hi20s[k] by {
        }
    }
}

/// Records that can each be applied alone can be applied one after another,
/// where their windows keep apart and their pairs are settled.
pub proof fn lemma_body_is_accepted(
    layout: Layout,
    state: Linking,
    body: usize,
    body_len: Option<usize>,
    records: Seq<Relocation>,
)
    requires
        forall|i: int|
            0 <= i < records.len() ==> layout.apply(state, body, body_len, #[trigger] records[i]) is Ok,
        windows_apart(records),
        pairs_settled(layout, state, body, body_len, records),
    ensures
        layout.apply_all(state, body, body_len, records).1 is None,
    decreases records.len(),
{
    if records.len() > 0 {
        let rest = records.drop_first();
        let next = alone(layout, state, body, body_len, records[0]);
        lemma_after_first(layout, state, body, body_len, records);
        assert forall|i: int| 0 <= i < rest.len() implies layout.apply(
            next,
            body,
            body_len,
            #[trigger] rest[i],
        ) is Ok by {
            assert(rest[i] == records[i + 1]);
        }
        lemma_body_is_accepted(layout, next, body, body_len, rest);
    }
}

/// Order independence within a body: records whose windows keep apart and
/// whose pairs are settled, and which the linker accepts in one order, are
/// accepted in any other order and leave the same bytes and the same
/// record of `RiscvPCRelHi20` distances.
pub proof fn lemma_order_within_body(
    layout: Layout,
    state: Linking,
    body: usize,
    body_len: Option<usize>,
    first: Seq<Relocation>,
    second: Seq<Relocation>,
)
    requires
        first.to_multiset() == second.to_multiset(),
        windows_apart(first),
        pairs_settled(layout, state, body, body_len, first),
        layout.apply_all(state, body, body_len, first).1 is None,
    ensures
        layout.apply_all(state, body, body_len, second) == layout.apply_all(
            state,
            body,
            body_len,
            first,
        ),
{
    lemma_body_sums_up(layout, state, body, body_len, first);
    first.to_multiset_ensures();
    second.to_multiset_ensures();
    assert forall|x: Relocation| first.contains(x) <==> second.contains(x) by {
        assert(first.contains(x) <==> first.to_multiset().count(x) > 0);
        assert(second.contains(x) <==> second.to_multiset().count(x) > 0);
    }
    assert(first.no_duplicates()) by {
        assert forall|i: int, j: int|
            0 <= i < first.len() && 0 <= j < first.len() && i != j implies first[i]
            != first[j] by {
            assert(apart(first[i], first[j]));
            assert(layout.apply(state, body, body_len, first[i]) is Ok);
        }
    }
    first.lemma_multiset_has_no_duplicates();
    second.lemma_multiset_has_no_duplicates_conv();
    // Each record of the second order is a record of the first.
    assert forall|j: int| 0 <= j < second.len() implies first.contains(#[trigger] second[j]) by {
        assert(second.contains(second[j]));
    }
    assert forall|i: int| 0 <= i < first.len() implies second.contains(#[trigger] first[i]) by {
        assert(first.contains(first[i]));
    }
    assert forall|i: int, j: int|
        0 <= i < second.len() && 0 <= j < second.len() && i != j implies apart(
        #[trigger] second[i],
        #[trigger] second[j],
    ) by {
        let a = choose|a: int| 0 <= a < first.len() && first[a] == second[i];
        let b = choose|b: int| 0 <= b < first.len() && first[b] == second[j];
        assert(apart(first[a], first[b]));
    }
    assert forall|i: int, j: int| 0 <= i < second.len() && 0 <= j < second.len() implies settled(
        layout,
        state,
        body,
        body_len,
        #[trigger] second[i],
        #[trigger] second[j],
    ) by {
        let a = choose|a: int| 0 <= a < first.len() && first[a] == second[i];
        let b = choose|b: int| 0 <= b < first.len() && first[b] == second[j];
        assert(settled(layout, state, body, body_len, first[a], first[b]));
    }
    assert forall|j: int| 0 <= j < second.len() implies layout.apply(
        state,
        body,
        body_len,
        #[trigger] second[j],
    ) is Ok by {
        let a = choose|a: int| 0 <= a < first.len() && first[a] == second[j];
        assert(layout.apply(state, body, body_len, first[a]) is Ok);
    }
    lemma_body_is_accepted(layout, state, body, body_len, second);
    lemma_body_sums_up(layout, state, body, body_len, second);
    let one = layout.apply_all(state, body, body_len, first).0;
    let other = layout.apply_all(state, body, body_len, second).0;
    lemma_same_sum(layout, state, body, body_len, first, second, one, other);
}

/// Two states that sum up the same records, in whatever order, are one
/// state.
proof fn lemma_same_sum(
    layout: Layout,
    state: Linking,
    body: usize,
    body_len: Option<usize>,
    first: Seq<Relocation>,
    second: Seq<Relocation>,
    one: Linking,
    other: Linking,
)
    requires
        forall|j: int| 0 <= j < second.len() ==> first.contains(#[trigger] second[j]),
        forall|i: int| 0 <= i < first.len() ==> second.contains(#[trigger] first[i]),
        sums_up(layout, state, body, body_len, first, one),
        sums_up(layout, state, body, body_len, second, other),
    ensures
        one == other,
{
    assert forall|a: int| untouched(body, first, a) <==> untouched(body, second, a) by {
        if untouched(body, first, a) {
            assert forall|j: int| 0 <= j < second.len() implies !reaches(
                body,
                #[trigger] second[j],
                a,
            ) by {
                let i = choose|i: int| 0 <= i < first.len() && first[i] == second[j];
                assert(!reaches(body, first[i], a));
            }
        }
        if untouched(body, second, a) {
            assert forall|i: int| 0 <= i < first.len() implies !reaches(
                body,
                #[trigger] first[i],
                a,
            ) by {
                let j = choose|j: int| 0 <= j < second.len() && second[j] == first[i];
                assert(!reaches(body, second[j], a));
            }
        }
    }
    assert forall|a: int| one.image.dom().contains(a) implies #[trigger] one.image[a]
        == other.image[a] by {
        if untouched(body, first, a) {
        } else {
            let i = choose|i: int| 0 <= i < first.len() && reaches(body, #[trigger] first[i], a);
            let j = choose|j: int| 0 <= j < second.len() && second[j] == first[i];
            assert(reaches(body, second[j], a));
        }
    }
    assert(one.image =~= other.image);
    assert forall|k: usize| recorded(body, first, k) <==> recorded(body, second, k) by {
        if recorded(body, first, k) {
            let i = choose|i: int|
                0 <= i < first.len() && (#[trigger] first[i]).kind
                    == RelocationKind::RiscvPCRelHi20 && body + first[i].offset == k;
            let j = choose|j: int| 0 <= j < second.len() && second[j] == first[i];
            assert(second[j].kind == RelocationKind::RiscvPCRelHi20);
        }
        if recorded(body, second, k) {
            let j = choose|j: int|
                0 <= j < second.len() && (#[trigger] second[j]).kind
                    == RelocationKind::RiscvPCRelHi20 && body + second[j].offset == k;
            let i = choose|i: int| 0 <= i < first.len() && first[i] == second[j];
            assert(first[i].kind == RelocationKind::RiscvPCRelHi20);
        }
    }
    assert forall|k: usize| one.hi20s.dom().contains(k) implies #[trigger] one.hi20s[k]
        == other.hi20s[k] by {
        if recorded(body, first, k) {
            let i = choose|i: int|
                0 <= i < first.len() && (#[trigger] first[i]).kind
                    == RelocationKind::RiscvPCRelHi20 && body + first[i].offset == k;
            let j = choose|j: int| 0 <= j < second.len() && second[j] == first[i];
            assert(second[j].kind == RelocationKind::RiscvPCRelHi20);
        }
    }
    assert(one.hi20s =~= other.hi20s);
}

} // verus!
