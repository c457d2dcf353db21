//! Selection of the VMM-provided MADT among the ACPI tables that the VMM
//! hands over.
//!
//! Each table starts with the generic 36-byte ACPI system description table
//! header: a 4-byte signature, then the table's length as a little-endian
//! 32-bit value.

use vstd::prelude::*;
use vstd::bytes::{spec_u32_from_le_bytes, u32_from_le_bytes};
use vstd::slice::slice_subrange;

verus! {

/// The size of the generic ACPI system description table header.
pub const SDT_HEADER_SIZE: usize = 36;

/// Why a table handed over by the VMM is rejected.
#[derive(Clone, Copy, Debug, PartialEq, Eq, Structural)]
pub enum AcpiTableError {
    /// The table is shorter than a table header.
    InvalidTableHob,
    /// The table is shorter than the length that its header gives.
    InvalidTableLength,
}

/// The bytes of each table.
pub open spec fn table_views(ts: Seq<&[u8]>) -> Seq<Seq<u8>> {
    ts.map_values(|t: &[u8]| t@)
}

/// The length that the header of the table `t` gives.
pub open spec fn spec_sdt_length(t: Seq<u8>) -> u32 {
    spec_u32_from_le_bytes(t.subrange(4, 8))
}

/// The table `t` has the signature `APIC`: it is a MADT.
pub open spec fn spec_is_madt(t: Seq<u8>) -> bool {
    &&& t.len() >= 4
    &&& t[0] == 0x41u8
    &&& t[1] == 0x50u8
    &&& t[2] == 0x49u8
    &&& t[3] == 0x43u8
}

/// The check of one table: `None` when it is accepted.
pub open spec fn spec_table_error(t: Seq<u8>) -> Option<AcpiTableError> {
    if t.len() < SDT_HEADER_SIZE {
        Some(AcpiTableError::InvalidTableHob)
    } else if t.len() < spec_sdt_length(t) {
        Some(AcpiTableError::InvalidTableLength)
    } else {
        None
    }
}

/// The error of the first table in `ts` that fails its check, if any.
pub open spec fn spec_first_error(ts: Seq<Seq<u8>>) -> Option<AcpiTableError>
    decreases ts.len(),
{
    if ts.len() == 0 {
        None
    } else {
        match spec_first_error(ts.drop_last()) {
            Some(e) => Some(e),
            None => spec_table_error(ts.last()),
        }
    }
}

/// The walk over the list `ts` from position `idx`, with `madt` the MADT taken
/// so far: a MADT is taken out of the list and becomes the selected one, and
/// the walk goes on at the position after the one it was taken from, so the
/// table that moved into its place is passed over and stays in the list. The
/// result is the remaining list and the selected MADT.
pub open spec fn spec_walk(ts: Seq<Seq<u8>>, idx: int, madt: Option<Seq<u8>>) -> (
    Seq<Seq<u8>>,
    Option<Seq<u8>>,
)
    decreases ts.len() + 1 - idx,
{
    if idx < 0 || idx >= ts.len() {
        (ts, madt)
    } else if spec_is_madt(ts[idx]) {
        spec_walk(ts.remove(idx), idx + 1, Some(ts[idx]))
    } else {
        spec_walk(ts, idx + 1, madt)
    }
}

/// The walk over the whole list: the remaining tables and the selected MADT.
pub open spec fn spec_select_madt(ts: Seq<Seq<u8>>) -> (Seq<Seq<u8>>, Option<Seq<u8>>) {
    spec_walk(ts, 0, None)
}

fn table_error(t: &[u8]) -> (r: Option<AcpiTableError>)
    ensures
        r == spec_table_error(t@),
{
    if t.len() < SDT_HEADER_SIZE {
        return Some(AcpiTableError::InvalidTableHob);
    }
    let length = u32_from_le_bytes(slice_subrange(t, 4, 8));
    if (t.len() as u64) < (length as u64) {
        Some(AcpiTableError::InvalidTableLength)
    } else {
        None
    }
}

fn is_madt(t: &[u8]) -> (r: bool)
    ensures
        r == spec_is_madt(t@),
{
    t.len() >= 4 && t[0] == 0x41u8 && t[1] == 0x50u8 && t[2] == 0x49u8 && t[3] == 0x43u8
}

proof fn lemma_prefix_step(ts: Seq<Seq<u8>>, j: int)
    requires
        0 <= j < ts.len(),
    ensures
        ts.subrange(0, j + 1).drop_last() == ts.subrange(0, j),
        ts.subrange(0, j + 1).last() == ts[j],
{
    assert(ts.subrange(0, j + 1).drop_last() =~= ts.subrange(0, j));
}

/// Takes the VMM's MADT out of the ACPI tables that the VMM handed over.
///
/// The tables are walked in order; a table with the signature `APIC` is taken
/// out of the list and becomes the selected MADT (the last one taken wins),
/// and the table that moves into its place is passed over. Every table must
/// pass its check (see `check_acpi_tables`).
pub fn take_vmm_madt<'a>(tables: &mut Vec<&'a [u8]>) -> (r: Option<&'a [u8]>)
    requires
        spec_first_error(table_views(old(tables)@)) is None,
    ensures
        table_views(final(tables)@) == spec_select_madt(table_views(old(tables)@)).0,
        match r {
            Some(t) => spec_select_madt(table_views(old(tables)@)).1 == Some(t@),
            None => spec_select_madt(table_views(old(tables)@)).1 is None,
        },
{
    let ghost ts0 = table_views(tables@);
    let mut vmm_madt: Option<&'a [u8]> = None;
    let mut idx: usize = 0;
    while idx < tables.len()
        invariant
            idx <= tables@.len() + 1,
            ts0 == table_views(old(tables)@),
            spec_select_madt(ts0) == spec_walk(
                table_views(tables@),
                idx as int,
                match vmm_madt {
                    Some(t) => Some(t@),
                    None => None,
                },
            ),
        decreases tables@.len() + 1 - idx,
    {
        let table: &'a [u8] = tables[idx];
        let ghost cur = table_views(tables@);
        assert(cur.len() == tables@.len());
        assert(cur[idx as int] == table@);
        if is_madt(table) {
            vmm_madt = Some(table);
            tables.remove(idx);
            assert(table_views(tables@) =~= cur.remove(idx as int));
        }
        idx = idx + 1;
    }
    vmm_madt
}

/// Checks every ACPI table that the VMM handed over: the error of the first
/// table that fails, or `Ok` when every table passes.
pub fn check_acpi_tables(tables: &Vec<&[u8]>) -> (r: Result<(), AcpiTableError>)
    ensures
        match r {
            Ok(()) => spec_first_error(table_views(tables@)) is None,
            Err(e) => spec_first_error(table_views(tables@)) == Some(e),
        },
{
    let ghost ts = table_views(tables@);
    let mut j: usize = 0;
    while j < tables.len()
        invariant
            ts == table_views(tables@),
            j <= tables@.len(),
            spec_first_error(ts.subrange(0, j as int)) is None,
        decreases tables@.len() - j,
    {
        proof {
            lemma_prefix_step(ts, j as int);
        }
        match table_error(tables[j]) {
            Some(e) => {
                proof {
                    lemma_first_error_extends(ts, j as int + 1);
                }
                return Err(e);
            },
            None => {},
        }
        j = j + 1;
    }
    assert(ts.subrange(0, j as int) =~= ts);
    Ok(())
}

/// Once a prefix of the list has an error, the whole list has the same first error.
proof fn lemma_first_error_extends(ts: Seq<Seq<u8>>, k: int)
    requires
        0 <= k <= ts.len(),
        spec_first_error(ts.subrange(0, k)) is Some,
    ensures
        spec_first_error(ts) == spec_first_error(ts.subrange(0, k)),
    decreases ts.len() - k,
{
    if k == ts.len() {
        assert(ts.subrange(0, k) =~= ts);
    } else {
        lemma_prefix_step(ts, k);
        lemma_first_error_extends(ts, k + 1);
    }
}

proof fn lemma_walk(ts: Seq<Seq<u8>>, idx: int, m0: Option<Seq<u8>>)
    requires
        0 <= idx,
    ensures
        ({
            let (kept, m) = spec_walk(ts, idx, m0);
            &&& kept.len() <= ts.len()
            &&& forall|t: Seq<u8>|
                !spec_is_madt(t) ==> kept.to_multiset().count(t) == ts.to_multiset().count(t)
            &&& forall|t: Seq<u8>| kept.to_multiset().count(t) <= ts.to_multiset().count(t)
            &&& kept.len() == ts.len() ==> kept == ts && m == m0
            &&& kept.len() < ts.len() ==> m is Some && spec_is_madt(m->0) && ts.contains(m->0)
            &&& (exists|j: int| idx <= j < ts.len() && spec_is_madt(#[trigger] ts[j])) ==> kept.len()
                < ts.len()
        }),
    decreases ts.len() + 1 - idx,
{
    broadcast use vstd::seq_lib::to_multiset_remove, vstd::seq_lib::to_multiset_contains;

    if idx >= ts.len() {
    } else {
        let t = ts[idx];
        if spec_is_madt(t) {
            let ts1 = ts.remove(idx);
            lemma_walk(ts1, idx + 1, Some(t));
            assert(ts1.to_multiset() == ts.to_multiset().remove(t));
            assert(ts.contains(t));
            let (kept, m) = spec_walk(ts, idx, m0);
            if kept.len() < ts1.len() {
                let w = m->0;
                assert(ts1.to_multiset().count(w) > 0);
                assert(ts.to_multiset().count(w) > 0);
            }
        } else {
            lemma_walk(ts, idx + 1, m0);
            if exists|j: int| idx <= j < ts.len() && spec_is_madt(#[trigger] ts[j]) {
                let j = choose|j: int| idx <= j < ts.len() && spec_is_madt(#[trigger] ts[j]);
                assert(j != idx);
                assert(idx + 1 <= j < ts.len() && spec_is_madt(ts[j]));
            }
        }
    }
}

/// Selecting the MADT only takes MADTs out of the list: every other table
/// stays, as often as it occurs, and nothing is added; a MADT is selected
/// exactly when the list holds one, and exactly when the list changes; the
/// selected table is a MADT of the list.
pub proof fn lemma_select_madt(ts: Seq<Seq<u8>>)
    ensures
        ({
            let (kept, m) = spec_select_madt(ts);
            &&& forall|t: Seq<u8>|
                !spec_is_madt(t) ==> kept.to_multiset().count(t) == ts.to_multiset().count(t)
            &&& forall|t: Seq<u8>| kept.to_multiset().count(t) <= ts.to_multiset().count(t)
            &&& (m is None <==> kept == ts)
            &&& (m is None <==> forall|j: int| 0 <= j < ts.len() ==> !spec_is_madt(#[trigger] ts[j]))
            &&& m is Some ==> spec_is_madt(m->0) && ts.contains(m->0)
        }),
{
    lemma_walk(ts, 0, None);
    let (kept, m) = spec_select_madt(ts);
    if m is Some {
        let w = m->0;
        let j = choose|j: int| 0 <= j < ts.len() && ts[j] == w;
        assert(spec_is_madt(ts[j]));
    }
}


/// The last MADT in `ts`, if any.
pub open spec fn spec_last_madt(ts: Seq<Seq<u8>>) -> Option<Seq<u8>>
    decreases ts.len(),
{
    if ts.len() == 0 {
        None
    } else if spec_is_madt(ts.last()) {
        Some(ts.last())
    } else {
        spec_last_madt(ts.drop_last())
    }
}

/// The tables of `ts` that are not MADTs, in order.
pub open spec fn spec_non_madt_tables(ts: Seq<Seq<u8>>) -> Seq<Seq<u8>> {
    ts.filter(|t: Seq<u8>| !spec_is_madt(t))
}

/// No two neighbouring tables of `ts` are both MADTs.
pub open spec fn no_adjacent_madts(ts: Seq<Seq<u8>>) -> bool {
    forall|i: int| 0 <= i < ts.len() - 1 ==> !(spec_is_madt(#[trigger] ts[i]) && spec_is_madt(ts[i + 1]))
}

proof fn lemma_last_madt_append(a: Seq<Seq<u8>>, b: Seq<Seq<u8>>)
    ensures
        spec_last_madt(a + b) == if spec_last_madt(b) is Some {
            spec_last_madt(b)
        } else {
            spec_last_madt(a)
        },
    decreases b.len(),
{
    if b.len() == 0 {
        assert(a + b =~= a);
    } else {
        assert((a + b).drop_last() =~= a + b.drop_last());
        assert((a + b).last() == b.last());
        lemma_last_madt_append(a, b.drop_last());
    }
}

proof fn lemma_non_madt_cons(x: Seq<u8>, r: Seq<Seq<u8>>)
    ensures
        spec_non_madt_tables(seq![x] + r) == if spec_is_madt(x) {
            spec_non_madt_tables(r)
        } else {
            seq![x] + spec_non_madt_tables(r)
        },
{
    reveal(Seq::filter);
    let p = |t: Seq<u8>| !spec_is_madt(t);
    Seq::filter_distributes_over_add(seq![x], r, p);
    assert(seq![x].drop_last() =~= Seq::<Seq<u8>>::empty());
    assert(Seq::<Seq<u8>>::empty().filter(p) =~= Seq::<Seq<u8>>::empty());
    if spec_is_madt(x) {
        assert(seq![x].filter(p) =~= Seq::<Seq<u8>>::empty());
    } else {
        assert(seq![x].filter(p) =~= seq![x]);
    }
}

proof fn lemma_walk_no_adjacent(pre: Seq<Seq<u8>>, r: Seq<Seq<u8>>, m0: Option<Seq<u8>>)
    requires
        no_adjacent_madts(r),
    ensures
        spec_walk(pre + r, pre.len() as int, m0) == (
            pre + spec_non_madt_tables(r),
            if spec_last_madt(r) is Some {
                spec_last_madt(r)
            } else {
                m0
            },
        ),
    decreases r.len(),
{
    reveal(Seq::filter);
    let ts = pre + r;
    let idx = pre.len() as int;
    if r.len() == 0 {
        assert(ts =~= pre);
        assert(spec_non_madt_tables(r) =~= r);
        assert(pre + spec_non_madt_tables(r) =~= pre);
    } else {
        let x = r[0];
        let rest = r.drop_first();
        assert(r =~= seq![x] + rest);
        lemma_non_madt_cons(x, rest);
        lemma_last_madt_append(seq![x], rest);
        assert(ts[idx] == x);
        assert(spec_last_madt(seq![x]) == if spec_is_madt(x) { Some(x) } else { None::<Seq<u8>> }) by {
            assert(seq![x].drop_last() =~= Seq::<Seq<u8>>::empty());
            assert(seq![x].last() == x);
            assert(spec_last_madt(Seq::<Seq<u8>>::empty()) is None);
        }
        if spec_is_madt(x) {
            assert(ts.remove(idx) =~= pre + rest);
            assert(spec_walk(ts, idx, m0) == spec_walk(pre + rest, idx + 1, Some(x)));
            if rest.len() == 0 {
                assert(pre + rest =~= pre);
                assert(spec_walk(pre, idx + 1, Some(x)) == (pre, Some(x)));
                assert(spec_last_madt(rest) is None);
                assert(spec_non_madt_tables(rest) =~= rest);
                assert(pre + spec_non_madt_tables(r) =~= pre);
            } else {
                let y = rest[0];
                assert(!spec_is_madt(y)) by {
                    assert(r[1] == y);
                    assert(spec_is_madt(r[0]));
                }
                let rest2 = rest.drop_first();
                assert(rest =~= seq![y] + rest2);
                assert(pre + rest =~= (pre + seq![y]) + rest2);
                assert(no_adjacent_madts(rest2)) by {
                    assert forall|i: int| 0 <= i < rest2.len() - 1 implies !(spec_is_madt(
                        #[trigger] rest2[i],
                    ) && spec_is_madt(rest2[i + 1])) by {
                        assert(rest2[i] == r[i + 2] && rest2[i + 1] == r[i + 3]);
                    }
                }
                lemma_walk_no_adjacent(pre + seq![y], rest2, Some(x));
                lemma_non_madt_cons(y, rest2);
                lemma_last_madt_append(seq![y], rest2);
                assert(seq![y].drop_last() =~= Seq::<Seq<u8>>::empty());
                assert(seq![y].last() == y);
                assert(spec_last_madt(Seq::<Seq<u8>>::empty()) is None);
                assert(spec_last_madt(seq![y]) is None);
                assert((pre + seq![y]).len() == idx + 1);
                assert((pre + seq![y]) + spec_non_madt_tables(rest2) =~= pre + (seq![y]
                    + spec_non_madt_tables(rest2)));
            }
        } else {
            assert(ts =~= (pre + seq![x]) + rest);
            assert(no_adjacent_madts(rest)) by {
                assert forall|i: int| 0 <= i < rest.len() - 1 implies !(spec_is_madt(
                    #[trigger] rest[i],
                ) && spec_is_madt(rest[i + 1])) by {
                    assert(rest[i] == r[i + 1] && rest[i + 1] == r[i + 2]);
                }
            }
            lemma_walk_no_adjacent(pre + seq![x], rest, m0);
            assert(spec_walk(ts, idx, m0) == spec_walk(ts, idx + 1, m0));
            assert((pre + seq![x]) + spec_non_madt_tables(rest) =~= pre + (seq![x]
                + spec_non_madt_tables(rest)));
        }
    }
}

/// Where no two neighbouring tables are MADTs, selecting the MADT takes every
/// MADT out of the list, keeps the other tables in order, and selects the last
/// MADT.
pub proof fn lemma_select_madt_no_adjacent(ts: Seq<Seq<u8>>)
    requires
        no_adjacent_madts(ts),
    ensures
        spec_select_madt(ts) == (spec_non_madt_tables(ts), spec_last_madt(ts)),
{
    let e = Seq::<Seq<u8>>::empty();
    assert(e + ts =~= ts);
    lemma_walk_no_adjacent(e, ts, None);
    assert(e + spec_non_madt_tables(ts) =~= spec_non_madt_tables(ts));
}


/// A table passes its check exactly when it holds a whole header (36 bytes)
/// and is at least as long as the length that its header gives (the
/// little-endian value of bytes 4 to 7). A table shorter than a header fails
/// with `InvalidTableHob`; a table with a whole header that is shorter than
/// its given length fails with `InvalidTableLength`.
pub proof fn lemma_table_check(t: Seq<u8>)
    ensures
        spec_table_error(t) is None <==> (t.len() >= 36 && spec_u32_from_le_bytes(t.subrange(4, 8))
            <= t.len()),
        spec_table_error(t) == Some(AcpiTableError::InvalidTableHob) <==> t.len() < 36,
        spec_table_error(t) == Some(AcpiTableError::InvalidTableLength) <==> (t.len() >= 36
            && t.len() < spec_u32_from_le_bytes(t.subrange(4, 8))),
{
}

} // verus!
