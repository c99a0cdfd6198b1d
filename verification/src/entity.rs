//! The `Registration` entity and its row mapping: the canonical date string,
//! the denormalized `dateint` key derived from it, and per-row decoding that
//! skips malformed rows instead of failing a whole read.

use vstd::prelude::*;
use crate::datetime::{Timestamp, spec_format, spec_parse, lemma_format_parse_roundtrip};

verus! {

/// The sole entity: a dated registration of a quantity against an item.
///
/// `id` is the store-assigned surrogate key: `0` while the entity is
/// transient, non-zero once persisted. `dateint` is a denormalized filter
/// key, always derived from `date`, never supplied directly.
#[derive(Debug)]
pub struct Registration {
    pub id: i32,
    pub date: String,
    pub dateint: i32,
    pub item_id: i32,
    pub quantity: u32,
}

impl Registration {
    /// Well-formed: `date` is the canonical text of a well-formed timestamp
    /// and `dateint` is exactly `year*10000 + month*100 + day` of it.
    pub open spec fn wf(self) -> bool {
        spec_parse(self.date@) matches Some(ts) && self.dateint as int == ts.spec_dateint()
    }

    /// The timestamp whose canonical text `date` holds.
    pub open spec fn spec_date(self) -> Timestamp
        recommends
            self.wf(),
    {
        spec_parse(self.date@)->Some_0
    }

    /// Constructs a transient entity: no id yet, `date` rendered in canonical
    /// form, and `dateint` computed as `year*10000 + month*100 + day`.
    pub fn new(date: Timestamp, item_id: i32, quantity: u32) -> (r: Registration)
        requires
            date.wf(),
        ensures
            r.id == 0,
            r.date@ == spec_format(date),
            r.dateint as int == date.spec_dateint(),
            r.item_id == item_id,
            r.quantity == quantity,
            r.wf(),
            r.spec_date() == date,
    {
        proof {
            lemma_format_parse_roundtrip(date);
        }
        let date_str = date.format();
        let dateint: i32 = (date.year as i32) * 10000 + (date.month as i32) * 100 + (
        date.day as i32);
        Registration { id: 0, date: date_str, dateint, item_id, quantity }
    }

    /// Reads the timestamp back out of the stored date string.
    pub fn date(&self) -> (r: Option<Timestamp>)
        ensures
            r == spec_parse(self.date@),
            self.wf() ==> (r matches Some(ts) && ts == self.spec_date() && self.dateint as int
                == ts.spec_dateint()),
    {
        Timestamp::parse(self.date.as_str())
    }
}

/// One row as the store handed it back: each column present with the right
/// type, or absent. An absent or ill-typed column makes the row malformed.
pub struct RawRow {
    pub id: Option<i32>,
    pub date: Option<String>,
    pub dateint: Option<i32>,
    pub item_id: Option<i32>,
    pub quantity: Option<u32>,
}

impl RawRow {
    /// A row with no readable column at all; how a row the store could not
    /// even step over is represented.
    pub fn invalid() -> (r: RawRow)
        ensures
            spec_decode_row(r) is None,
    {
        RawRow { id: None, date: None, dateint: None, item_id: None, quantity: None }
    }
}

/// What one raw row decodes to: the entity, if every column is present and
/// the result is well-formed (its date canonical, its dateint derived from
/// it); `None` for a malformed row.
pub open spec fn spec_decode_row(row: RawRow) -> Option<Registration> {
    match (row.id, row.date, row.dateint, row.item_id, row.quantity) {
        (Some(id), Some(date), Some(dateint), Some(item_id), Some(quantity)) => {
            let reg = Registration { id, date, dateint, item_id, quantity };
            if reg.wf() {
                Some(reg)
            } else {
                None
            }
        },
        _ => None,
    }
}

/// What a whole read decodes to: the well-formed rows, in order, with the
/// malformed ones skipped.
pub open spec fn spec_decode_rows(rows: Seq<RawRow>) -> Seq<Registration>
    decreases rows.len(),
{
    if rows.len() == 0 {
        Seq::empty()
    } else {
        match spec_decode_row(rows.last()) {
            Some(reg) => spec_decode_rows(rows.drop_last()).push(reg),
            None => spec_decode_rows(rows.drop_last()),
        }
    }
}

/// Decodes one raw row, accepting it only if every column is present and the
/// entity is well-formed.
pub fn decode_row(row: RawRow) -> (r: Option<Registration>)
    ensures
        r == spec_decode_row(row),
        r matches Some(reg) ==> reg.wf(),
{
    match (row.id, row.date, row.dateint, row.item_id, row.quantity) {
        (Some(id), Some(date), Some(dateint), Some(item_id), Some(quantity)) => {
            let reg = Registration { id, date, dateint, item_id, quantity };
            match reg.date() {
                Some(ts) => {
                    let derived: i32 = (ts.year as i32) * 10000 + (ts.month as i32) * 100 + (
                    ts.day as i32);
                    if reg.dateint == derived {
                        Some(reg)
                    } else {
                        None
                    }
                },
                None => None,
            }
        },
        _ => None,
    }
}

/// Decodes a whole read: every well-formed row, in order; malformed rows are
/// skipped, so one bad row among N good ones yields exactly N entities.
pub fn decode_rows(rows: Vec<RawRow>) -> (r: Vec<Registration>)
    ensures
        r@ == spec_decode_rows(rows@),
        forall|i: int| 0 <= i < r@.len() ==> #[trigger] r@[i].wf(),
{
    let mut out: Vec<Registration> = Vec::new();
    let mut rest = rows;
    let ghost all = rest@;
    let n: usize = rest.len();
    let mut i: usize = 0;
    proof {
        assert(spec_decode_rows(all.take(0int)) =~= Seq::<Registration>::empty());
    }
    // Consume from the front so each row's columns move out once.
    while rest.len() > 0
        invariant
            all.len() == n,
            i + rest@.len() == n,
            rest@ == all.skip(i as int),
            out@ == spec_decode_rows(all.take(i as int)),
            forall|k: int| 0 <= k < out@.len() ==> (#[trigger] out@[k]).wf(),
        decreases rest@.len(),
    {
        let row = rest.remove(0);
        proof {
            assert(i < all.len());
            assert(row == all[i as int]);
            assert(all.take(i + 1int).drop_last() =~= all.take(i as int));
            assert(all.take(i + 1int).last() == all[i as int]);
            assert(rest@ =~= all.skip(i + 1int));
        }
        match decode_row(row) {
            Some(reg) => {
                out.push(reg);
                proof {
                    assert(spec_decode_rows(all.take(i + 1int)) == spec_decode_rows(
                        all.take(i as int),
                    ).push(reg));
                }
            },
            None => {
                proof {
                    assert(spec_decode_rows(all.take(i + 1int)) == spec_decode_rows(
                        all.take(i as int),
                    ));
                }
            },
        }
        i = i + 1;
    }
    proof {
        assert(all.take(all.len() as int) =~= all);
    }
    out
}

/// Law: a read of well-formed rows alone loses nothing — every row's entity
/// comes back, in order.
pub proof fn lemma_valid_rows_all_decoded(rows: Seq<RawRow>)
    requires
        forall|i: int| 0 <= i < rows.len() ==> (#[trigger] spec_decode_row(rows[i])) is Some,
    ensures
        spec_decode_rows(rows).len() == rows.len(),
        forall|i: int|
            0 <= i < rows.len() ==> spec_decode_rows(rows)[i] == (#[trigger] spec_decode_row(
                rows[i],
            ))->Some_0,
    decreases rows.len(),
{
    if rows.len() > 0 {
        lemma_valid_rows_all_decoded(rows.drop_last());
        assert(spec_decode_row(rows.last()) is Some);
        assert(spec_decode_rows(rows) == spec_decode_rows(rows.drop_last()).push(
            spec_decode_row(rows.last())->Some_0,
        ));
        assert forall|i: int| 0 <= i < rows.len() implies spec_decode_rows(rows)[i] == (
        #[trigger] spec_decode_row(rows[i]))->Some_0 by {
            if i < rows.len() - 1 {
                assert(rows.drop_last()[i] == rows[i]);
            } else {
                assert(rows[i] == rows.last());
            }
        }
    }
}

/// Law: a malformed row inserted anywhere in a read changes nothing about
/// what the read decodes to — the other rows come back exactly as before.
pub proof fn lemma_malformed_row_skipped(rows: Seq<RawRow>, bad: RawRow, i: int)
    requires
        0 <= i <= rows.len(),
        spec_decode_row(bad) is None,
    ensures
        spec_decode_rows(rows.insert(i, bad)) == spec_decode_rows(rows),
    decreases rows.len(),
{
    let grown = rows.insert(i, bad);
    if i == rows.len() {
        assert(grown.drop_last() =~= rows);
        assert(grown.last() == bad);
    } else {
        assert(grown.drop_last() =~= rows.drop_last().insert(i, bad));
        assert(grown.last() == rows.last());
        lemma_malformed_row_skipped(rows.drop_last(), bad, i);
    }
}

} // verus!
