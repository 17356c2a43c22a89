//! Row sampling plan and sample accounting.
//!
//! Rows of the extended matrix come in original/parity pairs, so the
//! row plan is a deliberate half-density check: every second extended
//! row, starting at row 0. The accounting side counts how many of the
//! requested row payloads actually came back.

use vstd::prelude::*;

verus! {

/// The planned row indices for a matrix with `extended_rows` rows:
/// every second index starting at 0.
pub open spec fn spec_row_indices(extended_rows: int) -> Seq<u32> {
    Seq::new(((extended_rows + 1) / 2) as nat, |i: int| (2 * i) as u32)
}

/// Enumerate every second extended row index, starting at row 0.
pub fn row_indices(extended_rows: u32) -> (r: Vec<u32>)
    ensures
        r@ == spec_row_indices(extended_rows as int),
{
    let count: u32 = extended_rows / 2 + extended_rows % 2;
    let mut r: Vec<u32> = Vec::new();
    let mut k: u32 = 0;
    while k < count
        invariant
            count == ((extended_rows + 1) as int) / 2,
            k <= count,
            r@ =~= spec_row_indices(extended_rows as int).take(k as int),
        decreases count - k,
    {
        r.push(2 * k);
        k = k + 1;
        proof {
            assert(r@ =~= spec_row_indices(extended_rows as int).take(k as int));
        }
    }
    proof {
        assert(r@ =~= spec_row_indices(extended_rows as int));
    }
    r
}

/// How many of a sequence of optional row payloads are present.
pub open spec fn count_some(s: Seq<Option<Vec<u8>>>) -> int
    decreases s.len(),
{
    if s.len() == 0 {
        0
    } else {
        count_some(s.drop_last()) + if s.last() is Some {
            1int
        } else {
            0int
        }
    }
}

/// A presence count never exceeds the number of payload slots.
pub proof fn lemma_count_some_bounds(s: Seq<Option<Vec<u8>>>)
    ensures
        0 <= count_some(s) <= s.len(),
    decreases s.len(),
{
    if s.len() > 0 {
        lemma_count_some_bounds(s.drop_last());
    }
}

/// Count the row payloads that the network sampler actually returned.
pub fn count_fetched(rows: &Vec<Option<Vec<u8>>>) -> (r: u64)
    ensures
        r == count_some(rows@),
{
    let mut count: u64 = 0;
    let mut i: usize = 0;
    proof {
        lemma_count_some_bounds(rows@);
    }
    while i < rows.len()
        invariant
            i <= rows@.len(),
            count == count_some(rows@.take(i as int)),
            count <= i,
        decreases rows@.len() - i,
    {
        proof {
            assert(rows@.take(i as int + 1).drop_last() =~= rows@.take(i as int));
            assert(rows@.take(i as int + 1).last() == rows@[i as int]);
        }
        if rows[i].is_some() {
            count = count + 1;
        }
        i = i + 1;
    }
    proof {
        assert(rows@.take(rows@.len() as int) =~= rows@);
    }
    count
}

} // verus!
