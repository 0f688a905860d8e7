//! The point status table: one bit per classified point, packed by `bitvec`.
//!
//! The table is the only place where this crate leans on code it does not
//! verify. Everything below is believed, not proved: each function states what
//! the `bitvec` method it calls does to the bits held, as that crate documents
//! it.

use vstd::prelude::*;

verus! {

/// A `bitvec::vec::BitVec` of point flags. Verus does not look inside; what it
/// holds is spoken of through [`bits_of`].
#[verifier::external_body]
pub struct StatusTable {
    bits: bitvec::vec::BitVec,
}

/// The bits a table holds, first pushed first.
pub uninterp spec fn bits_of(table: StatusTable) -> Seq<bool>;

/// The largest number of bits a table can hold: `BitSlice::MAX_BITS`, which
/// `bitvec` defines as `usize::MAX >> 3`.
pub open spec fn table_limit() -> int {
    usize::MAX as int / 8
}

/// `BitVec::new`: a table that holds no bit.
#[verifier::external_body]
pub(crate) fn table_new() -> (table: StatusTable)
    ensures
        bits_of(table) == Seq::<bool>::empty(),
{
    StatusTable { bits: bitvec::vec::BitVec::new() }
}

/// `BitVec::len`: the number of bits held.
#[verifier::external_body]
pub(crate) fn table_len(table: &StatusTable) -> (len: usize)
    ensures
        len == bits_of(*table).len(),
{
    table.bits.len()
}

/// `BitVec::clear`: drops every bit.
#[verifier::external_body]
pub(crate) fn table_clear(table: &mut StatusTable)
    ensures
        bits_of(*final(table)) == Seq::<bool>::empty(),
{
    table.bits.clear()
}

/// `BitVec::reserve`: makes room for `additional` more bits and leaves the bits
/// held as they are. The method panics when the length asked for passes
/// [`table_limit`], so that is ruled out here.
#[verifier::external_body]
pub(crate) fn table_reserve(table: &mut StatusTable, additional: usize)
    requires
        bits_of(*old(table)).len() + additional <= table_limit(),
    ensures
        bits_of(*final(table)) == bits_of(*old(table)),
{
    table.bits.reserve(additional)
}

/// `BitVec::push`: appends one bit. The method panics on a table that is
/// already at [`table_limit`], so that is ruled out here.
#[verifier::external_body]
pub(crate) fn table_push(table: &mut StatusTable, bit: bool)
    requires
        bits_of(*old(table)).len() < table_limit(),
    ensures
        bits_of(*final(table)) == bits_of(*old(table)).push(bit),
{
    table.bits.push(bit)
}

/// Indexing a `BitVec` by `usize`: the bit at `index`. Indexing past the end
/// panics, so that is ruled out here.
#[verifier::external_body]
pub(crate) fn table_get(table: &StatusTable, index: usize) -> (bit: bool)
    requires
        index < bits_of(*table).len(),
    ensures
        bit == bits_of(*table)[index as int],
{
    table.bits[index]
}

} // verus!
