//! Bit-field functions on integers.
use vstd::prelude::*;
use crate::error::EvalAltResult;
use crate::position::Position;
use crate::INT;

verus! {

/// Number of bits in an [`INT`].
pub const BITS: usize = 64;

/// Bit `k` (0 = least significant) of `v`.
pub open spec fn bit_of(v: INT, k: u64) -> bool {
    (v >> k) & 1i64 == 1i64
}

/// `v` with bit `k` set to `b` and all other bits kept.
pub open spec fn with_bit(v: INT, k: u64, b: bool) -> INT {
    if b {
        v | (1i64 << k)
    } else {
        v & !(1i64 << k)
    }
}

/// An integer whose lowest `n` bits are set and all others clear (`n <= 64`).
pub open spec fn low_mask(n: u64) -> INT {
    if n >= 64 {
        -1i64
    } else {
        !(-1i64 << n)
    }
}

/// The bit position addressed by a script index: non-negative indices count from the
/// least significant bit, negative indices count from the most significant end
/// (`-1` is bit 63, `-64` is bit 0); `None` when the index is out of bounds.
pub open spec fn bit_position(index: INT) -> Option<u64> {
    if 0 <= index < 64 {
        Some(index as u64)
    } else if -64 <= index < 0 {
        Some((64 + index) as u64)
    } else {
        None
    }
}

/// Length of the field actually accessed: `bits`, cut off at the most significant bit.
pub open spec fn field_len(offset: u64, bits: INT) -> u64 {
    if offset + bits > 64 {
        (64 - offset) as u64
    } else {
        bits as u64
    }
}

/// The bit-field error raised for an out-of-bounds index.
pub open spec fn is_bounds_error(e: EvalAltResult, index: INT) -> bool {
    e == EvalAltResult::ErrorBitFieldBounds(BITS, index, Position::spec_none())
}

fn bounds_error(index: INT) -> (r: Box<EvalAltResult>)
    ensures
        is_bounds_error(*r, index),
{
    Box::new(EvalAltResult::ErrorBitFieldBounds(BITS, index, Position::none()))
}

/// The absolute value of an integer, unless it does not fit (`INT::MIN`).
fn checked_abs(x: INT) -> (r: Option<INT>)
    ensures
        r == (if x == i64::MIN { None } else if x < 0 { Some((-x) as i64) } else { Some(x) }),
{
    if x == i64::MIN {
        None
    } else if x < 0 {
        Some(-x)
    } else {
        Some(x)
    }
}

proof fn lemma_single_bit(v: INT, k: u64)
    requires
        k < 64,
    ensures
        ((v & (1i64 << k)) != 0) == bit_of(v, k),
{
    assert(k < 64 ==> (((v & (1i64 << k)) != 0) == ((v >> k) & 1i64 == 1i64))) by (bit_vector);
}

/// Is a particular bit set in `value`? See [`bit_position`] for the meaning of `index`.
pub fn get_bit(value: INT, index: INT) -> (r: Result<bool, Box<EvalAltResult>>)
    ensures
        match bit_position(index) {
            Some(k) => r == Ok::<bool, Box<EvalAltResult>>(bit_of(value, k)),
            None => r is Err && is_bounds_error(*r->Err_0, index),
        },
{
    if index >= 0 {
        let offset = index as u64;
        if offset >= 64 {
            Err(bounds_error(index))
        } else {
            let k = offset;
            proof {
                lemma_single_bit(value, k);
            }
            Ok((value & (1i64 << k)) != 0)
        }
    } else if let Some(abs_index) = checked_abs(index) {
        let offset = abs_index as u64;
        if offset > 64 {
            Err(bounds_error(index))
        } else {
            let k = 64 - offset;
            proof {
                lemma_single_bit(value, k);
            }
            Ok((value & (1i64 << k)) != 0)
        }
    } else {
        Err(bounds_error(index))
    }
}

/// Set or clear a particular bit of `value`: bit `index`, counted from the end (bit
/// `64 + index`) when `index` is negative, as [`get_bit`] reads it.
pub fn set_bit(value: &mut INT, index: INT, new_value: bool) -> (r: Result<(), Box<EvalAltResult>>)
    ensures
        bit_position(index) matches Some(k) ==> r is Ok && *final(value) == with_bit(*old(value), k, new_value),
        bit_position(index) is None ==> r is Err && is_bounds_error(*r->Err_0, index)
            && *final(value) == *old(value),
{
    let offset = match field_offset(index) {
        Ok(o) => o,
        Err(e) => {
            return Err(e);
        },
    };
    let mask = 1i64 << offset;
    if new_value {
        *value = *value | mask;
    } else {
        *value = *value & !mask;
    }
    Ok(())
}

/// Build the mask with the lowest `n` bits set, one bit at a time.
fn make_mask(n: u64) -> (mask: INT)
    requires
        n <= 64,
    ensures
        mask == low_mask(n),
{
    let mut base: INT = 1;
    let mut mask: INT = 0;
    let mut i: u64 = 0;
    assert(!(-1i64 << 0u64) == 0i64) by (bit_vector);
    assert(1i64 << 0u64 == 1i64) by (bit_vector);
    while i < n
        invariant
            i <= n <= 64,
            mask == low_mask(i),
            base == (if i < 64 { 1i64 << i } else { 0i64 }),
        decreases n - i,
    {
        let j: u64 = i + 1;
        if j < 64 {
            assert(i < 63 && j == i + 1 ==> (!(-1i64 << i)) | (1i64 << i) == !(-1i64 << j)
                && ((1i64 << i) << 1u64) == (1i64 << j)) by (bit_vector);
        } else {
            assert(i == 63 ==> (!(-1i64 << i)) | (1i64 << i) == -1i64 && ((1i64 << i) << 1u64)
                == 0i64) by (bit_vector);
        }
        mask = mask | base;
        base = base << 1u64;
        i = j;
    }
    mask
}

/// Where a bit field starts, or the bounds error for `index`.
fn field_offset(index: INT) -> (r: Result<u64, Box<EvalAltResult>>)
    ensures
        match bit_position(index) {
            Some(k) => r == Ok::<u64, Box<EvalAltResult>>(k),
            None => r is Err && is_bounds_error(*r->Err_0, index),
        },
{
    if index >= 0 {
        let offset = index as u64;
        if offset >= 64 {
            return Err(bounds_error(index));
        }
        Ok(offset)
    } else if let Some(abs_index) = checked_abs(index) {
        let offset = abs_index as u64;
        if offset > 64 {
            return Err(bounds_error(index));
        }
        Ok(64 - offset)
    } else {
        Err(bounds_error(index))
    }
}

/// Length of the field starting at `offset`, cut at the most significant bit.
fn clip_len(offset: u64, bits: INT) -> (n: u64)
    requires
        offset < 64,
        bits >= 1,
    ensures
        n == field_len(offset, bits),
        1 <= n <= 64,
        offset + n <= 64,
{
    if offset as u128 + bits as u128 > 64 {
        64 - offset
    } else {
        bits as u64
    }
}

/// Extract `bits` bits of `value` starting at bit `index` (counted from the end, bit
/// `64 + index`, when `index` is negative), at most up to the most significant bit, as a
/// non-negative number; zero when `bits < 1`.
pub fn get_bits(value: INT, index: INT, bits: INT) -> (r: Result<INT, Box<EvalAltResult>>)
    ensures
        bits < 1 ==> r == Ok::<INT, Box<EvalAltResult>>(0),
        bits >= 1 ==> match bit_position(index) {
            Some(k) => r == Ok::<INT, Box<EvalAltResult>>((value >> k) & low_mask(field_len(k, bits))),
            None => r is Err && is_bounds_error(*r->Err_0, index),
        },
{
    if bits < 1 {
        return Ok(0);
    }
    let offset = match field_offset(index) {
        Ok(o) => o,
        Err(e) => {
            return Err(e);
        },
    };
    let n = clip_len(offset, bits);
    let mask = make_mask(n);
    let sh = offset;
    let r = ((value & (mask << sh)) >> sh) & mask;
    assert(sh < 64 && 1 <= n <= 64 && sh + n <= 64 && mask == (if n >= 64 { -1i64 } else { !(-1i64 << n) })
        ==> ((value & (mask << sh)) >> sh) & mask == (value >> sh) & mask) by (bit_vector);
    Ok(r)
}

/// Replace `bits` bits of `value` starting at bit `index` (counted from the end, bit
/// `64 + index`, when `index` is negative), at most up to the most significant bit, with
/// the lowest bits of `new_value`; nothing happens when `bits < 1`.
pub fn set_bits(value: &mut INT, index: INT, bits: INT, new_value: INT) -> (r: Result<(), Box<EvalAltResult>>)
    ensures
        bits < 1 ==> r is Ok && *final(value) == *old(value),
        bits >= 1 ==> match bit_position(index) {
            Some(k) => r is Ok && *final(value) == ({
                let m = low_mask(field_len(k, bits));
                (*old(value) & !(m << k)) | ((new_value & m) << k)
            }),
            None => r is Err && is_bounds_error(*r->Err_0, index) && *final(value) == *old(value),
        },
{
    if bits < 1 {
        return Ok(());
    }
    let offset = match field_offset(index) {
        Ok(o) => o,
        Err(e) => {
            return Err(e);
        },
    };
    let n = clip_len(offset, bits);
    let mask = make_mask(n);
    let sh = offset;
    *value = *value & !(mask << sh);
    *value = *value | ((new_value & mask) << sh);
    Ok(())
}

/// Reading a bit back after writing it: for every index in bounds (`-64..64`, a negative
/// one counting from the end), [`get_bit`] returns the value that [`set_bit`] wrote there,
/// and [`set_bit`] leaves every other bit as it was.
pub proof fn law_get_bit_reads_set_bit(v: INT, index: INT, b: bool)
    requires
        -64 <= index < 64,
    ensures
        bit_position(index) matches Some(k) && bit_of(with_bit(v, k, b), k) == b && forall|j: u64|
            j < 64 && j != k ==> bit_of(with_bit(v, k, b), j) == bit_of(v, j),
{
    let k: u64 = if index >= 0 { index as u64 } else { (64 + index) as u64 };
    assert(k < 64 ==> ((v | (1i64 << k)) >> k) & 1i64 == 1i64) by (bit_vector);
    assert(k < 64 ==> ((v & !(1i64 << k)) >> k) & 1i64 == 0i64) by (bit_vector);
    assert forall|j: u64| j < 64 && j != k implies bit_of(with_bit(v, k, b), j) == bit_of(v, j) by {
        assert(j < 64 && k < 64 && j != k ==> ((v | (1i64 << k)) >> j) & 1i64 == (v >> j) & 1i64)
            by (bit_vector);
        assert(j < 64 && k < 64 && j != k ==> ((v & !(1i64 << k)) >> j) & 1i64 == (v >> j) & 1i64)
            by (bit_vector);
    }
}

/// Reading a bit field back after writing it: for every index in bounds (a negative one
/// counting from the end) and a non-empty field, [`get_bits`] returns the low bits of the
/// value that [`set_bits`] wrote.
pub proof fn law_get_bits_reads_set_bits(v: INT, index: INT, bits: INT, x: INT)
    requires
        -64 <= index < 64,
        bits >= 1,
    ensures
        bit_position(index) matches Some(i) && ({
            let n = field_len(i, bits);
            let m = low_mask(n);
            let written = (v & !(m << i)) | ((x & m) << i);
            (written >> i) & m == x & m
        }),
{
    let i: u64 = if index >= 0 { index as u64 } else { (64 + index) as u64 };
    let n = field_len(i, bits);
    let m = low_mask(n);
    assert(1 <= n <= 64 && i + n <= 64);
    assert(i < 64 && 1 <= n <= 64 && i + n <= 64 && m == (if n >= 64 { -1i64 } else { !(-1i64 << n) })
        ==> (((v & !(m << i)) | ((x & m) << i)) >> i) & m == x & m) by (bit_vector);
}

} // verus!
