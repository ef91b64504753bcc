//! Byte strings: comparing them, copying them, and reading decimal numbers.

use vstd::prelude::*;

verus! {

/// Whether two byte strings hold the same bytes.
pub fn same_bytes(a: &[u8], b: &[u8]) -> (same: bool)
    ensures
        same == (a@ == b@),
{
    if a.len() != b.len() {
        return false;
    }
    let mut i: usize = 0;
    while i < a.len()
        invariant
            a.len() == b.len(),
            i <= a.len(),
            forall|j: int| 0 <= j < i ==> a@[j] == b@[j],
        decreases a.len() - i,
    {
        if a[i] != b[i] {
            return false;
        }
        i += 1;
    }
    assert(a@ =~= b@);
    true
}

/// A fresh copy of `bytes[start..end]`.
pub fn copy_range(bytes: &[u8], start: usize, end: usize) -> (copy: Vec<u8>)
    requires
        start <= end <= bytes.len(),
    ensures
        copy@ == bytes@.subrange(start as int, end as int),
{
    let mut copy: Vec<u8> = Vec::new();
    let mut i: usize = start;
    while i < end
        invariant
            start <= i <= end <= bytes.len(),
            copy@ == bytes@.subrange(start as int, i as int),
        decreases end - i,
    {
        copy.push(bytes[i]);
        assert(copy@ =~= bytes@.subrange(start as int, i + 1));
        i += 1;
    }
    copy
}

/// A fresh copy of a byte string.
pub fn copy_bytes(bytes: &Vec<u8>) -> (copy: Vec<u8>)
    ensures
        copy@ == bytes@,
{
    let copy = copy_range(bytes.as_slice(), 0, bytes.len());
    assert(bytes@.subrange(0, bytes@.len() as int) =~= bytes@);
    copy
}

/// Whether a byte is a decimal digit.
pub open spec fn is_digit(b: u8) -> bool {
    '0' as u8 <= b <= '9' as u8
}

/// The number that a run of decimal digits writes: the empty run writes 0.
pub open spec fn decimal_value(digits: Seq<u8>) -> nat
    decreases digits.len(),
{
    if digits.len() == 0 {
        0
    } else {
        10 * decimal_value(digits.drop_last()) + (digits.last() - '0' as u8) as nat
    }
}

/// Whether every byte of a run is a decimal digit.
pub open spec fn all_digits(digits: Seq<u8>) -> bool {
    forall|i: int| 0 <= i < digits.len() ==> is_digit(#[trigger] digits[i])
}

/// Reads a run of decimal digits as a number. `None` when a byte is no digit
/// or the number does not fit in 64 bits.
pub fn parse_decimal(digits: &[u8]) -> (value: Option<u64>)
    ensures
        value.is_some() <==> all_digits(digits@) && decimal_value(digits@) <= u64::MAX,
        value matches Some(v) ==> v == decimal_value(digits@),
{
    let mut acc: u64 = 0;
    let mut i: usize = 0;
    while i < digits.len()
        invariant
            i <= digits.len(),
            all_digits(digits@.take(i as int)),
            acc == decimal_value(digits@.take(i as int)),
        decreases digits.len() - i,
    {
        let b = digits[i];
        proof {
            let next = digits@.take(i + 1);
            assert(next.drop_last() =~= digits@.take(i as int));
            assert(next.last() == b);
            lemma_decimal_value_grows(digits@, i + 1);
            if !is_digit(b) {
                assert(digits@[i as int] == b);
            }
        }
        if b < '0' as u8 || b > '9' as u8 {
            return None;
        }
        let d: u64 = (b - '0' as u8) as u64;
        if acc > (u64::MAX - d) / 10 {
            assert(10 * acc + d > u64::MAX);
            return None;
        }
        acc = 10 * acc + d;
        assert forall|j: int| 0 <= j < i + 1 implies is_digit(#[trigger] digits@.take(i + 1)[j]) by {
            if j < i {
                assert(digits@.take(i as int)[j] == digits@.take(i + 1)[j]);
            }
        }
        i += 1;
    }
    assert(digits@.take(i as int) =~= digits@);
    Some(acc)
}

/// A longer prefix never writes a smaller number.
proof fn lemma_decimal_value_grows(digits: Seq<u8>, n: int)
    requires
        0 <= n <= digits.len(),
    ensures
        decimal_value(digits.take(n)) <= decimal_value(digits),
    decreases digits.len() - n,
{
    if n < digits.len() {
        let next = digits.take(n + 1);
        assert(next.drop_last() =~= digits.take(n));
        lemma_decimal_value_grows(digits, n + 1);
    } else {
        assert(digits.take(n) =~= digits);
    }
}

} // verus!
