//! Bytes on the wire: decimal numbers, and copies into a caller's buffer that stop where
//! the buffer ends.

use vstd::prelude::*;

verus! {

/// The ASCII digits of `n` in base ten, without leading zeros.
pub open spec fn decimal_digits(n: nat) -> Seq<u8>
    decreases n,
{
    if n < 10 {
        seq![(48 + n) as u8]
    } else {
        decimal_digits(n / 10).push((48 + n % 10) as u8)
    }
}

/// The value that a sequence of ASCII digits stands for.
pub open spec fn decimal_value(digits: Seq<u8>) -> nat
    decreases digits.len(),
{
    if digits.len() == 0 {
        0
    } else {
        (decimal_value(digits.drop_last()) * 10 + (digits.last() - 48)) as nat
    }
}

/// The digits of a number are ASCII digits, begin with a zero only for zero itself, and
/// stand for the number.
pub proof fn lemma_decimal_digits(n: nat)
    ensures
        decimal_digits(n).len() >= 1,
        forall|i: int| 0 <= i < decimal_digits(n).len() ==> 48 <= #[trigger] decimal_digits(n)[i] <= 57,
        decimal_digits(n)[0] == 48 <==> n == 0,
        decimal_value(decimal_digits(n)) == n,
    decreases n,
{
    if n < 10 {
        assert(decimal_digits(n).drop_last() =~= Seq::<u8>::empty());
        assert(decimal_value(Seq::<u8>::empty()) == 0);
    } else {
        lemma_decimal_digits(n / 10);
        let front = decimal_digits(n / 10);
        let all = decimal_digits(n);
        assert(all.drop_last() =~= front);
        assert(all[0] == front[0]);
    }
}

/// Ten to the power of `k`.
pub open spec fn power_of_ten(k: nat) -> nat
    decreases k,
{
    if k == 0 {
        1
    } else {
        10 * power_of_ten((k - 1) as nat)
    }
}

/// A number below the `k`th power of ten has at most `k` digits.
pub proof fn lemma_decimal_digits_len(n: nat, k: nat)
    requires
        k >= 1,
        n < power_of_ten(k),
    ensures
        decimal_digits(n).len() <= k,
    decreases k,
{
    if n >= 10 {
        assert(k > 1) by {
            reveal_with_fuel(power_of_ten, 2);
        }
        lemma_decimal_digits_len(n / 10, (k - 1) as nat);
    }
}

/// A 64-bit number has at most 20 digits.
pub proof fn lemma_decimal_digits_of_u64(n: u64)
    ensures
        1 <= decimal_digits(n as nat).len() <= 20,
{
    lemma_decimal_digits(n as nat);
    assert(power_of_ten(20) == 100_000_000_000_000_000_000) by {
        reveal_with_fuel(power_of_ten, 21);
    }
    lemma_decimal_digits_len(n as nat, 20);
}

/// Appends the decimal digits of `n` to `out`.
pub fn push_decimal(out: &mut Vec<u8>, n: u64)
    ensures
        final(out)@ == old(out)@ + decimal_digits(n as nat),
    decreases n,
{
    if n >= 10 {
        push_decimal(out, n / 10);
    }
    let digit: u8 = 48 + (n % 10) as u8;
    out.push(digit);
    proof {
        if n < 10 {
            assert(old(out)@.push(digit) =~= old(out)@ + decimal_digits(n as nat));
        } else {
            assert((old(out)@ + decimal_digits((n / 10) as nat)).push(digit) =~= old(out)@
                + decimal_digits(n as nat));
        }
    }
}

/// Appends `bytes` to `out`.
pub fn push_bytes(out: &mut Vec<u8>, bytes: &[u8])
    ensures
        final(out)@ == old(out)@ + bytes@,
{
    let mut i: usize = 0;
    while i < bytes.len()
        invariant
            i <= bytes@.len(),
            out@ == old(out)@ + bytes@.take(i as int),
        decreases bytes@.len() - i,
    {
        out.push(bytes[i]);
        i += 1;
        assert(out@ =~= old(out)@ + bytes@.take(i as int));
    }
    assert(bytes@.take(bytes@.len() as int) =~= bytes@);
}

/// Whether two byte strings are the same.
pub fn bytes_equal(a: &[u8], b: &[u8]) -> (same: bool)
    ensures
        same == (a@ == b@),
{
    if a.len() != b.len() {
        return false;
    }
    let mut i: usize = 0;
    while i < a.len()
        invariant
            i <= a@.len(),
            a@.len() == b@.len(),
            forall|k: int| 0 <= k < i ==> a@[k] == b@[k],
        decreases a@.len() - i,
    {
        if a[i] != b[i] {
            return false;
        }
        i += 1;
    }
    assert(a@ =~= b@);
    true
}

/// The number of bytes of a message of `len` bytes that fit behind the first `at` bytes of a
/// buffer of `room` bytes.
pub open spec fn fitting(len: int, room: int, at: int) -> int {
    if len <= room - at {
        len
    } else {
        room - at
    }
}

/// `after` is `before` with as much of `message` written from place `at` on as fits.
pub open spec fn written_at(before: Seq<u8>, after: Seq<u8>, message: Seq<u8>, at: int) -> bool {
    let n = fitting(message.len() as int, before.len() as int, at);
    &&& after.len() == before.len()
    &&& forall|i: int| 0 <= i < at ==> after[i] == before[i]
    &&& forall|i: int| 0 <= i < n ==> after[at + i] == message[i]
    &&& forall|i: int| at + n <= i < before.len() ==> after[i] == before[i]
}

/// Copies as much of `message` into `buf` from place `at` on as fits, and returns the
/// number of bytes copied.
pub fn copy_fitting(message: &[u8], buf: &mut [u8], at: usize) -> (n: usize)
    requires
        at <= old(buf)@.len(),
    ensures
        n == fitting(message@.len() as int, old(buf)@.len() as int, at as int),
        written_at(old(buf)@, final(buf)@, message@, at as int),
{
    let room = buf.len() - at;
    let n = if message.len() <= room { message.len() } else { room };
    let mut i: usize = 0;
    while i < n
        invariant
            i <= n,
            n <= message@.len(),
            at + n <= buf@.len(),
            at + n <= usize::MAX,
            buf@.len() == old(buf)@.len(),
            forall|k: int| 0 <= k < at ==> buf@[k] == old(buf)@[k],
            forall|k: int| 0 <= k < i ==> buf@[at + k] == message@[k],
            forall|k: int| at + i <= k < buf@.len() ==> buf@[k] == old(buf)@[k],
        decreases n - i,
    {
        buf[at + i] = message[i];
        i += 1;
    }
    n
}

} // verus!
