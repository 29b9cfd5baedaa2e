//! Small helpers shared by the engine: string comparison, decimal numbers
//! and the host fingerprint used as the address cache key.

use std::collections::hash_map::DefaultHasher;
use std::hash::Hasher;
use vstd::prelude::*;
use vstd::std_specs::hash::DefaultHasherAdditionalSpecFns;
use vstd::string::StrSliceExecFns;

verus! {

/// The fingerprint of a host name: the default hasher fed the name's bytes.
pub open spec fn host_hash(host: Seq<char>) -> u64 {
    DefaultHasher::spec_finish(seq![vstd::utf8::encode_utf8(host)])
}

/// Fingerprint of a host name, used as the key of the address cache.
pub fn hash(input: &str) -> (r: u64)
    ensures
        r == host_hash(input@),
{
    let mut hasher = DefaultHasher::new();
    hasher.write(input.as_bytes());
    let r = hasher.finish();
    assert(hasher@ =~= seq![vstd::utf8::encode_utf8(input@)]);
    r
}

/// Compares two strings character by character.
pub fn str_eq(a: &str, b: &str) -> (r: bool)
    ensures
        r == (a@ == b@),
{
    let n = a.unicode_len();
    let m = b.unicode_len();
    if n != m {
        return false;
    }
    let mut i: usize = 0;
    while i < n
        invariant
            n == a@.len(),
            m == b@.len(),
            n == m,
            i <= n,
            forall|j: int| 0 <= j < i ==> a@[j] == b@[j],
        decreases n - i,
    {
        if a.get_char(i) != b.get_char(i) {
            return false;
        }
        i = i + 1;
    }
    assert(a@ =~= b@);
    true
}

/// The ASCII decimal digits of `n`, most significant first, without
/// leading zeros.
pub open spec fn decimal_bytes(n: nat) -> Seq<u8>
    decreases n,
{
    if n < 10 {
        seq![(48 + n) as u8]
    } else {
        decimal_bytes(n / 10).push((48 + n % 10) as u8)
    }
}

/// Appends the decimal digits of `n` to `out`.
pub fn push_decimal(out: &mut Vec<u8>, n: usize)
    ensures
        final(out)@ == old(out)@ + decimal_bytes(n as nat),
    decreases n,
{
    if n < 10 {
        out.push((48 + n) as u8);
        assert(final(out)@ =~= old(out)@ + decimal_bytes(n as nat));
    } else {
        push_decimal(out, n / 10);
        out.push((48 + n % 10) as u8);
        assert(final(out)@ =~= old(out)@ + decimal_bytes(n as nat));
    }
}

/// True when every byte is an ASCII digit.
pub open spec fn all_digits(b: Seq<u8>) -> bool {
    forall|i: int| 0 <= i < b.len() ==> 48 <= #[trigger] b[i] <= 57
}

/// The value of a run of ASCII digits, read as a decimal number.
pub open spec fn decimal_value(b: Seq<u8>) -> nat
    decreases b.len(),
{
    if b.len() == 0 {
        0
    } else {
        decimal_value(b.drop_last()) * 10 + (b.last() - 48) as nat
    }
}

/// Reads a non-empty run of ASCII digits as a decimal number; `None` when
/// the input is empty, holds anything but digits, or does not fit a `usize`.
pub fn parse_decimal(b: &[u8]) -> (r: Option<usize>)
    ensures
        r == (if b@.len() > 0 && all_digits(b@) && decimal_value(b@) <= usize::MAX {
            Some(decimal_value(b@) as usize)
        } else {
            None::<usize>
        }),
{
    let n = b.len();
    if n == 0 {
        return None;
    }
    let mut acc: usize = 0;
    let mut i: usize = 0;
    let mut overflow = false;
    while i < n
        invariant
            n == b@.len(),
            i <= n,
            all_digits(b@.subrange(0, i as int)),
            !overflow ==> acc == decimal_value(b@.subrange(0, i as int)),
            overflow ==> decimal_value(b@.subrange(0, i as int)) > usize::MAX,
        decreases n - i,
    {
        let c = b[i];
        if c < 48 || c > 57 {
            assert(!all_digits(b@)) by {
                assert(b@[i as int] == c);
            }
            return None;
        }
        let ghost prev = b@.subrange(0, i as int);
        let ghost next = b@.subrange(0, i as int + 1);
        assert(next.drop_last() =~= prev);
        assert(next.last() == c);
        if !overflow {
            if acc > (usize::MAX - (c - 48) as usize) / 10 {
                overflow = true;
            } else {
                acc = acc * 10 + (c - 48) as usize;
            }
        } else {
            assert(decimal_value(next) >= decimal_value(prev) * 10) by (nonlinear_arith)
                requires decimal_value(next) == decimal_value(prev) * 10 + (c - 48) as nat;
        }
        i = i + 1;
        assert(all_digits(b@.subrange(0, i as int)));
    }
    assert(b@.subrange(0, n as int) =~= b@);
    if overflow {
        None
    } else {
        Some(acc)
    }
}

} // verus!
