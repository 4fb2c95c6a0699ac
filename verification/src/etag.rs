//! Derivation of the default entity tag from a metadata snapshot.
//!
//! The tag is `"{len in hex}-{T in hex}"`, where `T` is the modification
//! time in whole microseconds since the epoch, or `"{len in hex}"` alone
//! when no usable modification time is available.

use vstd::prelude::*;
use vstd::string::StringExecFns;
use crate::fs::{FsError, FsResult, FsTime};

verus! {

/// The character standing for one hexadecimal digit.
pub open spec fn hex_digit(d: nat) -> char {
    if d == 0 { '0' }
    else if d == 1 { '1' }
    else if d == 2 { '2' }
    else if d == 3 { '3' }
    else if d == 4 { '4' }
    else if d == 5 { '5' }
    else if d == 6 { '6' }
    else if d == 7 { '7' }
    else if d == 8 { '8' }
    else if d == 9 { '9' }
    else if d == 10 { 'a' }
    else if d == 11 { 'b' }
    else if d == 12 { 'c' }
    else if d == 13 { 'd' }
    else if d == 14 { 'e' }
    else { 'f' }
}

/// The hexadecimal rendering of `n`, most significant digit first,
/// without leading zeros (`0` renders as `"0"`).
pub open spec fn hex_chars(n: nat) -> Seq<char>
    decreases n,
{
    if n < 16 {
        seq![hex_digit(n)]
    } else {
        hex_chars(n / 16).push(hex_digit(n % 16))
    }
}

/// The entity tag for a snapshot with length `len` and modification
/// time `modified`: length and microsecond timestamp in hex, joined by
/// `'-'`, falling back to the length alone when `modified` is an error
/// or lies before the epoch.
pub open spec fn etag_chars(len: u64, modified: FsResult<FsTime>) -> Seq<char> {
    match modified {
        Ok(t) => if t.secs >= 0 {
            hex_chars(len as nat) + seq!['-'] + hex_chars(t.epoch_micros() as nat)
        } else {
            hex_chars(len as nat)
        },
        Err(_) => hex_chars(len as nat),
    }
}

fn hex_digit_str(d: u8) -> (r: &'static str)
    requires
        d < 16,
    ensures
        r@ == seq![hex_digit(d as nat)],
{
    proof {
        reveal_strlit("0");
        reveal_strlit("1");
        reveal_strlit("2");
        reveal_strlit("3");
        reveal_strlit("4");
        reveal_strlit("5");
        reveal_strlit("6");
        reveal_strlit("7");
        reveal_strlit("8");
        reveal_strlit("9");
        reveal_strlit("a");
        reveal_strlit("b");
        reveal_strlit("c");
        reveal_strlit("d");
        reveal_strlit("e");
        reveal_strlit("f");
    }
    if d == 0 { "0" }
    else if d == 1 { "1" }
    else if d == 2 { "2" }
    else if d == 3 { "3" }
    else if d == 4 { "4" }
    else if d == 5 { "5" }
    else if d == 6 { "6" }
    else if d == 7 { "7" }
    else if d == 8 { "8" }
    else if d == 9 { "9" }
    else if d == 10 { "a" }
    else if d == 11 { "b" }
    else if d == 12 { "c" }
    else if d == 13 { "d" }
    else if d == 14 { "e" }
    else { "f" }
}

/// Renders `n` in hexadecimal.
pub fn hex_string(n: u128) -> (r: String)
    ensures
        r@ == hex_chars(n as nat),
    decreases n,
{
    if n < 16 {
        String::from_str(hex_digit_str(n as u8))
    } else {
        let mut s = hex_string(n / 16);
        s.append(hex_digit_str((n % 16) as u8));
        proof {
            assert(s@ =~= hex_chars(n as nat));
        }
        s
    }
}

/// Computes the default entity tag of a snapshot from its length and
/// its (fallible) modification time.
pub fn etag_for(len: u64, modified: FsResult<FsTime>) -> (r: String)
    ensures
        r@ == etag_chars(len, modified),
{
    match modified {
        Ok(t) => {
            match t.micros_since_epoch() {
                Some(m) => {
                    let mut s = hex_string(len as u128);
                    s.append("-");
                    s.append(hex_string(m).as_str());
                    proof {
                        reveal_strlit("-");
                        assert(s@ =~= etag_chars(len, modified));
                    }
                    s
                },
                None => hex_string(len as u128),
            }
        },
        Err(_) => hex_string(len as u128),
    }
}

/// Every character of a hexadecimal rendering is a hex digit, never `'-'`.
proof fn lemma_hex_chars_no_dash(n: nat)
    ensures
        forall|i: int| 0 <= i < hex_chars(n).len() ==> #[trigger] hex_chars(n)[i] != '-',
    decreases n,
{
    if n < 16 {
        assert(hex_chars(n) =~= seq![hex_digit(n)]);
    } else {
        lemma_hex_chars_no_dash(n / 16);
        assert forall|i: int| 0 <= i < hex_chars(n).len() implies #[trigger] hex_chars(n)[i] != '-' by {
            if i < hex_chars(n).len() - 1 {
                assert(hex_chars(n)[i] == hex_chars(n / 16)[i]);
            } else {
                assert(hex_chars(n)[i] == hex_digit(n % 16));
            }
        }
    }
}

/// A hexadecimal rendering is never empty.
proof fn lemma_hex_chars_len(n: nat)
    ensures
        hex_chars(n).len() >= 1,
        n >= 16 ==> hex_chars(n).len() >= 2,
    decreases n,
{
    if n >= 16 {
        lemma_hex_chars_len(n / 16);
    }
}

/// Two numbers with the same hexadecimal rendering are the same number.
proof fn lemma_hex_chars_injective(a: nat, b: nat)
    requires
        hex_chars(a) == hex_chars(b),
    ensures
        a == b,
    decreases a,
{
    lemma_hex_chars_len(a);
    lemma_hex_chars_len(b);
    if a < 16 && b < 16 {
        assert(hex_chars(a)[0] == hex_digit(a));
        assert(hex_chars(b)[0] == hex_digit(b));
    } else if a >= 16 && b >= 16 {
        assert(hex_chars(a).last() == hex_digit(a % 16));
        assert(hex_chars(b).last() == hex_digit(b % 16));
        assert(hex_chars(a).drop_last() =~= hex_chars(a / 16));
        assert(hex_chars(b).drop_last() =~= hex_chars(b / 16));
        lemma_hex_chars_injective(a / 16, b / 16);
        assert(a == 16 * (a / 16) + a % 16);
        assert(b == 16 * (b / 16) + b % 16);
    } else {
        assert(hex_chars(a).len() == hex_chars(b).len());
        assert(false);
    }
}

/// Whether an entity tag carries a microsecond timestamp: the
/// modification time is known and not before the epoch.
pub open spec fn etag_has_time(modified: FsResult<FsTime>) -> bool {
    modified matches Ok(t) && t.secs >= 0
}

/// The microsecond timestamp an entity tag carries.
pub open spec fn etag_micros(modified: FsResult<FsTime>) -> int
    recommends
        etag_has_time(modified),
{
    match modified {
        Ok(t) => t.epoch_micros(),
        Err(_) => 0,
    }
}

/// The entity tag pins its inputs down: two equal tags come from the
/// same length, agree on whether a modification time was available, and
/// carry the same microsecond timestamp when one was. Equivalently,
/// changing the length, or changing the modification time by at least a
/// microsecond, changes the tag.
pub proof fn lemma_etag_injective(
    len1: u64,
    m1: FsResult<FsTime>,
    len2: u64,
    m2: FsResult<FsTime>,
)
    requires
        etag_chars(len1, m1) == etag_chars(len2, m2),
    ensures
        len1 == len2,
        etag_has_time(m1) == etag_has_time(m2),
        etag_has_time(m1) ==> etag_micros(m1) == etag_micros(m2),
{
    let s1 = etag_chars(len1, m1);
    let s2 = etag_chars(len2, m2);
    let a1 = hex_chars(len1 as nat);
    let a2 = hex_chars(len2 as nat);
    lemma_hex_chars_no_dash(len1 as nat);
    lemma_hex_chars_no_dash(len2 as nat);
    lemma_hex_chars_len(len1 as nat);
    lemma_hex_chars_len(len2 as nat);
    if etag_has_time(m1) && etag_has_time(m2) {
        let b1 = hex_chars(etag_micros(m1) as nat);
        let b2 = hex_chars(etag_micros(m2) as nat);
        assert(s1 == a1 + seq!['-'] + b1);
        assert(s2 == a2 + seq!['-'] + b2);
        // The first '-' stands right after the length in both tags, so
        // the length renderings line up.
        assert(s1[a1.len() as int] == '-');
        assert(s2[a2.len() as int] == '-');
        if a1.len() < a2.len() {
            assert(s2[a1.len() as int] == a2[a1.len() as int]);
            assert(false);
        }
        if a2.len() < a1.len() {
            assert(s1[a2.len() as int] == a1[a2.len() as int]);
            assert(false);
        }
        assert(a1 =~= a2) by {
            assert forall|i: int| 0 <= i < a1.len() implies a1[i] == a2[i] by {
                assert(s1[i] == a1[i]);
                assert(s2[i] == a2[i]);
            }
        }
        assert(b1 =~= b2) by {
            assert forall|i: int| 0 <= i < b1.len() implies b1[i] == b2[i] by {
                assert(s1[a1.len() + 1 + i] == b1[i]);
                assert(s2[a2.len() + 1 + i] == b2[i]);
            }
            assert(b1.len() == b2.len());
        }
        lemma_hex_chars_injective(len1 as nat, len2 as nat);
        lemma_hex_chars_injective(etag_micros(m1) as nat, etag_micros(m2) as nat);
    } else if !etag_has_time(m1) && !etag_has_time(m2) {
        lemma_hex_chars_injective(len1 as nat, len2 as nat);
    } else if etag_has_time(m1) {
        // A tag with a timestamp holds a '-'; a bare length never does.
        let b1 = hex_chars(etag_micros(m1) as nat);
        assert(s1 == a1 + seq!['-'] + b1);
        assert(s1[a1.len() as int] == '-');
        assert(s2[a1.len() as int] != '-');
        assert(false);
    } else {
        let b2 = hex_chars(etag_micros(m2) as nat);
        assert(s2 == a2 + seq!['-'] + b2);
        assert(s2[a2.len() as int] == '-');
        assert(s1[a2.len() as int] != '-');
        assert(false);
    }
}

} // verus!
