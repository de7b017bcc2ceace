//! Core identifiers of the chain model: transaction ids, outpoints and the
//! chain tip.
//!
//! A transaction id is a 256-bit hash. We hold it as four 64-bit words, in
//! the order of its hexadecimal writing: `w0` holds the first sixteen hex
//! digits, `w3` the last sixteen. Nothing in the daemon ever looks inside a
//! txid; it is only parsed, compared and printed, so the word form is enough
//! and keeps equality structural.

use vstd::prelude::*;
use vstd::string::StringSliceAdditionalSpecFns;

verus! {

/// A 256-bit transaction id, as four 64-bit words in writing order.
#[derive(Clone, Copy, PartialEq, Eq, Structural, Debug)]
pub struct Txid {
    pub w0: u64,
    pub w1: u64,
    pub w2: u64,
    pub w3: u64,
}

/// A reference to one output of a transaction: the id of the transaction
/// and the index of the output. The key under which every deposit and
/// unvault is tracked.
#[derive(Clone, Copy, PartialEq, Eq, Structural, Debug)]
pub struct Outpoint {
    pub txid: Txid,
    pub vout: u32,
}

/// The tip of the chain as the daemon last saw it: a height and the hash of
/// the block at that height, held like a txid as four words of its hex form.
#[derive(Clone, Copy, PartialEq, Eq, Structural, Debug)]
pub struct BlockchainTip {
    pub height: u32,
    pub hash: Txid,
}

/// Is `b` the byte of an ASCII hexadecimal digit?
pub open spec fn is_hex_digit(b: u8) -> bool {
    (48 <= b && b <= 57)  // '0' ..= '9'
    || (97 <= b && b <= 102)  // 'a' ..= 'f'
    || (65 <= b && b <= 70)  // 'A' ..= 'F'
}

/// The value of one hexadecimal digit byte.
pub open spec fn hex_digit_value(b: u8) -> u8
    recommends
        is_hex_digit(b),
{
    if 48 <= b && b <= 57 {
        (b - 48) as u8
    } else if 97 <= b && b <= 102 {
        (b - 87) as u8
    } else {
        (b - 55) as u8
    }
}

/// The value of a big-endian string of hexadecimal digit bytes.
pub open spec fn hex_value(s: Seq<u8>) -> nat
    decreases s.len(),
{
    if s.len() == 0 {
        0
    } else {
        (hex_value(s.drop_last()) * 16 + hex_digit_value(s.last())) as nat
    }
}

/// Are all bytes of `s` hexadecimal digits?
pub open spec fn all_hex_digits(s: Seq<u8>) -> bool {
    forall|i: int| 0 <= i < s.len() ==> is_hex_digit(#[trigger] s[i])
}

/// A string of `n` hex digits is worth less than `16^n`; stated here for
/// the sixteen-digit words so their value fits a `u64`.
pub proof fn lemma_hex_value_bound(s: Seq<u8>)
    requires
        s.len() <= 16,
        all_hex_digits(s),
    ensures
        hex_value(s) < pow16(s.len() as nat),
    decreases s.len(),
{
    if s.len() > 0 {
        lemma_hex_value_bound(s.drop_last());
    }
}

/// `16^n`, for the bound on hex values.
pub open spec fn pow16(n: nat) -> nat
    decreases n,
{
    if n == 0 {
        1
    } else {
        16 * pow16((n - 1) as nat)
    }
}

/// The spec-level reading of a 64-digit hex string as a txid.
pub open spec fn txid_of_hex(s: Seq<u8>) -> Txid {
    Txid {
        w0: hex_value(s.subrange(0, 16)) as u64,
        w1: hex_value(s.subrange(16, 32)) as u64,
        w2: hex_value(s.subrange(32, 48)) as u64,
        w3: hex_value(s.subrange(48, 64)) as u64,
    }
}

/// Is `s` the well-formed hex writing of a txid: 64 digits, all hexadecimal?
pub open spec fn is_txid_hex(s: Seq<u8>) -> bool {
    s.len() == 64 && all_hex_digits(s)
}

/// Parse sixteen hex digit bytes of `b` starting at `start` into one word.
fn parse_hex_word(b: &[u8], start: usize) -> (r: Option<u64>)
    requires
        start + 16 <= b@.len(),
    ensures
        r is Some <==> all_hex_digits(b@.subrange(start as int, start + 16)),
        r matches Some(w) ==> w == hex_value(b@.subrange(start as int, start + 16)),
{
    let n: usize = b.len();
    let mut w: u64 = 0;
    let mut j: usize = 0;
    while j < 16
        invariant
            0 <= j <= 16,
            start + 16 <= n == b@.len(),
            all_hex_digits(b@.subrange(start as int, start + j)),
            w == hex_value(b@.subrange(start as int, start + j)),
        decreases 16 - j,
    {
        let ghost prefix = b@.subrange(start as int, start + j);
        let byte = b[start + j];
        let v: u8;
        if 48 <= byte && byte <= 57 {
            v = byte - 48;
        } else if 97 <= byte && byte <= 102 {
            v = byte - 87;
        } else if 65 <= byte && byte <= 70 {
            v = byte - 55;
        } else {
            proof {
                assert(b@.subrange(start as int, start + 16)[j as int] == byte);
            }
            return None;
        }
        proof {
            lemma_hex_value_bound(prefix);
            assert(pow16(15) == 0x1000000000000000) by {
                reveal_with_fuel(pow16, 16);
            }
            assert(hex_value(prefix) < pow16(15)) by {
                lemma_pow16_increases(prefix.len() as nat, 15);
            }
            assert(b@.subrange(start as int, start + j + 1).drop_last() =~= prefix);
            assert(b@.subrange(start as int, start + j + 1).last() == byte);
        }
        assert(w <= 0xfffffffffffffff);
        w = w * 16 + (v as u64);
        j = j + 1;
    }
    proof {
        assert(b@.subrange(start as int, start + 16) =~= b@.subrange(start as int, start + j));
    }
    Some(w)
}

/// `16^a <= 16^b` when `a <= b`.
proof fn lemma_pow16_increases(a: nat, b: nat)
    requires
        a <= b,
    ensures
        pow16(a) <= pow16(b),
    decreases b,
{
    if a < b {
        lemma_pow16_increases(a, (b - 1) as nat);
        assert(pow16(b) == 16 * pow16((b - 1) as nat));
    }
}

/// Parse the 64-digit hex writing of a transaction id (or a block hash).
/// Returns `None` exactly on a string of the wrong length or with a
/// non-hexadecimal byte.
pub fn txid_from_hex(s: &str) -> (r: Option<Txid>)
    ensures
        r is Some <==> is_txid_hex(s.spec_bytes()),
        r matches Some(t) ==> t == txid_of_hex(s.spec_bytes()),
{
    let b = s.as_bytes();
    if b.len() != 64 {
        proof {
            if is_txid_hex(s.spec_bytes()) {
                assert(s.spec_bytes().len() == 64);
            }
        }
        return None;
    }
    let w0 = match parse_hex_word(b, 0) {
        Some(w) => w,
        None => {
            proof {
                if all_hex_digits(b@) {
                    assert(all_hex_digits(b@.subrange(0, 16))) by {
                        lemma_all_hex_sub(b@, 0, 16);
                    }
                }
            }
            return None;
        },
    };
    let w1 = match parse_hex_word(b, 16) {
        Some(w) => w,
        None => {
            proof {
                if all_hex_digits(b@) {
                    lemma_all_hex_sub(b@, 16, 32);
                }
            }
            return None;
        },
    };
    let w2 = match parse_hex_word(b, 32) {
        Some(w) => w,
        None => {
            proof {
                if all_hex_digits(b@) {
                    lemma_all_hex_sub(b@, 32, 48);
                }
            }
            return None;
        },
    };
    let w3 = match parse_hex_word(b, 48) {
        Some(w) => w,
        None => {
            proof {
                if all_hex_digits(b@) {
                    lemma_all_hex_sub(b@, 48, 64);
                }
            }
            return None;
        },
    };
    proof {
        assert(all_hex_digits(b@)) by {
            assert forall|i: int| 0 <= i < b@.len() implies is_hex_digit(#[trigger] b@[i]) by {
                if i < 16 {
                    assert(b@.subrange(0, 16)[i] == b@[i]);
                } else if i < 32 {
                    assert(b@.subrange(16, 32)[i - 16] == b@[i]);
                } else if i < 48 {
                    assert(b@.subrange(32, 48)[i - 32] == b@[i]);
                } else {
                    assert(b@.subrange(48, 64)[i - 48] == b@[i]);
                }
            }
        }
    }
    Some(Txid { w0, w1, w2, w3 })
}

/// Every byte of a subrange of an all-hex string is a hex digit.
proof fn lemma_all_hex_sub(s: Seq<u8>, from: int, to: int)
    requires
        all_hex_digits(s),
        0 <= from <= to <= s.len(),
    ensures
        all_hex_digits(s.subrange(from, to)),
{
    assert forall|i: int| 0 <= i < to - from implies is_hex_digit(
        #[trigger] s.subrange(from, to)[i],
    ) by {
        assert(s.subrange(from, to)[i] == s[from + i]);
    }
}


/// A copy of a string with the same characters.
pub fn clone_string(s: &String) -> (r: String)
    ensures
        r@ == s@,
{
    s.as_str().to_owned()
}

} // verus!
