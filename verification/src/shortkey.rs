//! Short-key rules: normalization of a user-chosen custom name, and
//! derivation of a six-character generated identifier from a numeric seed
//! over the fixed alphabet `a-z0-9`.

use vstd::prelude::*;
use vstd::arithmetic::div_mod::lemma_div_denominator;
use vstd::string::StrSliceExecFns;
use crate::text::{lower_of, lowercase, push_char, trim_spec, trim_str};

verus! {

/// Why no key could be allocated.
#[derive(Debug, PartialEq, Eq, Structural, Clone, Copy)]
pub enum AllocationError {
    /// The normalized custom name is shorter than 2 or longer than 20
    /// characters.
    InvalidNameLength,
    /// The requested custom name is already mapped.
    NameTaken,
    /// Every generated candidate collided within the retry bound.
    AllocationExhausted,
}

/// The shortest normalized custom name that is accepted.
pub const MIN_NAME_LEN: usize = 2;

/// The longest normalized custom name that is accepted.
pub const MAX_NAME_LEN: usize = 20;

/// A character a short key may hold: a lowercase ASCII letter, a digit, or
/// a hyphen.
pub open spec fn is_key_char(c: char) -> bool {
    let u = c as u32;
    (97 <= u && u <= 122) || (48 <= u && u <= 57) || u == 45
}

fn key_char(c: char) -> (b: bool)
    ensures
        b == is_key_char(c),
{
    let u = c as u32;
    (97 <= u && u <= 122) || (48 <= u && u <= 57) || u == 45
}

/// A space becomes a hyphen; every other character stands.
pub open spec fn hyphen_mapped(c: char) -> char {
    if c == ' ' {
        '-'
    } else {
        c
    }
}

/// The key characters that survive normalization of an already-lowercased
/// sequence: spaces become hyphens, anything outside the key alphabet is
/// dropped.
pub open spec fn key_chars_of(s: Seq<char>) -> Seq<char>
    decreases s.len(),
{
    if s.len() == 0 {
        Seq::empty()
    } else {
        let prefix = key_chars_of(s.drop_last());
        let c = hyphen_mapped(s.last());
        if is_key_char(c) {
            prefix.push(c)
        } else {
            prefix
        }
    }
}

/// The normalized form of a raw custom name: trimmed, lowercased, spaces
/// hyphenated, and restricted to the key alphabet.
pub open spec fn normal_key(s: Seq<char>) -> Seq<char> {
    key_chars_of(lower_of(trim_spec(s)))
}

/// Normalizes a raw custom name. An empty result means the name is unusable
/// and a key is generated instead.
pub fn normalize_name(name: &str) -> (r: String)
    ensures
        r@ == normal_key(name@),
{
    let t = trim_str(name);
    let low = lowercase(t);
    let n: usize = low.as_str().unicode_len();
    let mut out = String::new();
    let mut i: usize = 0;
    while i < n
        invariant
            n == low@.len(),
            i <= n,
            out@ == key_chars_of(low@.take(i as int)),
        decreases n - i,
    {
        let c = low.as_str().get_char(i);
        let mapped: char = if c == ' ' {
            '-'
        } else {
            c
        };
        if key_char(mapped) {
            push_char(&mut out, mapped);
        }
        proof {
            let pre = low@.take(i + 1);
            assert(pre.drop_last() =~= low@.take(i as int));
            assert(pre.last() == low@[i as int]);
        }
        i = i + 1;
    }
    proof {
        assert(low@.take(n as int) =~= low@);
    }
    out
}

/// Every character a normalization produces lies in the key alphabet.
pub proof fn lemma_normal_key_chars(s: Seq<char>)
    ensures
        forall|i: int|
            0 <= i < key_chars_of(s).len() ==> is_key_char(#[trigger] key_chars_of(s)[i]),
    decreases s.len(),
{
    if s.len() > 0 {
        lemma_normal_key_chars(s.drop_last());
        let prefix = key_chars_of(s.drop_last());
        let c = hyphen_mapped(s.last());
        if is_key_char(c) {
            assert forall|i: int|
                0 <= i < key_chars_of(s).len() implies is_key_char(
                #[trigger] key_chars_of(s)[i],
            ) by {
                if i < prefix.len() {
                    assert(key_chars_of(s)[i] == prefix[i]);
                } else {
                    assert(key_chars_of(s)[i] == c);
                }
            }
        }
    }
}

/// 36 to the power `k`.
pub open spec fn pow36(k: nat) -> int
    decreases k,
{
    if k == 0 {
        1
    } else {
        36 * pow36((k - 1) as nat)
    }
}

proof fn lemma_pow36_pos(k: nat)
    ensures
        pow36(k) >= 1,
    decreases k,
{
    if k > 0 {
        lemma_pow36_pos((k - 1) as nat);
    }
}

/// The character standing for one base-36 digit: `a-z` for 0 to 25, `0-9`
/// for 26 to 35.
pub open spec fn base36_char(d: int) -> char {
    if d < 26 {
        ((97 + d) as u8) as char
    } else {
        ((48 + d - 26) as u8) as char
    }
}

/// The number of characters in a generated key.
pub const GENERATED_KEY_LEN: usize = 6;

/// The six-character key a seed generates: base-36 digits of the seed,
/// least-significant first.
pub open spec fn short_key_of(seed: u64) -> Seq<char> {
    Seq::new(
        GENERATED_KEY_LEN as nat,
        |i: int| base36_char((seed as int / pow36(i as nat)) % 36),
    )
}

/// Derives the six-character identifier for a seed, such as a
/// millisecond timestamp.
pub fn short_key_from_seed(seed: u64) -> (r: String)
    ensures
        r@ == short_key_of(seed),
{
    let mut out = String::new();
    let mut num: u64 = seed;
    let mut k: usize = 0;
    while k < GENERATED_KEY_LEN
        invariant
            k <= 6,
            num as int == seed as int / pow36(k as nat),
            out@.len() == k,
            forall|i: int| 0 <= i < k ==> out@[i] == short_key_of(seed)[i],
        decreases 6 - k,
    {
        let d: u64 = num % 36;
        let b: u8 = if d < 26 {
            97 + (d as u8)
        } else {
            48 + ((d - 26) as u8)
        };
        push_char(&mut out, b as char);
        proof {
            lemma_pow36_pos(k as nat);
            lemma_pow36_pos((k + 1) as nat);
            lemma_div_denominator(seed as int, pow36(k as nat), 36);
            assert(pow36(k as nat) * 36 == pow36((k + 1) as nat)) by {
                assert(pow36((k + 1) as nat) == 36 * pow36(k as nat));
            }
            assert((num / 36) as int == seed as int / pow36((k + 1) as nat));
            assert(b as char == base36_char(d as int));
            assert(d as int == (seed as int / pow36(k as nat)) % 36);
            assert(out@.last() == short_key_of(seed)[k as int]);
        }
        num = num / 36;
        k = k + 1;
    }
    proof {
        assert(out@ =~= short_key_of(seed));
    }
    out
}

/// A generated identifier is always exactly six characters, each drawn
/// from `a-z0-9`; it never holds a hyphen.
pub proof fn lemma_short_key_shape(seed: u64)
    ensures
        short_key_of(seed).len() == 6,
        forall|i: int|
            0 <= i < 6 ==> {
                let u = (#[trigger] short_key_of(seed)[i]) as u32;
                (97 <= u && u <= 122) || (48 <= u && u <= 57)
            },
{
    assert forall|i: int| 0 <= i < 6 implies {
        let u = (#[trigger] short_key_of(seed)[i]) as u32;
        (97 <= u && u <= 122) || (48 <= u && u <= 57)
    } by {
        lemma_pow36_pos(i as nat);
        let d = (seed as int / pow36(i as nat)) % 36;
        assert(0 <= d < 36);
        assert(short_key_of(seed)[i] == base36_char(d));
    }
}

} // verus!
