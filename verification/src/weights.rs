//! Frequency weights: how often an asset is serviced scales its score.

use vstd::prelude::*;
use vstd::string::StringSliceAdditionalSpecFns;

use crate::arith::{capped, mul_capped};
use crate::host::{host_bytes, read_bytes};

verus! {

/// A class of characters.
pub enum Class {
    Colon,
    Digit,
    NonDigit,
}

/// Whether `b` is an ASCII digit.
pub open spec fn is_digit(b: u8) -> bool {
    48 <= b <= 57
}

/// Whether `b` is of the class.
pub open spec fn in_class(b: u8, class: Class) -> bool {
    match class {
        Class::Colon => b == 58,
        Class::Digit => is_digit(b),
        Class::NonDigit => !is_digit(b),
    }
}

/// The first place from `from` on that holds a character of the class; the end if there is none.
pub open spec fn first_of(bytes: Seq<u8>, from: int, class: Class) -> int
    decreases bytes.len() - from,
{
    if from >= bytes.len() || in_class(bytes[from], class) {
        from
    } else {
        first_of(bytes, from + 1, class)
    }
}

/// Whether `key` stands in `bytes` at place `i`.
pub open spec fn stands_at(bytes: Seq<u8>, key: Seq<u8>, i: int) -> bool {
    0 <= i && i + key.len() <= bytes.len() && bytes.subrange(i, i + key.len()) == key
}

/// The first place from `from` on at which `key` stands.
pub open spec fn first_key(bytes: Seq<u8>, key: Seq<u8>, from: int) -> Option<int>
    decreases bytes.len() - from + 1,
{
    if from + key.len() > bytes.len() {
        None
    } else if stands_at(bytes, key, from) {
        Some(from)
    } else {
        first_key(bytes, key, from + 1)
    }
}

/// The number that decimal digits spell.
pub open spec fn decimal(digits: Seq<u8>) -> nat
    decreases digits.len(),
{
    if digits.len() == 0 {
        0
    } else {
        decimal(digits.drop_last()) * 10 + (digits.last() - 48) as nat
    }
}

/// The number given for `key`: the first run of digits behind the first colon behind the first
/// occurrence of `key`. A number that exceeds 32 bits counts as the largest of 32 bits.
pub open spec fn number_for(bytes: Seq<u8>, key: Seq<u8>) -> Option<u32> {
    if key.len() == 0 || key.len() >= bytes.len() {
        None
    } else {
        match first_key(bytes, key, 0) {
            None => None,
            Some(at) => {
                let colon = first_of(bytes, at + key.len(), Class::Colon);
                let start = first_of(bytes, colon + 1, Class::Digit);
                if start >= bytes.len() {
                    None
                } else {
                    let end = first_of(bytes, start, Class::NonDigit);
                    Some(capped(decimal(bytes.subrange(start, end)) as int))
                }
            },
        }
    }
}

/// The first place from `from` on that holds a character of the class; the end if there is none.
fn seek(bytes: &[u8], from: usize, class: Class) -> (k: usize)
    requires
        from <= bytes@.len(),
    ensures
        k == first_of(bytes@, from as int, class),
        from <= k <= bytes@.len(),
{
    let mut k: usize = from;
    while k < bytes.len()
        invariant
            from <= k <= bytes@.len(),
            first_of(bytes@, from as int, class) == first_of(bytes@, k as int, class),
        decreases bytes@.len() - k,
    {
        let b: u8 = bytes[k];
        let found = match class {
            Class::Colon => b == 58,
            Class::Digit => 48 <= b && b <= 57,
            Class::NonDigit => !(48 <= b && b <= 57),
        };
        if found {
            return k;
        }
        k += 1;
    }
    k
}

/// Whether `key` stands in `bytes` at place `i`.
fn matches_at(bytes: &[u8], key: &[u8], i: usize) -> (b: bool)
    requires
        i + key@.len() <= bytes@.len(),
    ensures
        b == stands_at(bytes@, key@, i as int),
{
    let len: usize = bytes.len();
    let mut j: usize = 0;
    while j < key.len()
        invariant
            j <= key@.len(),
            len == bytes@.len(),
            i + key@.len() <= bytes@.len(),
            forall|x: int| 0 <= x < j ==> bytes@[i + x] == key@[x],
        decreases key@.len() - j,
    {
        if bytes[i + j] != key[j] {
            assert(bytes@.subrange(i as int, i + key@.len())[j as int] != key@[j as int]);
            return false;
        }
        j += 1;
    }
    assert(bytes@.subrange(i as int, i + key@.len()) =~= key@);
    true
}

/// The number that the digits from `start` up to `end` spell, or the largest of 32 bits.
fn parse_digits(bytes: &[u8], start: usize, end: usize) -> (value: u32)
    requires
        start <= end <= bytes@.len(),
        forall|x: int| start <= x < end ==> is_digit(#[trigger] bytes@[x]),
    ensures
        value == capped(decimal(bytes@.subrange(start as int, end as int)) as int),
{
    let mut value: u32 = 0;
    let mut k: usize = start;
    assert(bytes@.subrange(start as int, start as int) =~= Seq::<u8>::empty());
    while k < end
        invariant
            start <= k <= end <= bytes@.len(),
            forall|x: int| start <= x < end ==> is_digit(#[trigger] bytes@[x]),
            value == capped(decimal(bytes@.subrange(start as int, k as int)) as int),
        decreases end - k,
    {
        assert(is_digit(bytes@[k as int]));
        assert(bytes@.subrange(start as int, k + 1).drop_last() =~= bytes@.subrange(
            start as int,
            k as int,
        ));
        value = mul_capped(value, 10).saturating_add((bytes[k] - 48) as u32);
        k += 1;
    }
    value
}

proof fn lemma_run_is_digits(bytes: Seq<u8>, from: int)
    requires
        0 <= from <= bytes.len(),
    ensures
        forall|x: int|
            from <= x < first_of(bytes, from, Class::NonDigit) ==> is_digit(#[trigger] bytes[x]),
    decreases bytes.len() - from,
{
    if from < bytes.len() && is_digit(bytes[from]) {
        lemma_run_is_digits(bytes, from + 1);
    }
}

/// The number that the text gives for `key`, if it gives one.
fn find_number(bytes: &[u8], key: &[u8]) -> (r: Option<u32>)
    ensures
        r == number_for(bytes@, key@),
{
    let len: usize = bytes.len();
    if len == 0 || key.len() == 0 || key.len() >= len {
        return None;
    }
    let mut i: usize = 0;
    while i <= len - key.len()
        invariant
            len == bytes@.len(),
            0 < key@.len() < len,
            i <= len - key@.len() + 1,
            first_key(bytes@, key@, 0) == first_key(bytes@, key@, i as int),
        decreases len - i,
    {
        if matches_at(bytes, key, i) {
            let colon: usize = seek(bytes, i + key.len(), Class::Colon);
            if colon == len {
                return None;
            }
            let start: usize = seek(bytes, colon + 1, Class::Digit);
            if start == len {
                return None;
            }
            let end: usize = seek(bytes, start, Class::NonDigit);
            proof {
                lemma_run_is_digits(bytes@, start as int);
            }
            return Some(parse_digits(bytes, start, end));
        }
        i += 1;
    }
    None
}

/// The number that the text gives for `key`, if it gives one.
pub fn json_number(bytes: &soroban_sdk::Bytes, key: &[u8]) -> (r: Option<u32>)
    ensures
        r == number_for(host_bytes(*bytes), key@),
{
    find_number(read_bytes(bytes).as_slice(), key)
}

/// How the number of recent maintenance events scales a score, in percent.
#[derive(Clone, Copy, Debug, PartialEq, Eq, Structural)]
pub struct FrequencyWeights {
    pub low: u32,
    pub medium: u32,
    pub high: u32,
    pub medium_threshold: u32,
    pub high_threshold: u32,
    pub window_days: u32,
}

/// The value, or `default` where there is none.
pub open spec fn given_or(value: Option<u32>, default: u32) -> u32 {
    match value {
        Some(v) => v,
        None => default,
    }
}

impl FrequencyWeights {
    /// No weight, the window and the lower threshold is zero, and the thresholds are in order.
    pub open spec fn wf(self) -> bool {
        &&& self.low > 0
        &&& self.medium > 0
        &&& self.high > 0
        &&& self.window_days > 0
        &&& 0 < self.medium_threshold <= self.high_threshold
    }

    /// The weight for a number of recent maintenance events.
    pub open spec fn multiplier(self, count: nat) -> u32 {
        if count >= self.high_threshold {
            self.high
        } else if count >= self.medium_threshold {
            self.medium
        } else {
            self.low
        }
    }
}

/// The weights that the text gives, if it gives acceptable ones.
pub open spec fn weights_in(json: Seq<u8>) -> Option<FrequencyWeights> {
    match (
        number_for(json, "\"low\"".spec_bytes()),
        number_for(json, "\"medium\"".spec_bytes()),
        number_for(json, "\"high\"".spec_bytes()),
    ) {
        (Some(low), Some(medium), Some(high)) => {
            let w = FrequencyWeights {
                low,
                medium,
                high,
                medium_threshold: given_or(
                    number_for(json, "\"medium_threshold\"".spec_bytes()),
                    4,
                ),
                high_threshold: given_or(number_for(json, "\"high_threshold\"".spec_bytes()), 12),
                window_days: given_or(number_for(json, "\"window_days\"".spec_bytes()), 365),
            };
            if w.wf() {
                Some(w)
            } else {
                None
            }
        },
        _ => None,
    }
}

/// The number for the key, or `default` where the text gives none.
fn number_or(json: &[u8], key: &str, default: u32) -> (r: u32)
    ensures
        r == given_or(number_for(json@, key.spec_bytes()), default),
{
    match find_number(json, key.as_bytes()) {
        Some(v) => v,
        None => default,
    }
}

/// The weights that the text gives, if it gives acceptable ones.
pub fn read_weights(weights_json: &[u8]) -> (r: Option<FrequencyWeights>)
    ensures
        r == weights_in(weights_json@),
        r matches Some(w) ==> w.wf(),
{
    let low: u32 = match find_number(weights_json, "\"low\"".as_bytes()) {
        Some(v) => v,
        None => return None,
    };
    let medium: u32 = match find_number(weights_json, "\"medium\"".as_bytes()) {
        Some(v) => v,
        None => return None,
    };
    let high: u32 = match find_number(weights_json, "\"high\"".as_bytes()) {
        Some(v) => v,
        None => return None,
    };
    let w = FrequencyWeights {
        low,
        medium,
        high,
        medium_threshold: number_or(weights_json, "\"medium_threshold\"", 4),
        high_threshold: number_or(weights_json, "\"high_threshold\"", 12),
        window_days: number_or(weights_json, "\"window_days\"", 365),
    };
    if w.low == 0 || w.medium == 0 || w.high == 0 || w.window_days == 0 || w.medium_threshold == 0
        || w.high_threshold < w.medium_threshold {
        return None;
    }
    Some(w)
}

/// The weights that the text gives, if it gives acceptable ones.
pub fn parse_frequency_weights(weights_json: &soroban_sdk::Bytes) -> (r: Option<FrequencyWeights>)
    ensures
        r == weights_in(host_bytes(*weights_json)),
        r matches Some(w) ==> w.wf(),
{
    read_weights(read_bytes(weights_json).as_slice())
}

} // verus!
