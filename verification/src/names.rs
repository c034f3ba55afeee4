//! Addresses and symbols: the names by which the contract knows things.

use vstd::prelude::*;
use vstd::string::StringSliceAdditionalSpecFns;

use crate::table::Key;

verus! {

/// An account or a contract, by the 32 bytes that identify it.
#[derive(Clone, Copy, Debug, PartialEq, Eq, Structural)]
pub struct Address {
    pub is_contract: bool,
    pub head: u128,
    pub tail: u128,
}

impl Key for Address {
    fn same(self, other: Self) -> (b: bool) {
        self == other
    }
}

/// The contract address whose identifying bytes are all zero.
pub open spec fn zero_address() -> Address {
    Address { is_contract: true, head: 0, tail: 0 }
}

/// Whether `addr` is the contract address whose identifying bytes are all zero.
pub fn is_zero_address(addr: Address) -> (b: bool)
    ensures
        b == (addr == zero_address()),
{
    addr.is_contract && addr.head == 0 && addr.tail == 0
}

/// A short name of up to 32 characters out of `A`-`Z`, `a`-`z`, `0`-`9` and `_`: the first 16 as
/// one big-endian number, the others as a second.
#[derive(Clone, Copy, Debug, PartialEq, Eq, Structural)]
pub struct Symbol {
    pub head: u128,
    pub tail: u128,
}

impl Key for Symbol {
    fn same(self, other: Self) -> (b: bool) {
        self == other
    }
}

/// Whether `b` may occur in a symbol.
pub open spec fn symbol_byte(b: u8) -> bool {
    48 <= b <= 57 || 65 <= b <= 90 || 97 <= b <= 122 || b == 95
}

/// Whether `text` spells a symbol.
pub open spec fn symbol_text(text: Seq<u8>) -> bool {
    &&& text.len() <= 32
    &&& forall|i: int| 0 <= i < text.len() ==> symbol_byte(#[trigger] text[i])
}

/// The bytes as one big-endian number.
pub open spec fn packed(text: Seq<u8>) -> nat
    decreases text.len(),
{
    if text.len() == 0 {
        0
    } else {
        packed(text.drop_last()) * 256 + text.last() as nat
    }
}

/// The largest number of `n` bytes, and one more.
pub open spec fn byte_limit(n: nat) -> nat
    decreases n,
{
    if n == 0 {
        1
    } else {
        byte_limit((n - 1) as nat) * 256
    }
}

proof fn lemma_packed_bound(text: Seq<u8>)
    ensures
        packed(text) < byte_limit(text.len()),
    decreases text.len(),
{
    if text.len() > 0 {
        lemma_packed_bound(text.drop_last());
        let p = packed(text.drop_last());
        let l = byte_limit((text.len() - 1) as nat);
        assert(p * 256 + 255 < l * 256) by (nonlinear_arith)
            requires
                p < l,
        ;
    }
}

proof fn lemma_byte_limit(n: nat)
    requires
        n <= 16,
    ensures
        byte_limit(n) <= 0x1_0000_0000_0000_0000_0000_0000_0000_0000,
{
    reveal_with_fuel(byte_limit, 17);
}

/// Texts without zero bytes pack into one number in one way only.
proof fn lemma_packed_injective(a: Seq<u8>, b: Seq<u8>)
    requires
        packed(a) == packed(b),
        forall|i: int| 0 <= i < a.len() ==> #[trigger] a[i] != 0,
        forall|i: int| 0 <= i < b.len() ==> #[trigger] b[i] != 0,
    ensures
        a == b,
    decreases a.len() + b.len(),
{
    if a.len() == 0 && b.len() == 0 {
        assert(a =~= b);
    } else if a.len() == 0 {
        assert(b[b.len() - 1] != 0);
    } else if b.len() == 0 {
        assert(a[a.len() - 1] != 0);
    } else {
        let (x, y) = (packed(a.drop_last()), packed(b.drop_last()));
        assert(x == y && a.last() == b.last());
        assert forall|i: int| 0 <= i < a.drop_last().len() implies #[trigger] a.drop_last()[i]
            != 0 by {
            assert(a[i] != 0);
        }
        assert forall|i: int| 0 <= i < b.drop_last().len() implies #[trigger] b.drop_last()[i]
            != 0 by {
            assert(b[i] != 0);
        }
        lemma_packed_injective(a.drop_last(), b.drop_last());
        assert(a =~= a.drop_last().push(a.last()));
        assert(b =~= b.drop_last().push(b.last()));
    }
}

/// The symbol that `text` spells.
pub open spec fn symbol_of(text: Seq<u8>) -> Symbol {
    let cut = if text.len() <= 16 {
        text.len() as int
    } else {
        16
    };
    Symbol {
        head: packed(text.take(cut)) as u128,
        tail: packed(text.skip(cut)) as u128,
    }
}

/// The symbol of up to 16 characters whose text is the number `code`.
pub open spec fn short_symbol(code: u128) -> Symbol {
    Symbol { head: code, tail: 0 }
}

/// Different texts spell different symbols.
pub proof fn symbols_are_distinct(a: Seq<u8>, b: Seq<u8>)
    requires
        symbol_text(a),
        symbol_text(b),
        symbol_of(a) == symbol_of(b),
    ensures
        a == b,
{
    let m = if a.len() <= 16 {
        a.len() as int
    } else {
        16
    };
    let n = if b.len() <= 16 {
        b.len() as int
    } else {
        16
    };
    lemma_packed_bound(a.take(m));
    lemma_packed_bound(a.skip(m));
    lemma_packed_bound(b.take(n));
    lemma_packed_bound(b.skip(n));
    lemma_byte_limit(a.take(m).len());
    lemma_byte_limit(a.skip(m).len());
    lemma_byte_limit(b.take(n).len());
    lemma_byte_limit(b.skip(n).len());
    assert forall|i: int| 0 <= i < a.len() implies #[trigger] a[i] != 0 by {
        assert(symbol_byte(a[i]));
    }
    assert forall|i: int| 0 <= i < b.len() implies #[trigger] b[i] != 0 by {
        assert(symbol_byte(b[i]));
    }
    lemma_packed_injective(a.take(m), b.take(n));
    lemma_packed_injective(a.skip(m), b.skip(n));
    assert(a =~= a.take(m) + a.skip(m));
    assert(b =~= b.take(n) + b.skip(n));
}

/// A text spells a symbol exactly if it has at most 32 characters out of the letters, the digits
/// and the underscore; its first 16 characters make up the head and the others the tail, each
/// character being worth 256 times the one behind it.
pub proof fn symbols_are_spelled_in_order(text: Seq<u8>, b: u8)
    ensures
        symbol_text(text) <==> text.len() <= 32 && forall|i: int|
            0 <= i < text.len() ==> {
                let x = #[trigger] text[i];
                48 <= x <= 57 || 65 <= x <= 90 || 97 <= x <= 122 || x == 95
            },
        text.len() < 16 ==> symbol_of(text.push(b)).head == (packed(text) * 256 + b) as u128
            && symbol_of(text.push(b)).tail == 0,
        packed(Seq::empty()) == 0,
        packed(text.push(b)) == packed(text) * 256 + b,
{
    assert(text.push(b).drop_last() =~= text);
    if text.len() < 16 {
        let n = text.len() as int + 1;
        assert(text.push(b).take(n) =~= text.push(b));
        assert(text.push(b).skip(n) =~= Seq::empty());
    }
    if symbol_text(text) {
        assert forall|i: int| 0 <= i < text.len() implies {
            let x = #[trigger] text[i];
            48 <= x <= 57 || 65 <= x <= 90 || 97 <= x <= 122 || x == 95
        } by {
            assert(symbol_byte(text[i]));
        }
    }
}

/// The bytes of `text` from `from` up to `to` as one big-endian number.
fn pack(text: &[u8], from: usize, to: usize) -> (n: u128)
    requires
        from <= to <= text@.len(),
        to - from <= 16,
    ensures
        n == packed(text@.subrange(from as int, to as int)),
{
    let mut n: u128 = 0;
    let mut i: usize = from;
    assert(text@.subrange(from as int, from as int) =~= Seq::<u8>::empty());
    while i < to
        invariant
            from <= i <= to <= text@.len(),
            to - from <= 16,
            n == packed(text@.subrange(from as int, i as int)),
        decreases to - i,
    {
        let ghost done = text@.subrange(from as int, i as int);
        let ghost next = text@.subrange(from as int, i + 1);
        proof {
            assert(next.drop_last() =~= done);
            lemma_packed_bound(next);
            lemma_byte_limit(next.len());
        }
        n = n * 256 + text[i] as u128;
        i += 1;
    }
    n
}

impl Symbol {
    /// The symbol of up to 16 characters whose text is the number `code`.
    pub fn short(code: u128) -> (r: Symbol)
        ensures
            r == short_symbol(code),
    {
        Symbol { head: code, tail: 0 }
    }

    /// The symbol that `text` spells, if it spells one.
    pub fn new(text: &str) -> (r: Option<Symbol>)
        ensures
            r == if symbol_text(text.spec_bytes()) {
                Some(symbol_of(text.spec_bytes()))
            } else {
                None::<Symbol>
            },
    {
        let bytes = text.as_bytes();
        let n: usize = bytes.len();
        if n > 32 {
            return None;
        }
        let mut i: usize = 0;
        while i < n
            invariant
                i <= n,
                n == bytes@.len(),
                bytes@ == text.spec_bytes(),
                forall|j: int| 0 <= j < i ==> symbol_byte(#[trigger] bytes@[j]),
            decreases n - i,
        {
            let b: u8 = bytes[i];
            let known = (48 <= b && b <= 57) || (65 <= b && b <= 90) || (97 <= b && b <= 122) || b
                == 95;
            if !known {
                return None;
            }
            i += 1;
        }
        let cut: usize = if n <= 16 {
            n
        } else {
            16
        };
        proof {
            assert(bytes@.subrange(0, cut as int) =~= bytes@.take(cut as int));
            assert(bytes@.subrange(cut as int, n as int) =~= bytes@.skip(cut as int));
        }
        Some(Symbol { head: pack(bytes, 0, cut), tail: pack(bytes, cut, n) })
    }
}

} // verus!
