//! Machine words as bytes, in either byte order.

use vstd::prelude::*;

verus! {

/// The order in which the bytes of a word lie in memory.
#[derive(Clone, Copy, Debug, PartialEq, Eq, Structural)]
pub enum ByteOrder {
    /// Least significant byte first.
    Little,
    /// Most significant byte first.
    Big,
}

/// The number of values that `width` bytes can hold: 256 to the power `width`.
pub open spec fn word_limit(width: nat) -> nat
    decreases width,
{
    if width == 0 {
        1
    } else {
        256 * word_limit((width - 1) as nat)
    }
}

/// The `width` low bytes of `value`, least significant first.
pub open spec fn little_endian(value: nat, width: nat) -> Seq<u8>
    decreases width,
{
    if width == 0 {
        Seq::empty()
    } else {
        seq![(value % 256) as u8] + little_endian(value / 256, (width - 1) as nat)
    }
}

/// The number whose bytes, least significant first, are `bytes`.
pub open spec fn little_endian_value(bytes: Seq<u8>) -> nat
    decreases bytes.len(),
{
    if bytes.len() == 0 {
        0
    } else {
        bytes[0] as nat + 256 * little_endian_value(bytes.drop_first())
    }
}

/// The `width` low bytes of `value`, laid out in `order`.
pub open spec fn word_bytes(value: nat, width: nat, order: ByteOrder) -> Seq<u8> {
    match order {
        ByteOrder::Little => little_endian(value, width),
        ByteOrder::Big => little_endian(value, width).reverse(),
    }
}

/// The number that `bytes` spell when read in `order`.
pub open spec fn word_value(bytes: Seq<u8>, order: ByteOrder) -> nat {
    match order {
        ByteOrder::Little => little_endian_value(bytes),
        ByteOrder::Big => little_endian_value(bytes.reverse()),
    }
}

/// Asks `u16::to_ne_bytes` for the bytes of the number one as this machine
/// lays them out: the one comes first or last.
#[verifier::external_body]
fn native_bytes_of_one() -> (bytes: [u8; 2])
    ensures
        bytes@ == seq![1u8, 0u8] || bytes@ == seq![0u8, 1u8],
{
    1u16.to_ne_bytes()
}

impl ByteOrder {
    /// The byte order in which `bytes`, two bytes of which one is a one and
    /// the other a zero, spell the number one.
    pub fn of_one(bytes: [u8; 2]) -> (order: ByteOrder)
        ensures
            order == (if bytes@[0] == 1 {
                ByteOrder::Little
            } else {
                ByteOrder::Big
            }),
            bytes@ == seq![1u8, 0u8] || bytes@ == seq![0u8, 1u8] ==> word_value(bytes@, order)
                == 1,
    {
        proof {
            reveal_with_fuel(little_endian_value, 3);
        }
        if bytes[0] == 1 {
            ByteOrder::Little
        } else {
            ByteOrder::Big
        }
    }

    /// The byte order of the machine this runs on.
    pub fn host() -> (order: ByteOrder) {
        Self::of_one(native_bytes_of_one())
    }
}

/// Writes the `width` low bytes of `value` in `order`.
pub fn encode_word(value: u64, width: usize, order: ByteOrder) -> (bytes: Vec<u8>)
    ensures
        bytes@ == word_bytes(value as nat, width as nat, order),
        bytes@.len() == width,
{
    let mut low_first: Vec<u8> = Vec::new();
    let mut rest: u64 = value;
    let mut done: usize = 0;
    while done < width
        invariant
            done <= width,
            low_first@.len() == done,
            low_first@ + little_endian(rest as nat, (width - done) as nat) == little_endian(
                value as nat,
                width as nat,
            ),
        decreases width - done,
    {
        low_first.push((rest % 256) as u8);
        rest = rest / 256;
        done = done + 1;
    }
    match order {
        ByteOrder::Little => low_first,
        ByteOrder::Big => {
            let mut high_first: Vec<u8> = Vec::new();
            let mut taken: usize = 0;
            while taken < width
                invariant
                    taken <= width,
                    low_first@.len() == width,
                    high_first@.len() == taken,
                    forall|i: int|
                        0 <= i < taken ==> high_first@[i] == low_first@[width - 1 - i],
                decreases width - taken,
            {
                high_first.push(low_first[width - 1 - taken]);
                taken = taken + 1;
            }
            high_first
        },
    }
}

/// Reads the number that at most eight bytes spell in `order`.
pub fn decode_word(bytes: &[u8], order: ByteOrder) -> (value: u64)
    requires
        bytes@.len() <= 8,
    ensures
        value == word_value(bytes@, order),
        value < word_limit(bytes@.len()),
{
    let count: usize = bytes.len();
    let mut value: u64 = 0;
    let mut done: usize = 0;
    while done < count
        invariant
            done <= count,
            count == bytes@.len(),
            count <= 8,
            order == ByteOrder::Little ==> value == little_endian_value(
                bytes@.subrange(count - done, count as int),
            ),
            order == ByteOrder::Big ==> value == little_endian_value(
                bytes@.subrange(0, done as int).reverse(),
            ),
            value < word_limit(done as nat),
        decreases count - done,
    {
        let at: usize = match order {
            ByteOrder::Little => count - 1 - done,
            ByteOrder::Big => done,
        };
        let byte: u8 = bytes[at];
        proof {
            lemma_word_limit_values();
            assert(word_limit((done + 1) as nat) == 256 * word_limit(done as nat));
            match order {
                ByteOrder::Little => {
                    let wider = bytes@.subrange(count - done - 1, count as int);
                    assert(wider.drop_first() =~= bytes@.subrange(count - done, count as int));
                },
                ByteOrder::Big => {
                    let wider = bytes@.subrange(0, done + 1).reverse();
                    assert(wider.drop_first() =~= bytes@.subrange(0, done as int).reverse());
                },
            }
        }
        value = value * 256 + byte as u64;
        done = done + 1;
    }
    proof {
        assert(bytes@.subrange(0, count as int) =~= bytes@);
    }
    value
}

/// Eight bytes hold exactly the values of a `u64`.
pub proof fn lemma_word_limit_values()
    ensures
        word_limit(0) == 1,
        word_limit(4) == 0x1_0000_0000,
        word_limit(8) == 0x1_0000_0000_0000_0000,
{
    reveal_with_fuel(word_limit, 9);
}

/// More bytes hold more values.
pub proof fn lemma_word_limit_grows(narrow: nat, wide: nat)
    requires
        narrow <= wide,
    ensures
        0 < word_limit(narrow) <= word_limit(wide),
    decreases wide,
{
    if wide > 0 && narrow == wide {
        lemma_word_limit_grows((narrow - 1) as nat, (wide - 1) as nat);
    } else if wide > 0 {
        lemma_word_limit_grows(narrow, (wide - 1) as nat);
    }
}

/// An encoding has as many bytes as were asked for.
pub proof fn lemma_little_endian_len(value: nat, width: nat)
    ensures
        little_endian(value, width).len() == width,
    decreases width,
{
    if width > 0 {
        lemma_little_endian_len(value / 256, (width - 1) as nat);
    }
}

/// What bytes spell is below the limit of their number.
pub proof fn lemma_little_endian_value_bound(bytes: Seq<u8>)
    ensures
        little_endian_value(bytes) < word_limit(bytes.len()),
    decreases bytes.len(),
{
    if bytes.len() > 0 {
        lemma_little_endian_value_bound(bytes.drop_first());
    }
}

/// Reading back the little-endian bytes of a value gives the value, cut to the
/// width.
pub proof fn lemma_little_endian_value_of_bytes(value: nat, width: nat)
    ensures
        little_endian_value(little_endian(value, width)) == value % word_limit(width),
    decreases width,
{
    if width > 0 {
        let rest = little_endian(value / 256, (width - 1) as nat);
        let bytes = little_endian(value, width);
        let limit = word_limit((width - 1) as nat);
        lemma_little_endian_value_of_bytes(value / 256, (width - 1) as nat);
        lemma_word_limit_grows(0, (width - 1) as nat);
        assert(bytes.drop_first() =~= rest);
        vstd::arithmetic::div_mod::lemma_mod_breakdown(value as int, 256, limit as int);
    }
}

/// Writing the number that bytes spell gives the bytes back.
pub proof fn lemma_little_endian_bytes_of_value(bytes: Seq<u8>)
    ensures
        little_endian(little_endian_value(bytes), bytes.len()) == bytes,
    decreases bytes.len(),
{
    if bytes.len() > 0 {
        let tail = bytes.drop_first();
        let value = little_endian_value(bytes);
        lemma_little_endian_bytes_of_value(tail);
        assert(value % 256 == bytes[0] as nat && value / 256 == little_endian_value(tail)) by {
            vstd::arithmetic::div_mod::lemma_fundamental_div_mod_converse(
                value as int,
                256,
                little_endian_value(tail) as int,
                bytes[0] as int,
            );
        }
    }
}

/// An encoded word has as many bytes as were asked for, in either order.
pub proof fn lemma_word_bytes_len(value: nat, width: nat, order: ByteOrder)
    ensures
        word_bytes(value, width, order).len() == width,
{
    lemma_little_endian_len(value, width);
}

/// A value that fits the width is read back unchanged from the bytes it was
/// written as, whichever the byte order; a wider one is cut to the width.
pub proof fn lemma_word_round_trip(value: nat, width: nat, order: ByteOrder)
    ensures
        word_value(word_bytes(value, width, order), order) == value % word_limit(width),
        value < word_limit(width) ==> word_value(word_bytes(value, width, order), order) == value,
{
    lemma_little_endian_value_of_bytes(value, width);
    let bytes = little_endian(value, width);
    assert(bytes.reverse().reverse() =~= bytes);
    if value < word_limit(width) {
        vstd::arithmetic::div_mod::lemma_small_mod(value, word_limit(width));
    }
}

/// Bytes are written back unchanged from the value they were read as,
/// whichever the byte order.
pub proof fn lemma_bytes_round_trip(bytes: Seq<u8>, order: ByteOrder)
    ensures
        word_bytes(word_value(bytes, order), bytes.len(), order) == bytes,
        word_value(bytes, order) < word_limit(bytes.len()),
{
    lemma_little_endian_bytes_of_value(bytes);
    lemma_little_endian_bytes_of_value(bytes.reverse());
    lemma_little_endian_value_bound(bytes);
    lemma_little_endian_value_bound(bytes.reverse());
}

} // verus!
