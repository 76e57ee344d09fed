//! Byte orders, and the bytes of a fixed-width word in either order.

use vstd::prelude::*;

verus! {

/// The order in which the bytes of a multi-byte element are stored.
#[derive(Clone, Copy, Debug, PartialEq, Eq, Structural)]
pub enum ByteOrder {
    /// Least significant byte first.
    Little,
    /// Most significant byte first.
    Big,
}

impl ByteOrder {
    /// The character that announces this byte order in a header: `<` for
    /// little-endian, `>` for big-endian.
    pub open spec fn spec_tag(self) -> u8 {
        match self {
            ByteOrder::Little => 0x3c,
            ByteOrder::Big => 0x3e,
        }
    }

    /// The character that announces this byte order in a header.
    #[verifier::when_used_as_spec(spec_tag)]
    pub fn tag(self) -> (tag: u8)
        ensures
            tag == self.spec_tag(),
    {
        match self {
            ByteOrder::Little => 0x3c,
            ByteOrder::Big => 0x3e,
        }
    }

    /// The byte order of the machine that runs this code.
    ///
    /// Which order comes back depends on the machine, so the contract cannot
    /// name it; callers pass the result on to functions that are specified
    /// for either order.
    pub fn native() -> (order: ByteOrder) {
        // The word one as this machine stores it; whichever of the two
        // layouts came back, the order found is the one that encodes it.
        let probe = native_bytes(1);
        let order = ByteOrder::from_probe(probe);
        assert(probe@ == encode(order, 2, 1));
        order
    }

    /// The byte order of a machine that stores the two-byte word one as
    /// `probe`: little-endian where the first byte is 1, big-endian
    /// otherwise. Where `probe` is the word one in either order, it is the
    /// word one in the order returned.
    pub fn from_probe(probe: [u8; 2]) -> (order: ByteOrder)
        ensures
            order == (if probe@[0] == 1 {
                ByteOrder::Little
            } else {
                ByteOrder::Big
            }),
            probe@ == encode(ByteOrder::Little, 2, 1) || probe@ == encode(ByteOrder::Big, 2, 1)
                ==> probe@ == encode(order, 2, 1),
    {
        proof {
            reveal_with_fuel(little_endian, 3);
            reveal_with_fuel(big_endian, 3);
        }
        if probe[0] == 1 {
            ByteOrder::Little
        } else {
            ByteOrder::Big
        }
    }
}

/// Calls `u16::to_ne_bytes`, which returns the two bytes of `x` as this
/// machine stores them in memory. Assumed: that layout is one of the two
/// byte orders, least significant byte first or most significant byte first.
#[verifier::external_body]
fn native_bytes(x: u16) -> (bytes: [u8; 2])
    ensures
        bytes@ == encode(ByteOrder::Little, 2, x as nat) || bytes@ == encode(
            ByteOrder::Big,
            2,
            x as nat,
        ),
{
    x.to_ne_bytes()
}

/// The number of distinct words of `width` bytes: 256 to the power `width`.
pub open spec fn limit(width: nat) -> nat
    decreases width,
{
    if width == 0 {
        1
    } else {
        256 * limit((width - 1) as nat)
    }
}

/// The `width` low bytes of `bits`, least significant first.
pub open spec fn little_endian(width: nat, bits: nat) -> Seq<u8>
    decreases width,
{
    if width == 0 {
        Seq::empty()
    } else {
        seq![(bits % 256) as u8] + little_endian((width - 1) as nat, bits / 256)
    }
}

/// The `width` low bytes of `bits`, most significant first.
pub open spec fn big_endian(width: nat, bits: nat) -> Seq<u8>
    decreases width,
{
    if width == 0 {
        Seq::empty()
    } else {
        big_endian((width - 1) as nat, bits / 256) + seq![(bits % 256) as u8]
    }
}

/// The `width` low bytes of `bits` in the given order.
pub open spec fn encode(order: ByteOrder, width: nat, bits: nat) -> Seq<u8> {
    match order {
        ByteOrder::Little => little_endian(width, bits),
        ByteOrder::Big => big_endian(width, bits),
    }
}

/// The number that `bytes` spell, least significant byte first.
pub open spec fn little_endian_value(bytes: Seq<u8>) -> nat
    decreases bytes.len(),
{
    if bytes.len() == 0 {
        0
    } else {
        bytes[0] as nat + 256 * little_endian_value(bytes.drop_first())
    }
}

/// The number that `bytes` spell, most significant byte first.
pub open spec fn big_endian_value(bytes: Seq<u8>) -> nat
    decreases bytes.len(),
{
    if bytes.len() == 0 {
        0
    } else {
        256 * big_endian_value(bytes.drop_last()) + bytes.last() as nat
    }
}

/// The number that `bytes` spell in the given order.
pub open spec fn decode(order: ByteOrder, bytes: Seq<u8>) -> nat {
    match order {
        ByteOrder::Little => little_endian_value(bytes),
        ByteOrder::Big => big_endian_value(bytes),
    }
}

/// A word of `width` bytes takes `width` bytes in either order.
pub proof fn lemma_encode_len(order: ByteOrder, width: nat, bits: nat)
    ensures
        encode(order, width, bits).len() == width,
    decreases width,
{
    if width > 0 {
        lemma_encode_len(order, (width - 1) as nat, bits / 256);
    }
}

/// Decoding undoes encoding: the bytes of a word that fits in `width` bytes
/// spell that word again, in either order.
pub proof fn lemma_decode_encode(order: ByteOrder, width: nat, bits: nat)
    requires
        bits < limit(width),
    ensures
        decode(order, encode(order, width, bits)) == bits,
    decreases width,
{
    if width > 0 {
        let rest = bits / 256;
        let low = seq![(bits % 256) as u8];
        lemma_decode_encode(order, (width - 1) as nat, rest);
        match order {
            ByteOrder::Little => {
                let tail = little_endian((width - 1) as nat, rest);
                assert((low + tail).drop_first() =~= tail);
            },
            ByteOrder::Big => {
                let front = big_endian((width - 1) as nat, rest);
                assert((front + low).drop_last() =~= front);
            },
        }
    }
}

/// Encoding undoes decoding: the number that `bytes` spell fits in as many
/// bytes, and its encoding is `bytes` again. Together with
/// `lemma_decode_encode` this makes the two a bijection between words below
/// `limit(width)` and byte strings of length `width`.
pub proof fn lemma_encode_decode(order: ByteOrder, bytes: Seq<u8>)
    ensures
        decode(order, bytes) < limit(bytes.len()),
        encode(order, bytes.len(), decode(order, bytes)) == bytes,
    decreases bytes.len(),
{
    if bytes.len() > 0 {
        match order {
            ByteOrder::Little => {
                let tail = bytes.drop_first();
                lemma_encode_decode(order, tail);
                let value = little_endian_value(tail);
                let bits = bytes[0] as nat + 256 * value;
                assert(bits % 256 == bytes[0] as nat && bits / 256 == value);
                assert(seq![bytes[0]] + tail =~= bytes);
            },
            ByteOrder::Big => {
                let front = bytes.drop_last();
                lemma_encode_decode(order, front);
                let value = big_endian_value(front);
                let bits = 256 * value + bytes.last() as nat;
                assert(bits % 256 == bytes.last() as nat && bits / 256 == value);
                assert(front + seq![bytes.last()] =~= bytes);
            },
        }
    }
}

/// Appends the `width` low bytes of `word`, least significant first.
pub fn push_little_endian(width: usize, word: u64, output: &mut Vec<u8>)
    ensures
        final(output)@ == old(output)@ + little_endian(width as nat, word as nat),
{
    let mut rest: u64 = word;
    let mut done: usize = 0;
    while done < width
        invariant
            done <= width,
            old(output)@ + little_endian(width as nat, word as nat) == output@ + little_endian(
                (width - done) as nat,
                rest as nat,
            ),
        decreases width - done,
    {
        let low: u8 = (rest % 256) as u8;
        proof {
            let tail = little_endian((width - done - 1) as nat, (rest / 256) as nat);
            assert(output@ + (seq![low] + tail) =~= output@.push(low) + tail);
        }
        output.push(low);
        rest = rest / 256;
        done = done + 1;
    }
}

/// Appends the `width` low bytes of `word`, most significant first.
pub fn push_big_endian(width: usize, word: u64, output: &mut Vec<u8>)
    ensures
        final(output)@ == old(output)@ + big_endian(width as nat, word as nat),
    decreases width,
{
    if width > 0 {
        push_big_endian(width - 1, word / 256, output);
        let low: u8 = (word % 256) as u8;
        proof {
            let front = big_endian((width - 1) as nat, (word / 256) as nat);
            assert(old(output)@ + (front + seq![low]) =~= (old(output)@ + front).push(low));
        }
        output.push(low);
    }
}

/// Appends the `width` low bytes of `word` in the given order.
pub fn push_word(order: ByteOrder, width: usize, word: u64, output: &mut Vec<u8>)
    ensures
        final(output)@ == old(output)@ + encode(order, width as nat, word as nat),
{
    match order {
        ByteOrder::Little => push_little_endian(width, word, output),
        ByteOrder::Big => push_big_endian(width, word, output),
    }
}

} // verus!
