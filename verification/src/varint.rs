//! Variable-length unsigned integers and length-prefixed strings.

use vstd::prelude::*;

use crate::bytes::{has_bytes, Reader};
use crate::error::{decodes_as, Decoded, Error, ErrorView};

verus! {

/// The most bytes a variable-length integer may take.
pub const MAX_VARUINT_BYTES: u32 = 5;

/// The number spelled from `pos` on by at most `budget` bytes, each giving
/// seven bits, least significant group first, and each but the last marked by
/// its top bit. The number is not yet cut to 32 bits.
pub open spec fn varuint_from(input: Seq<u8>, pos: int, budget: nat) -> Result<(nat, int), ErrorView>
    decreases budget,
{
    if budget == 0 {
        Err(ErrorView::Malformed)
    } else if !has_bytes(input, pos, 1) {
        Err(ErrorView::Io)
    } else if input[pos] < 0x80 {
        Ok((input[pos] as nat, pos + 1))
    } else {
        match varuint_from(input, pos + 1, (budget - 1) as nat) {
            Ok((high, end)) => Ok(((input[pos] - 0x80 + 0x80 * high) as nat, end)),
            Err(e) => Err(e),
        }
    }
}

/// Reading a variable-length unsigned integer: the number spelled by at most
/// five bytes, cut to its low 32 bits.
pub open spec fn spec_read_varuint(input: Seq<u8>, pos: int) -> Decoded<u32> {
    match varuint_from(input, pos, MAX_VARUINT_BYTES as nat) {
        Ok((v, end)) => Ok(((v % 0x1_0000_0000) as u32, end)),
        Err(e) => Err(e),
    }
}

/// Seven-bit groups weigh 1, 128, 128 * 128, ...
pub open spec fn group_weight(groups: nat) -> nat
    decreases groups,
{
    if groups == 0 {
        1
    } else {
        0x80 * group_weight((groups - 1) as nat)
    }
}

/// The outcome of reading `rest` behind `groups` groups worth `low`.
pub open spec fn behind_groups(low: nat, groups: nat, rest: Result<(nat, int), ErrorView>) -> Result<(nat, int), ErrorView> {
    match rest {
        Ok((high, end)) => Ok((low + group_weight(groups) * high, end)),
        Err(e) => Err(e),
    }
}

/// Putting a group above the groups read before it adds its weight: no bit
/// of the two overlaps. The fifth group loses what does not fit in 32 bits.
proof fn lemma_or_group(acc: u32, group: u8, groups: u32)
    by (bit_vector)
    requires
        group < 0x80,
        groups < 5,
        groups == 0 ==> acc == 0,
        groups == 1 ==> acc < 0x80,
        groups == 2 ==> acc < 0x4000,
        groups == 3 ==> acc < 0x20_0000,
        groups == 4 ==> acc < 0x1000_0000,
    ensures
        groups == 0 ==> acc | ((group as u32) << 0u32) == group as u32,
        groups == 1 ==> acc | ((group as u32) << 7u32) == acc + 0x80 * (group as u32),
        groups == 2 ==> acc | ((group as u32) << 14u32) == acc + 0x4000 * (group as u32),
        groups == 3 ==> acc | ((group as u32) << 21u32) == acc + 0x20_0000 * (group as u32),
        groups == 4 ==> acc | ((group as u32) << 28u32) == (acc + 0x1000_0000 * (group as u64))
            % 0x1_0000_0000,
{
}

/// The weights of the first groups, written out.
proof fn lemma_group_weights()
    ensures
        group_weight(0) == 1,
        group_weight(1) == 0x80,
        group_weight(2) == 0x4000,
        group_weight(3) == 0x20_0000,
        group_weight(4) == 0x1000_0000,
        group_weight(5) == 0x8_0000_0000,
{
    reveal_with_fuel(group_weight, 6);
}

/// Reads a variable-length unsigned integer: the low seven bits of each byte,
/// least significant group first, while the top bit of a byte is set. A fifth
/// byte with its top bit set is refused.
pub fn read_7bit_encoded_int(rdr: &mut Reader) -> (r: Result<u32, Error>)
    ensures
        final(rdr).input() == old(rdr).input(),
        decodes_as(r, final(rdr).position(), spec_read_varuint(old(rdr).input(), old(rdr).position())),
{
    let ghost input = rdr.input();
    let ghost start = rdr.position();
    let ghost mut low: nat = 0;
    let mut result: u32 = 0;
    let mut groups: u32 = 0;
    proof {
        lemma_group_weights();
    }
    while groups < MAX_VARUINT_BYTES
        invariant
            rdr.input() == input,
            input == old(rdr).input(),
            start == old(rdr).position(),
            rdr.position() == start + groups,
            groups <= MAX_VARUINT_BYTES,
            result == low % 0x1_0000_0000,
            low < group_weight(groups as nat),
            varuint_from(input, start, MAX_VARUINT_BYTES as nat) == behind_groups(
                low,
                groups as nat,
                varuint_from(input, start + groups, (MAX_VARUINT_BYTES - groups) as nat),
            ),
        decreases MAX_VARUINT_BYTES - groups,
    {
        let value = match rdr.read_u8() {
            Ok(value) => value,
            Err(e) => {
                return Err(e);
            },
        };
        let group = value & 0x7f;
        let ghost rest = varuint_from(input, start + groups + 1, (MAX_VARUINT_BYTES - groups - 1) as nat);
        proof {
            let weight = group_weight(groups as nat);
            let high = rest->Ok_0.0;
            lemma_group_weights();
            assert(group == value % 0x80 && (value & 0x80 == 0 <==> value < 0x80)) by (bit_vector)
                requires
                    group == value & 0x7f,
            ;
            lemma_or_group(result, group, groups);
            assert(group_weight(groups as nat + 1) == 0x80 * weight);
            assert(weight * (group + 0x80 * high) == weight * group + (0x80 * weight) * high)
                by (nonlinear_arith);
        }
        result = result | ((group as u32) << (7 * groups));
        proof {
            low = low + group_weight(groups as nat) * group as nat;
        }
        if value & 0x80 == 0 {
            return Ok(result);
        }
        groups = groups + 1;
    }
    Err(Error::Malformed)
}

/// The shortest spelling of `value` as a variable-length unsigned integer.
pub open spec fn varuint_encoding(value: nat) -> Seq<u8>
    decreases value,
{
    if value < 0x80 {
        seq![value as u8]
    } else {
        seq![(value % 0x80 + 0x80) as u8] + varuint_encoding(value / 0x80)
    }
}

/// Spells `value` as a variable-length unsigned integer in as few bytes as
/// the encoding allows.
pub fn write_7bit_encoded_int(value: u32) -> (bytes: Vec<u8>)
    ensures
        bytes@ == varuint_encoding(value as nat),
{
    let mut bytes: Vec<u8> = Vec::new();
    let mut rest: u32 = value;
    while rest >= 0x80
        invariant
            bytes@ + varuint_encoding(rest as nat) == varuint_encoding(value as nat),
        decreases rest,
    {
        let group: u8 = (rest % 0x80) as u8;
        proof {
            assert(bytes@.push((group + 0x80) as u8) + varuint_encoding(rest as nat / 0x80)
                =~= bytes@ + varuint_encoding(rest as nat));
        }
        bytes.push(group + 0x80);
        rest = rest / 0x80;
    }
    proof {
        assert(bytes@.push(rest as u8) =~= bytes@ + varuint_encoding(rest as nat));
    }
    bytes.push(rest as u8);
    bytes
}

/// An input that holds the encoding of `value` at `pos` decodes there to
/// `value`, within any budget whose groups can hold it.
proof fn lemma_decode_encoding(value: nat, budget: nat, input: Seq<u8>, pos: int)
    requires
        budget >= 1,
        value < group_weight(budget),
        has_bytes(input, pos, varuint_encoding(value).len() as int),
        input.subrange(pos, pos + varuint_encoding(value).len()) == varuint_encoding(value),
    ensures
        varuint_from(input, pos, budget) == Ok::<(nat, int), ErrorView>(
            (value, pos + varuint_encoding(value).len()),
        ),
        varuint_encoding(value).len() <= budget,
    decreases budget,
{
    let encoding = varuint_encoding(value);
    assert(input[pos] == input.subrange(pos, pos + encoding.len())[0]);
    if value >= 0x80 {
        let tail = varuint_encoding(value / 0x80);
        assert(encoding.len() == 1 + tail.len());
        assert(encoding[0] == value % 0x80 + 0x80);
        reveal_with_fuel(group_weight, 2);
        assert(budget > 1);
        assert(value / 0x80 < group_weight((budget - 1) as nat));
        assert(input.subrange(pos + 1, pos + 1 + tail.len()) =~= tail) by {
            assert forall|i: int| 0 <= i < tail.len() implies input[pos + 1 + i] == tail[i] by {
                assert(input[pos + 1 + i] == input.subrange(pos, pos + encoding.len())[1 + i]);
            }
        }
        lemma_decode_encoding(value / 0x80, (budget - 1) as nat, input, pos + 1);
    }
}

/// A number that decodes within `budget` bytes fits the groups it took, and
/// its shortest spelling is no longer than what was read.
proof fn lemma_decoded_is_bounded(input: Seq<u8>, pos: int, budget: nat)
    requires
        varuint_from(input, pos, budget) is Ok,
    ensures
        ({
            let (value, end) = varuint_from(input, pos, budget)->Ok_0;
            &&& 1 <= end - pos <= budget
            &&& value < group_weight((end - pos) as nat)
            &&& varuint_encoding(value).len() <= end - pos
        }),
    decreases budget,
{
    reveal_with_fuel(group_weight, 2);
    if input[pos] >= 0x80 {
        lemma_decoded_is_bounded(input, pos + 1, (budget - 1) as nat);
    }
}

/// The shortest spelling of a number below `group_weight(groups)` takes at
/// most `groups` bytes.
proof fn lemma_encoding_length(value: nat, groups: nat)
    requires
        groups >= 1,
        value < group_weight(groups),
    ensures
        varuint_encoding(value).len() <= groups,
    decreases groups,
{
    reveal_with_fuel(group_weight, 2);
    if value >= 0x80 {
        lemma_encoding_length(value / 0x80, (groups - 1) as nat);
    }
}

/// Round trip: decoding the encoding of any 32-bit value, whatever follows it
/// in the input, gives the value back and stops just behind the encoding.
pub proof fn lemma_varuint_round_trip(value: u32, rest: Seq<u8>)
    ensures
        spec_read_varuint(varuint_encoding(value as nat) + rest, 0) == Ok::<(u32, int), ErrorView>(
            (value, varuint_encoding(value as nat).len() as int),
        ),
{
    let encoding = varuint_encoding(value as nat);
    lemma_group_weights();
    assert((encoding + rest).subrange(0, encoding.len() as int) =~= encoding);
    lemma_decode_encoding(value as nat, MAX_VARUINT_BYTES as nat, encoding + rest, 0);
}

/// Minimality: no spelling that decodes to `value` is shorter than
/// `varuint_encoding(value)`, which takes at most five bytes.
pub proof fn lemma_varuint_encoding_minimal(value: u32, input: Seq<u8>, pos: int, end: int)
    requires
        spec_read_varuint(input, pos) == Ok::<(u32, int), ErrorView>((value, end)),
    ensures
        1 <= varuint_encoding(value as nat).len() <= end - pos <= MAX_VARUINT_BYTES,
{
    lemma_group_weights();
    lemma_decoded_is_bounded(input, pos, MAX_VARUINT_BYTES as nat);
    let raw = varuint_from(input, pos, MAX_VARUINT_BYTES as nat)->Ok_0.0;
    if end - pos == 5 {
        lemma_encoding_length(value as nat, 5);
    } else {
        assert(raw < 0x1000_0000) by {
            if end - pos == 1 {
            } else if end - pos == 2 {
            } else if end - pos == 3 {
            } else {
            }
        }
    }
}

/// The characters with the code points of `bytes`, byte for byte.
pub open spec fn widen(bytes: Seq<u8>) -> Seq<char> {
    bytes.map_values(|b: u8| b as char)
}

/// Reading `len` bytes as characters.
pub open spec fn spec_read_chars(input: Seq<u8>, pos: int, len: int) -> Decoded<Seq<char>> {
    if has_bytes(input, pos, len) {
        Ok((widen(input.subrange(pos, pos + len)), pos + len))
    } else {
        Err(ErrorView::Io)
    }
}

/// Reading a string whose length in bytes is a variable-length integer.
pub open spec fn spec_read_string(input: Seq<u8>, pos: int) -> Decoded<Seq<char>> {
    match spec_read_varuint(input, pos) {
        Ok((len, start)) => spec_read_chars(input, start, len as int),
        Err(e) => Err(e),
    }
}

/// `String::push`: appends one character.
#[verifier::external_body]
pub(crate) fn push_char(s: &mut String, c: char)
    ensures
        final(s)@ == old(s)@.push(c),
{
    s.push(c)
}

/// `str`'s `==`: two string slices are equal when they hold the same
/// characters.
#[verifier::external_body]
pub(crate) fn str_eq(a: &str, b: &str) -> (same: bool)
    ensures
        same == (a@ == b@),
{
    a == b
}

/// Reads `len` bytes and widens each to the character with its code point.
/// No decoding of any character set takes place.
pub fn read_string_with_length(rdr: &mut Reader, len: u32) -> (r: Result<String, Error>)
    ensures
        final(rdr).input() == old(rdr).input(),
        decodes_as(r, final(rdr).position(), spec_read_chars(old(rdr).input(), old(rdr).position(), len as int)),
{
    let bytes = match rdr.read_exact(len as usize) {
        Ok(bytes) => bytes,
        Err(e) => {
            return Err(e);
        },
    };
    let mut s = String::new();
    let mut i: usize = 0;
    while i < bytes.len()
        invariant
            i <= bytes@.len(),
            s@ == widen(bytes@.subrange(0, i as int)),
        decreases bytes@.len() - i,
    {
        proof {
            assert(widen(bytes@.subrange(0, i as int)).push(bytes@[i as int] as char)
                =~= widen(bytes@.subrange(0, i + 1)));
        }
        push_char(&mut s, bytes[i] as char);
        i = i + 1;
    }
    proof {
        assert(bytes@.subrange(0, i as int) =~= bytes@);
    }
    Ok(s)
}

/// Reads a string whose length in bytes is a variable-length integer.
pub fn read_string(rdr: &mut Reader) -> (r: Result<String, Error>)
    ensures
        final(rdr).input() == old(rdr).input(),
        decodes_as(r, final(rdr).position(), spec_read_string(old(rdr).input(), old(rdr).position())),
{
    let len = match read_7bit_encoded_int(rdr) {
        Ok(len) => len,
        Err(e) => {
            return Err(e);
        },
    };
    read_string_with_length(rdr, len)
}

} // verus!
