//! UTF-16LE, the encoding of partition names in a GPT entry.

use vstd::prelude::*;
use crate::bytes::{u16_le, push_u16_le, push_zeros, zeros};
use crate::err::BobErr;

verus! {

/// The number of bytes an entry has for its name.
pub const PARTITION_NAME_MAX_BYTES: usize = 72;

/// The UTF-16 code units of `c`: the code point itself where it fits
/// sixteen bits, else a high and a low surrogate.
pub open spec fn utf16_units(c: char) -> Seq<u16> {
    let cp = c as u32;
    if cp < 0x1_0000 {
        seq![cp as u16]
    } else {
        seq![
            (0xD800 + (cp - 0x1_0000) / 0x400) as u16,
            (0xDC00 + (cp - 0x1_0000) % 0x400) as u16,
        ]
    }
}

/// The bytes of `c` in UTF-16LE.
pub open spec fn utf16le_char(c: char) -> Seq<u8> {
    let units = utf16_units(c);
    if units.len() == 1 {
        u16_le(units[0])
    } else {
        u16_le(units[0]) + u16_le(units[1])
    }
}

/// The bytes of `s` in UTF-16LE.
pub open spec fn utf16le(s: Seq<char>) -> Seq<u8>
    decreases s.len(),
{
    if s.len() == 0 {
        Seq::empty()
    } else {
        utf16le(s.drop_last()) + utf16le_char(s.last())
    }
}

/// Whether `name` fits the name field of an entry.
pub open spec fn name_fits(name: Seq<char>) -> bool {
    utf16le(name).len() <= PARTITION_NAME_MAX_BYTES
}

/// The name field of an entry: `name` in UTF-16LE, filled up with zero
/// bytes.
pub open spec fn name_field(name: Seq<char>) -> Seq<u8> {
    utf16le(name) + zeros((PARTITION_NAME_MAX_BYTES - utf16le(name).len()) as nat)
}

/// A prefix never encodes to more bytes than the whole, and no string
/// to fewer than two bytes for each of its characters.
pub proof fn lemma_utf16le_prefix(s: Seq<char>, n: int)
    requires
        0 <= n <= s.len(),
    ensures
        utf16le(s.take(n)).len() <= utf16le(s).len(),
        2 * s.len() <= utf16le(s).len(),
    decreases s.len(),
{
    if s.len() == 0 {
        assert(s.take(n) =~= s);
    } else if n == s.len() {
        assert(s.take(n) =~= s);
        lemma_utf16le_prefix(s.drop_last(), 0);
    } else {
        assert(s.drop_last().take(n) =~= s.take(n));
        lemma_utf16le_prefix(s.drop_last(), n);
    }
}

/// A string of characters below U+10000 takes two bytes for each.
pub proof fn lemma_utf16le_bmp(s: Seq<char>)
    requires
        forall|i: int| 0 <= i < s.len() ==> ((#[trigger] s[i]) as u32) < 0x1_0000,
    ensures
        utf16le(s).len() == 2 * s.len(),
    decreases s.len(),
{
    if s.len() > 0 {
        lemma_utf16le_bmp(s.drop_last());
    }
}

/// Appends the UTF-16LE bytes of `c` to `out`.
pub fn push_utf16le(out: &mut Vec<u8>, c: char)
    ensures
        final(out)@ == old(out)@ + utf16le_char(c),
{
    let cp = c as u32;
    if cp < 0x1_0000 {
        push_u16_le(out, cp as u16);
    } else {
        proof {
            vstd::utf8::char_is_scalar(c);
        }
        let v = cp - 0x1_0000;
        push_u16_le(out, (0xD800 + v / 0x400) as u16);
        push_u16_le(out, (0xDC00 + v % 0x400) as u16);
        assert(out@ =~= old(out)@ + utf16le_char(c));
    }
}

/// Encodes `name` for the name field of an entry. A name that needs
/// more than 72 bytes is refused; a shorter one is filled up with zero
/// bytes to exactly 72.
pub fn encode_name(name: &str) -> (res: Result<Vec<u8>, BobErr>)
    ensures
        name_fits(name@) ==> (res matches Ok(field) && field@ == name_field(name@)),
        !name_fits(name@) ==> res == Err::<Vec<u8>, BobErr>(BobErr::PartitionNameTooLong),
{
    let n = name.unicode_len();
    let mut out: Vec<u8> = Vec::new();
    let mut i: usize = 0;
    while i < n
        invariant
            i <= n,
            n == name@.len(),
            out@ == utf16le(name@.take(i as int)),
            out@.len() <= PARTITION_NAME_MAX_BYTES,
        decreases n - i,
    {
        let c = name.get_char(i);
        proof {
            let next = name@.take(i + 1);
            assert(next.drop_last() =~= name@.take(i as int));
            assert(next.last() == c);
        }
        push_utf16le(&mut out, c);
        i = i + 1;
        if out.len() > PARTITION_NAME_MAX_BYTES {
            proof {
                lemma_utf16le_prefix(name@, i as int);
            }
            return Err(BobErr::PartitionNameTooLong);
        }
    }
    assert(name@.take(i as int) =~= name@);
    let fill = PARTITION_NAME_MAX_BYTES - out.len();
    push_zeros(&mut out, fill);
    Ok(out)
}

} // verus!
