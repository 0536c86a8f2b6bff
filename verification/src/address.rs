use vstd::prelude::*;
use crate::json::{hex_value, lemma_hex_digit_value};
use crate::text::push_char;

verus! {

/// A 20-byte account address, as carried in user-scoped subscriptions.
#[derive(Clone, Copy, Debug, PartialEq, Eq)]
pub struct Address {
    pub bytes: [u8; 20],
}

/// The lowercase hexadecimal digit for a value below 16.
pub open spec fn hex_digit(n: int) -> char {
    if n < 10 {
        (n + 48) as char
    } else {
        (n + 87) as char
    }
}

/// Two lowercase hex digits per byte, most significant nibble first.
pub open spec fn hex_body(bytes: Seq<u8>) -> Seq<char>
    decreases bytes.len(),
{
    if bytes.len() == 0 {
        Seq::empty()
    } else {
        let last = bytes.last();
        hex_body(bytes.drop_last()).push(hex_digit((last / 16) as int)).push(hex_digit((last % 16) as int))
    }
}

/// `0x` followed by the full-width lowercase hex encoding of the bytes.
pub open spec fn address_hex(bytes: Seq<u8>) -> Seq<char> {
    seq!['0', 'x'] + hex_body(bytes)
}

pub fn hex_digit_char(n: u8) -> (c: char)
    requires
        n < 16,
    ensures
        c == hex_digit(n as int),
{
    if n < 10 {
        (n + 48) as char
    } else {
        (n + 87) as char
    }
}

impl Address {
    pub fn new(bytes: [u8; 20]) -> (a: Address)
        ensures
            a.bytes == bytes,
    {
        Address { bytes }
    }

    /// The text form of the address: `0x` and forty lowercase hex digits.
    pub fn to_hex(&self) -> (s: String)
        ensures
            s@ == address_hex(self.bytes@),
    {
        let mut out = String::new();
        push_char(&mut out, '0');
        push_char(&mut out, 'x');
        let mut i: usize = 0;
        while i < 20
            invariant
                i <= 20,
                self.bytes@.len() == 20,
                out@ == seq!['0', 'x'] + hex_body(self.bytes@.take(i as int)),
            decreases 20 - i,
        {
            let b: u8 = self.bytes[i];
            assert(self.bytes@.take(i as int + 1).drop_last() =~= self.bytes@.take(i as int));
            push_char(&mut out, hex_digit_char(b / 16));
            push_char(&mut out, hex_digit_char(b % 16));
            i = i + 1;
        }
        assert(self.bytes@.take(20) =~= self.bytes@);
        out
    }
}

/// Different hex digits stand for different values below 16.
pub proof fn lemma_hex_digit_injective(a: int, b: int)
    requires
        0 <= a < 16,
        0 <= b < 16,
        hex_digit(a) == hex_digit(b),
    ensures
        a == b,
{
    assert((hex_digit(a) as int) == if a < 10 { a + 48 } else { a + 87 });
    assert((hex_digit(b) as int) == if b < 10 { b + 48 } else { b + 87 });
}

/// Each byte gives two digits.
pub proof fn lemma_hex_body_len(bytes: Seq<u8>)
    ensures
        hex_body(bytes).len() == 2 * bytes.len(),
    decreases bytes.len(),
{
    if bytes.len() > 0 {
        lemma_hex_body_len(bytes.drop_last());
    }
}

/// Different byte strings have different hex texts.
pub proof fn lemma_address_hex_injective(a: Seq<u8>, b: Seq<u8>)
    requires
        address_hex(a) == address_hex(b),
    ensures
        a == b,
{
    assert(hex_body(a) =~= address_hex(a).subrange(2, address_hex(a).len() as int));
    assert(hex_body(b) =~= address_hex(b).subrange(2, address_hex(b).len() as int));
    lemma_hex_body_injective(a, b);
}

proof fn lemma_hex_body_injective(a: Seq<u8>, b: Seq<u8>)
    requires
        hex_body(a) == hex_body(b),
    ensures
        a == b,
    decreases a.len(),
{
    lemma_hex_body_len(a);
    lemma_hex_body_len(b);
    if a.len() > 0 {
        let h = hex_body(a);
        let n = h.len();
        let x = a.last();
        let y = b.last();
        assert(h[n - 2] == hex_digit((x / 16) as int) && h[n - 1] == hex_digit((x % 16) as int));
        assert(h[n - 2] == hex_digit((y / 16) as int) && h[n - 1] == hex_digit((y % 16) as int));
        lemma_hex_digit_injective((x / 16) as int, (y / 16) as int);
        lemma_hex_digit_injective((x % 16) as int, (y % 16) as int);
        assert(x == y);
        lemma_hex_body_len(a.drop_last());
        lemma_hex_body_len(b.drop_last());
        assert(hex_body(a.drop_last()) =~= h.subrange(0, n - 2));
        assert(hex_body(b.drop_last()) =~= h.subrange(0, n - 2));
        lemma_hex_body_injective(a.drop_last(), b.drop_last());
        assert(a =~= a.drop_last().push(x));
        assert(b =~= b.drop_last().push(y));
    } else {
        assert(a =~= b);
    }
}

/// The hex text of the bytes reads back to them: after `0x`, byte `i` is the
/// pair of lowercase digits at `2 + 2i` (high nibble) and `3 + 2i` (low
/// nibble).
pub proof fn lemma_address_hex_reads_back(bytes: Seq<u8>)
    ensures
        address_hex(bytes).len() == 2 + 2 * bytes.len(),
        address_hex(bytes)[0] == '0',
        address_hex(bytes)[1] == 'x',
        forall|i: int|
            0 <= i < bytes.len() ==> hex_value(#[trigger] address_hex(bytes)[2 + 2 * i]) == Some(
                (bytes[i] / 16) as int,
            ) && hex_value(address_hex(bytes)[3 + 2 * i]) == Some((bytes[i] % 16) as int),
{
    lemma_hex_body_len(bytes);
    lemma_hex_body_reads_back(bytes);
    assert forall|i: int| 0 <= i < bytes.len() implies hex_value(#[trigger] address_hex(bytes)[2 + 2 * i])
        == Some((bytes[i] / 16) as int) && hex_value(address_hex(bytes)[3 + 2 * i]) == Some(
        (bytes[i] % 16) as int,
    ) by {
        assert(address_hex(bytes)[2 + 2 * i] == hex_body(bytes)[2 * i]);
        assert(address_hex(bytes)[3 + 2 * i] == hex_body(bytes)[2 * i + 1]);
    }
}

proof fn lemma_hex_body_reads_back(bytes: Seq<u8>)
    ensures
        forall|i: int|
            0 <= i < bytes.len() ==> hex_value(#[trigger] hex_body(bytes)[2 * i]) == Some(
                (bytes[i] / 16) as int,
            ) && hex_value(hex_body(bytes)[2 * i + 1]) == Some((bytes[i] % 16) as int),
    decreases bytes.len(),
{
    lemma_hex_body_len(bytes);
    if bytes.len() > 0 {
        let d = bytes.drop_last();
        lemma_hex_body_reads_back(d);
        lemma_hex_body_len(d);
        let x = bytes.last();
        lemma_hex_digit_value((x / 16) as int);
        lemma_hex_digit_value((x % 16) as int);
        assert forall|i: int| 0 <= i < bytes.len() implies hex_value(#[trigger] hex_body(bytes)[2 * i])
            == Some((bytes[i] / 16) as int) && hex_value(hex_body(bytes)[2 * i + 1]) == Some(
            (bytes[i] % 16) as int,
        ) by {
            if i < d.len() {
                assert(hex_body(bytes)[2 * i] == hex_body(d)[2 * i]);
                assert(hex_body(bytes)[2 * i + 1] == hex_body(d)[2 * i + 1]);
                assert(bytes[i] == d[i]);
            }
        }
    }
}

} // verus!
