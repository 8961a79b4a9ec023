//! The TL binary encoding: every value is written as a whole number of
//! little-endian 32-bit words.
use vstd::prelude::*;
use vstd::string::*;
use vstd::utf8::encode_utf8;
use byteorder::{LittleEndian, WriteBytesExt};
use crate::error::Error;

verus! {

/// The `n` bytes of `v`, least significant first (`v` taken modulo `256^n`).
pub open spec fn le_bytes(v: nat, n: nat) -> Seq<u8>
    decreases n,
{
    if n == 0 {
        Seq::empty()
    } else {
        seq![(v % 256) as u8] + le_bytes(v / 256, (n - 1) as nat)
    }
}

pub proof fn lemma_le_bytes_len(v: nat, n: nat)
    ensures
        le_bytes(v, n).len() == n,
    decreases n,
{
    if n > 0 {
        lemma_le_bytes_len(v / 256, (n - 1) as nat);
    }
}

/// A value that has a TL encoding.
pub trait Serialize {
    /// The TL encoding of the value, when it has one.
    spec fn tl_bytes(&self) -> Seq<u8>;

    /// Whether the value has a TL encoding (a string or vector may be too
    /// long for its length prefix).
    spec fn encodable(&self) -> bool;

    /// A TL encoding is a whole number of 32-bit words.
    proof fn lemma_word_aligned(&self)
        requires
            self.encodable(),
        ensures
            self.tl_bytes().len() % 4 == 0,
    ;

    /// Appends the TL encoding of the value to `buffer`; fails with
    /// `Error::TooLong`, having written a prefix at most, when the value has
    /// none (a length does not fit its prefix).
    fn serialize_to(&self, buffer: &mut Vec<u8>) -> (r: Result<(), Error>)
        ensures
            r is Ok <==> self.encodable(),
            r is Err ==> r == Err::<(), Error>(Error::TooLong),
            r is Ok ==> final(buffer)@ == old(buffer)@ + self.tl_bytes(),
            old(buffer)@.is_prefix_of(final(buffer)@),
    ;
}

/// Appends `n` to `buffer`, least significant byte first.
/// Trusted: byteorder's `WriteBytesExt::write_u32::<LittleEndian>` writes
/// `n.to_le_bytes()` with `write_all`, which on a `Vec<u8>` appends them and
/// cannot fail.
#[verifier::external_body]
fn put_u32(buffer: &mut Vec<u8>, n: u32)
    ensures
        final(buffer)@ == old(buffer)@ + le_bytes(n as nat, 4),
{
    let _ = buffer.write_u32::<LittleEndian>(n);
}

/// Appends `n` to `buffer`, least significant byte first.
/// Trusted: byteorder's `WriteBytesExt::write_u64::<LittleEndian>` writes
/// `n.to_le_bytes()` with `write_all`, which on a `Vec<u8>` appends them and
/// cannot fail.
#[verifier::external_body]
fn put_u64(buffer: &mut Vec<u8>, n: u64)
    ensures
        final(buffer)@ == old(buffer)@ + le_bytes(n as nat, 8),
{
    let _ = buffer.write_u64::<LittleEndian>(n);
}

/// Appends `n` to `buffer` in two's complement, least significant byte first.
/// Trusted: byteorder's `WriteBytesExt::write_i32::<LittleEndian>` writes
/// `n.to_le_bytes()` with `write_all`, which on a `Vec<u8>` appends them and
/// cannot fail.
#[verifier::external_body]
fn put_i32(buffer: &mut Vec<u8>, n: i32)
    ensures
        final(buffer)@ == old(buffer)@ + le_bytes((n as u32) as nat, 4),
{
    let _ = buffer.write_i32::<LittleEndian>(n);
}

/// Appends `n` to `buffer` in two's complement, least significant byte first.
/// Trusted: byteorder's `WriteBytesExt::write_i64::<LittleEndian>` writes
/// `n.to_le_bytes()` with `write_all`, which on a `Vec<u8>` appends them and
/// cannot fail.
#[verifier::external_body]
fn put_i64(buffer: &mut Vec<u8>, n: i64)
    ensures
        final(buffer)@ == old(buffer)@ + le_bytes((n as u64) as nat, 8),
{
    let _ = buffer.write_i64::<LittleEndian>(n);
}

/// Appends `n` to `buffer` in two's complement, least significant byte first.
/// Trusted: byteorder's `WriteBytesExt::write_i128::<LittleEndian>` writes
/// `n.to_le_bytes()` with `write_all`, which on a `Vec<u8>` appends them and
/// cannot fail.
#[verifier::external_body]
fn put_i128(buffer: &mut Vec<u8>, n: i128)
    ensures
        final(buffer)@ == old(buffer)@ + le_bytes((n as u128) as nat, 16),
{
    let _ = buffer.write_i128::<LittleEndian>(n);
}

/// Appends the low three bytes of `n` to `buffer`, least significant first.
/// Trusted: byteorder's `WriteBytesExt::write_uint::<LittleEndian>(n, 3)`
/// writes the first three bytes of `n.to_le()` with `write_all`, which on a
/// `Vec<u8>` appends them and cannot fail; it panics unless `n` fits in three
/// bytes, which `requires` rules out.
#[verifier::external_body]
fn put_u24(buffer: &mut Vec<u8>, n: u64)
    requires
        n < 0x100_0000,
    ensures
        final(buffer)@ == old(buffer)@ + le_bytes(n as nat, 3),
{
    let _ = buffer.write_uint::<LittleEndian>(n, 3);
}

proof fn lemma_append_prefix(a: Seq<u8>, b: Seq<u8>)
    ensures
        a.is_prefix_of(a + b),
{
    assert(a =~= (a + b).subrange(0, a.len() as int));
}

impl Serialize for u32 {
    open spec fn tl_bytes(&self) -> Seq<u8> {
        le_bytes(*self as nat, 4)
    }

    open spec fn encodable(&self) -> bool {
        true
    }

    proof fn lemma_word_aligned(&self) {
        lemma_le_bytes_len(*self as nat, 4);
    }

    fn serialize_to(&self, buffer: &mut Vec<u8>) -> (r: Result<(), Error>) {
        put_u32(buffer, *self);
        proof {
            lemma_append_prefix(old(buffer)@, self.tl_bytes());
        }
        Ok(())
    }
}

impl Serialize for u64 {
    open spec fn tl_bytes(&self) -> Seq<u8> {
        le_bytes(*self as nat, 8)
    }

    open spec fn encodable(&self) -> bool {
        true
    }

    proof fn lemma_word_aligned(&self) {
        lemma_le_bytes_len(*self as nat, 8);
    }

    fn serialize_to(&self, buffer: &mut Vec<u8>) -> (r: Result<(), Error>) {
        put_u64(buffer, *self);
        proof {
            lemma_append_prefix(old(buffer)@, self.tl_bytes());
        }
        Ok(())
    }
}

impl Serialize for i32 {
    open spec fn tl_bytes(&self) -> Seq<u8> {
        le_bytes((*self as u32) as nat, 4)
    }

    open spec fn encodable(&self) -> bool {
        true
    }

    proof fn lemma_word_aligned(&self) {
        lemma_le_bytes_len((*self as u32) as nat, 4);
    }

    fn serialize_to(&self, buffer: &mut Vec<u8>) -> (r: Result<(), Error>) {
        put_i32(buffer, *self);
        proof {
            lemma_append_prefix(old(buffer)@, self.tl_bytes());
        }
        Ok(())
    }
}

impl Serialize for i64 {
    open spec fn tl_bytes(&self) -> Seq<u8> {
        le_bytes((*self as u64) as nat, 8)
    }

    open spec fn encodable(&self) -> bool {
        true
    }

    proof fn lemma_word_aligned(&self) {
        lemma_le_bytes_len((*self as u64) as nat, 8);
    }

    fn serialize_to(&self, buffer: &mut Vec<u8>) -> (r: Result<(), Error>) {
        put_i64(buffer, *self);
        proof {
            lemma_append_prefix(old(buffer)@, self.tl_bytes());
        }
        Ok(())
    }
}

impl Serialize for i128 {
    open spec fn tl_bytes(&self) -> Seq<u8> {
        le_bytes((*self as u128) as nat, 16)
    }

    open spec fn encodable(&self) -> bool {
        true
    }

    proof fn lemma_word_aligned(&self) {
        lemma_le_bytes_len((*self as u128) as nat, 16);
    }

    fn serialize_to(&self, buffer: &mut Vec<u8>) -> (r: Result<(), Error>) {
        put_i128(buffer, *self);
        proof {
            lemma_append_prefix(old(buffer)@, self.tl_bytes());
        }
        Ok(())
    }
}

/// The TL constructor id of `boolTrue`.
pub const BOOL_TRUE: u32 = 0x997275b5;

/// The TL constructor id of `boolFalse`.
pub const BOOL_FALSE: u32 = 0xbc799737;

/// The TL constructor id of `vector`.
pub const VECTOR: u32 = 0x1cb5c415;

impl Serialize for bool {
    open spec fn tl_bytes(&self) -> Seq<u8> {
        le_bytes(
            if *self {
                BOOL_TRUE
            } else {
                BOOL_FALSE
            } as nat,
            4,
        )
    }

    open spec fn encodable(&self) -> bool {
        true
    }

    proof fn lemma_word_aligned(&self) {
        lemma_le_bytes_len(BOOL_TRUE as nat, 4);
        lemma_le_bytes_len(BOOL_FALSE as nat, 4);
    }

    fn serialize_to(&self, buffer: &mut Vec<u8>) -> (r: Result<(), Error>) {
        let id = if *self {
            BOOL_TRUE
        } else {
            BOOL_FALSE
        };
        put_u32(buffer, id);
        proof {
            lemma_append_prefix(old(buffer)@, self.tl_bytes());
        }
        Ok(())
    }
}

/// `n` zero bytes.
pub open spec fn zeros(n: nat) -> Seq<u8> {
    Seq::new(n, |i: int| 0u8)
}

/// The head of a TL string or byte array of `len` bytes: one byte holding
/// `len` up to 253, else the byte 254 and `len` in three bytes.
pub open spec fn tl_length_head(len: nat) -> Seq<u8> {
    if len <= 253 {
        seq![len as u8]
    } else {
        seq![254u8] + le_bytes(len, 3)
    }
}

/// The TL form of the byte array `b`: its length head, its bytes, then zero
/// bytes up to the next multiple of four.
pub open spec fn tl_byte_string(b: Seq<u8>) -> Seq<u8> {
    let body = tl_length_head(b.len()) + b;
    body + zeros(((4 - body.len() % 4) % 4) as nat)
}

/// The longest byte array that has a TL form: its length must fit in three bytes.
pub open spec fn fits_tl_length(len: nat) -> bool {
    len < 0x100_0000
}

impl Serialize for String {
    open spec fn tl_bytes(&self) -> Seq<u8> {
        tl_byte_string(encode_utf8(self@))
    }

    open spec fn encodable(&self) -> bool {
        fits_tl_length(encode_utf8(self@).len())
    }

    proof fn lemma_word_aligned(&self) {
        let b = encode_utf8(self@);
        lemma_le_bytes_len(b.len(), 3);
    }

    fn serialize_to(&self, buffer: &mut Vec<u8>) -> (r: Result<(), Error>) {
        let bytes = self.as_str().as_bytes();
        let len = bytes.len();
        if len >= 0x100_0000 {
            proof {
                assert(old(buffer)@ =~= buffer@.subrange(0, old(buffer)@.len() as int));
            }
            return Err(Error::TooLong);
        }
        let ghost b = bytes@;
        let ghost start = buffer@;
        if len <= 253 {
            buffer.push(len as u8);
        } else {
            buffer.push(254u8);
            put_u24(buffer, len as u64);
        }
        let mut i: usize = 0;
        while i < len
            invariant
                len == b.len(),
                bytes@ == b,
                i <= len,
                buffer@ == start + tl_length_head(b.len()) + b.take(i as int),
            decreases len - i,
        {
            buffer.push(bytes[i]);
            assert(b.take(i + 1) == b.take(i as int).push(b[i as int]));
            i = i + 1;
        }
        assert(b.take(len as int) == b);
        let head_len: usize = if len <= 253 {
            1
        } else {
            4
        };
        proof {
            lemma_le_bytes_len(b.len(), 3);
        }
        let body_len = head_len + len;
        let pad = (4 - body_len % 4) % 4;
        let ghost before_pad = buffer@;
        let mut k: usize = 0;
        while k < pad
            invariant
                k <= pad,
                buffer@ == before_pad + zeros(k as nat),
            decreases pad - k,
        {
            buffer.push(0u8);
            assert(zeros((k + 1) as nat) =~= zeros(k as nat).push(0u8));
            k = k + 1;
        }
        proof {
            assert(buffer@ =~= start + self.tl_bytes());
            lemma_append_prefix(start, self.tl_bytes());
        }
        Ok(())
    }
}


/// The TL forms of the elements of `s`, one after the other.
pub open spec fn elements_bytes<T: Serialize>(s: Seq<T>) -> Seq<u8>
    decreases s.len(),
{
    if s.len() == 0 {
        Seq::empty()
    } else {
        elements_bytes(s.drop_last()) + s.last().tl_bytes()
    }
}

/// Whether every element of `s` has a TL form.
pub open spec fn all_encodable<T: Serialize>(s: Seq<T>) -> bool {
    forall|i: int| 0 <= i < s.len() ==> (#[trigger] s[i]).encodable()
}

proof fn lemma_elements_aligned<T: Serialize>(s: Seq<T>)
    requires
        all_encodable(s),
    ensures
        elements_bytes(s).len() % 4 == 0,
    decreases s.len(),
{
    if s.len() > 0 {
        assert(s.last() == s[s.len() - 1]);
        s.last().lemma_word_aligned();
        lemma_elements_aligned(s.drop_last());
    }
}

proof fn lemma_prefix_trans(a: Seq<u8>, b: Seq<u8>, c: Seq<u8>)
    requires
        a.is_prefix_of(b),
        b.is_prefix_of(c),
    ensures
        a.is_prefix_of(c),
{
    assert forall|i: int| 0 <= i < a.len() implies a[i] == c[i] by {
        assert(a[i] == b.subrange(0, a.len() as int)[i]);
        assert(b[i] == c.subrange(0, b.len() as int)[i]);
    }
    assert(a =~= c.subrange(0, a.len() as int));
}

/// A TL vector: the id of `vector`, the number of elements, then the elements.
impl<T: Serialize> Serialize for Vec<T> {
    open spec fn tl_bytes(&self) -> Seq<u8> {
        le_bytes(VECTOR as nat, 4) + le_bytes(self@.len(), 4) + elements_bytes(self@)
    }

    open spec fn encodable(&self) -> bool {
        self@.len() <= 0x7fff_ffff && all_encodable(self@)
    }

    proof fn lemma_word_aligned(&self) {
        lemma_le_bytes_len(VECTOR as nat, 4);
        lemma_le_bytes_len(self@.len(), 4);
        lemma_elements_aligned(self@);
    }

    fn serialize_to(&self, buffer: &mut Vec<u8>) -> (r: Result<(), Error>) {
        let ghost start = buffer@;
        if self.len() > 0x7fff_ffff {
            proof {
                assert(start =~= buffer@.subrange(0, start.len() as int));
            }
            return Err(Error::TooLong);
        }
        put_u32(buffer, VECTOR);
        put_u32(buffer, self.len() as u32);
        let ghost head = buffer@;
        proof {
            lemma_append_prefix(start, head.subrange(start.len() as int, head.len() as int));
            assert(start + head.subrange(start.len() as int, head.len() as int) =~= head);
        }
        let mut i: usize = 0;
        while i < self.len()
            invariant
                i <= self@.len(),
                self@.len() <= 0x7fff_ffff,
                start == old(buffer)@,
                start.is_prefix_of(head),
                head == start + le_bytes(VECTOR as nat, 4) + le_bytes(self@.len(), 4),
                all_encodable(self@.take(i as int)),
                buffer@ == head + elements_bytes(self@.take(i as int)),
            decreases self@.len() - i,
        {
            let ghost before = buffer@;
            let e = &self[i];
            assert(self@.take(i + 1).drop_last() =~= self@.take(i as int));
            assert(self@.take(i + 1).last() == self@[i as int]);
            match e.serialize_to(buffer) {
                Ok(()) => {},
                Err(err) => {
                    proof {
                        assert(!self@[i as int].encodable());
                        lemma_append_prefix(head, elements_bytes(self@.take(i as int)));
                        lemma_prefix_trans(start, head, before);
                        lemma_prefix_trans(start, before, buffer@);
                    }
                    return Err(err);
                },
            }
            assert(buffer@ =~= head + elements_bytes(self@.take(i + 1)));
            assert forall|j: int| 0 <= j < i + 1 implies (#[trigger] self@.take(i + 1)[j]).encodable() by {
                if j < i {
                    assert(self@.take(i + 1)[j] == self@.take(i as int)[j]);
                }
            }
            i = i + 1;
        }
        assert(self@.take(self@.len() as int) =~= self@);
        proof {
            assert(buffer@ =~= start + self.tl_bytes());
            lemma_append_prefix(start, self.tl_bytes());
        }
        Ok(())
    }
}


/// The TL form of a byte array gives it back by position: up to 253 bytes,
/// the first byte is the length and the bytes follow it; longer arrays start
/// with 254 and the length in three bytes, and the bytes follow those four.
/// Only zero bytes come after, fewer than four, up to a multiple of four.
pub proof fn law_byte_string_layout(b: Seq<u8>)
    requires
        fits_tl_length(b.len()),
    ensures
        ({
            let s = tl_byte_string(b);
            let h: int = if b.len() <= 253 {
                1
            } else {
                4
            };
            &&& b.len() <= 253 ==> s[0] == b.len()
            &&& b.len() > 253 ==> s[0] == 254 && s.subrange(1, 4) == le_bytes(b.len(), 3)
            &&& s.subrange(h, h + b.len()) == b
            &&& h + b.len() <= s.len() < h + b.len() + 4
            &&& forall|i: int| h + b.len() <= i < s.len() ==> s[i] == 0
            &&& s.len() % 4 == 0
        }),
{
    lemma_le_bytes_len(b.len(), 3);
    let s = tl_byte_string(b);
    let h: int = if b.len() <= 253 {
        1
    } else {
        4
    };
    assert(s.subrange(h, h + b.len()) =~= b);
    if b.len() > 253 {
        assert(s.subrange(1, 4) =~= le_bytes(b.len(), 3));
    }
}

} // verus!
