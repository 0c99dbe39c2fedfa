//! The decoder: reads values from the front of a byte buffer.
use vstd::prelude::*;
use vstd::utf8::{valid_utf8, decode_utf8};
use crate::endian::{get_uint, lemma_le_value_bound, lemma_pow256_values};
use crate::error::Error;
use crate::wire::{i8_of, i16_of, i32_of, i64_of, u16_of, u32_of, u64_of, pad_len, str_span};

verus! {

/// Decodes values one after another from an owned byte buffer.
pub struct Deserializer {
    reader: Vec<u8>,
    pos: usize,
}

/// Relies on `String::from_utf8`: it succeeds exactly on valid UTF-8, and the
/// string then holds the characters that the bytes encode.
#[verifier::external_body]
fn string_from_utf8(bytes: Vec<u8>) -> (r: Option<String>)
    ensures
        r is Some <==> valid_utf8(bytes@),
        r is Some ==> r->Some_0@ == decode_utf8(bytes@),
{
    String::from_utf8(bytes).ok()
}

impl Deserializer {
    /// The bytes not yet read.
    pub closed spec fn rest(&self) -> Seq<u8> {
        self.reader@.subrange(self.pos as int, self.reader@.len() as int)
    }

    pub closed spec fn wf(&self) -> bool {
        self.pos <= self.reader@.len()
    }

    /// A deserializer that reads `reader` from its first byte.
    pub fn new(reader: Vec<u8>) -> (r: Deserializer)
        ensures
            r.wf(),
            r.rest() == reader@,
    {
        let r = Deserializer { reader, pos: 0 };
        assert(r.rest() =~= r.reader@);
        r
    }

    /// The number of bytes not yet read.
    pub fn remaining(&self) -> (r: usize)
        requires
            self.wf(),
        ensures
            r == self.rest().len(),
    {
        self.reader.len() - self.pos
    }

    /// Takes `width` bytes as a little-endian number, or fails with
    /// `ShortRead`, reading nothing, where fewer are left.
    fn take_uint(&mut self, width: usize) -> (r: Result<u64, Error>)
        requires
            old(self).wf(),
            1 <= width <= 8,
        ensures
            final(self).wf(),
            old(self).rest().len() < width ==> r == Err::<u64, Error>(Error::ShortRead)
                && final(self).rest() == old(self).rest(),
            old(self).rest().len() >= width ==> r is Ok && r->Ok_0 as nat == crate::endian::le_value(
                old(self).rest().take(width as int),
            ) && final(self).rest() == old(self).rest().skip(width as int),
    {
        if self.reader.len() - self.pos < width {
            return Err(Error::ShortRead);
        }
        let v = get_uint(self.reader.as_slice(), self.pos, width);
        proof {
            assert(old(self).rest().take(width as int) =~= self.reader@.subrange(
                self.pos as int,
                self.pos + width,
            ));
        }
        self.pos = self.pos + width;
        assert(self.rest() =~= old(self).rest().skip(width as int));
        Ok(v)
    }

    /// Reads a little-endian `u8`; fails with `ShortRead`, reading nothing,
    /// where too few bytes are left.
    pub fn deserialize_u8(&mut self) -> (r: Result<u8, Error>)
        requires
            old(self).wf(),
        ensures
            final(self).wf(),
            old(self).rest().len() < 1 ==> r == Err::<u8, Error>(Error::ShortRead)
                && final(self).rest() == old(self).rest(),
            old(self).rest().len() >= 1 ==> r == Ok::<u8, Error>(old(self).rest()[0])
                && final(self).rest() == old(self).rest().skip(1),
    {
        if self.pos >= self.reader.len() {
            return Err(Error::ShortRead);
        }
        let b = self.reader[self.pos];
        self.pos = self.pos + 1;
        assert(self.rest() =~= old(self).rest().skip(1));
        Ok(b)
    }

    /// Reads a little-endian `i8`; fails with `ShortRead`, reading nothing,
    /// where too few bytes are left.
    pub fn deserialize_i8(&mut self) -> (r: Result<i8, Error>)
        requires
            old(self).wf(),
        ensures
            final(self).wf(),
            old(self).rest().len() < 1 ==> r == Err::<i8, Error>(Error::ShortRead)
                && final(self).rest() == old(self).rest(),
            old(self).rest().len() >= 1 ==> r == Ok::<i8, Error>(i8_of(old(self).rest().take(1)))
                && final(self).rest() == old(self).rest().skip(1),
    {
        match self.deserialize_u8() {
            Ok(b) => Ok(b as i8),
            Err(e) => Err(e),
        }
    }

    /// Reads a little-endian `u16`; fails with `ShortRead`, reading nothing,
    /// where too few bytes are left.
    pub fn deserialize_u16(&mut self) -> (r: Result<u16, Error>)
        requires
            old(self).wf(),
        ensures
            final(self).wf(),
            old(self).rest().len() < 2 ==> r == Err::<u16, Error>(Error::ShortRead)
                && final(self).rest() == old(self).rest(),
            old(self).rest().len() >= 2 ==> r == Ok::<u16, Error>(u16_of(old(self).rest().take(2)))
                && final(self).rest() == old(self).rest().skip(2),
    {
        match self.take_uint(2) {
            Ok(v) => {
                proof {
                    lemma_pow256_values();
                    lemma_le_value_bound(old(self).rest().take(2));
                }
                Ok(v as u16)
            },
            Err(e) => Err(e),
        }
    }

    /// Reads a little-endian `u32`; fails with `ShortRead`, reading nothing,
    /// where too few bytes are left.
    pub fn deserialize_u32(&mut self) -> (r: Result<u32, Error>)
        requires
            old(self).wf(),
        ensures
            final(self).wf(),
            old(self).rest().len() < 4 ==> r == Err::<u32, Error>(Error::ShortRead)
                && final(self).rest() == old(self).rest(),
            old(self).rest().len() >= 4 ==> r == Ok::<u32, Error>(u32_of(old(self).rest().take(4)))
                && final(self).rest() == old(self).rest().skip(4),
    {
        match self.take_uint(4) {
            Ok(v) => {
                proof {
                    lemma_pow256_values();
                    lemma_le_value_bound(old(self).rest().take(4));
                }
                Ok(v as u32)
            },
            Err(e) => Err(e),
        }
    }

    /// Reads a little-endian `u64`; fails with `ShortRead`, reading nothing,
    /// where too few bytes are left.
    pub fn deserialize_u64(&mut self) -> (r: Result<u64, Error>)
        requires
            old(self).wf(),
        ensures
            final(self).wf(),
            old(self).rest().len() < 8 ==> r == Err::<u64, Error>(Error::ShortRead)
                && final(self).rest() == old(self).rest(),
            old(self).rest().len() >= 8 ==> r == Ok::<u64, Error>(u64_of(old(self).rest().take(8)))
                && final(self).rest() == old(self).rest().skip(8),
    {
        self.take_uint(8)
    }

    /// Reads a little-endian `i16`; fails with `ShortRead`, reading nothing,
    /// where too few bytes are left.
    pub fn deserialize_i16(&mut self) -> (r: Result<i16, Error>)
        requires
            old(self).wf(),
        ensures
            final(self).wf(),
            old(self).rest().len() < 2 ==> r == Err::<i16, Error>(Error::ShortRead)
                && final(self).rest() == old(self).rest(),
            old(self).rest().len() >= 2 ==> r == Ok::<i16, Error>(i16_of(old(self).rest().take(2)))
                && final(self).rest() == old(self).rest().skip(2),
    {
        match self.deserialize_u16() {
            Ok(v) => Ok(v as i16),
            Err(e) => Err(e),
        }
    }

    /// Reads a little-endian `i32`; fails with `ShortRead`, reading nothing,
    /// where too few bytes are left.
    pub fn deserialize_i32(&mut self) -> (r: Result<i32, Error>)
        requires
            old(self).wf(),
        ensures
            final(self).wf(),
            old(self).rest().len() < 4 ==> r == Err::<i32, Error>(Error::ShortRead)
                && final(self).rest() == old(self).rest(),
            old(self).rest().len() >= 4 ==> r == Ok::<i32, Error>(i32_of(old(self).rest().take(4)))
                && final(self).rest() == old(self).rest().skip(4),
    {
        match self.deserialize_u32() {
            Ok(v) => Ok(v as i32),
            Err(e) => Err(e),
        }
    }

    /// Reads a little-endian `i64`; fails with `ShortRead`, reading nothing,
    /// where too few bytes are left.
    pub fn deserialize_i64(&mut self) -> (r: Result<i64, Error>)
        requires
            old(self).wf(),
        ensures
            final(self).wf(),
            old(self).rest().len() < 8 ==> r == Err::<i64, Error>(Error::ShortRead)
                && final(self).rest() == old(self).rest(),
            old(self).rest().len() >= 8 ==> r == Ok::<i64, Error>(i64_of(old(self).rest().take(8)))
                && final(self).rest() == old(self).rest().skip(8),
    {
        match self.deserialize_u64() {
            Ok(v) => Ok(v as i64),
            Err(e) => Err(e),
        }
    }

    /// Reads a string frame: a length byte, or the byte 254 and three bytes
    /// of length, then the bytes, then padding up to a multiple of four from
    /// the start of the header. Fails with `ShortRead` where the frame runs
    /// past the end, and with `InvalidUtf8` where its bytes are not UTF-8;
    /// on failure nothing is read.
    pub fn deserialize_str(&mut self) -> (r: Result<String, Error>)
        requires
            old(self).wf(),
        ensures
            final(self).wf(),
            str_span(old(self).rest()) is None ==> r == Err::<String, Error>(Error::ShortRead)
                && final(self).rest() == old(self).rest(),
            str_span(old(self).rest()) is Some ==> {
                let (b, n) = str_span(old(self).rest())->Some_0;
                &&& valid_utf8(b) ==> r is Ok && r->Ok_0@ == decode_utf8(b) && final(self).rest()
                    == old(self).rest().skip(n as int)
                &&& !valid_utf8(b) ==> r == Err::<String, Error>(Error::InvalidUtf8)
                    && final(self).rest() == old(self).rest()
            },
    {
        let ghost rest = self.rest();
        let n = self.reader.len() - self.pos;
        if n < 1 {
            return Err(Error::ShortRead);
        }
        let first = self.reader[self.pos];
        assert(rest[0] == first);
        let header: usize;
        let len: usize;
        if first == 254 {
            if n < 4 {
                return Err(Error::ShortRead);
            }
            let l = get_uint(self.reader.as_slice(), self.pos + 1, 3);
            proof {
                assert(rest.subrange(1, 4) =~= self.reader@.subrange(self.pos + 1, self.pos + 4));
                lemma_pow256_values();
                lemma_le_value_bound(rest.subrange(1, 4));
            }
            header = 4;
            len = l as usize;
        } else {
            header = 1;
            len = first as usize;
        }
        let total: usize = header + len + (4 - (header + len) % 4) % 4;
        assert(total == header + len + pad_len((header + len) as nat));
        if n < total {
            return Err(Error::ShortRead);
        }
        let start = self.pos + header;
        let end: usize = self.reader.len();
        let mut bytes: Vec<u8> = Vec::new();
        let mut i: usize = 0;
        while i < len
            invariant
                self.pos + total <= self.reader@.len(),
                end == self.reader@.len(),
                start == self.pos + header,
                header + len <= total,
                i <= len,
                bytes@ == self.reader@.subrange(start as int, start + i),
            decreases len - i,
        {
            bytes.push(self.reader[start + i]);
            i = i + 1;
            assert(bytes@ =~= self.reader@.subrange(start as int, start + i));
        }
        assert(bytes@ =~= rest.subrange(header as int, header + len));
        match string_from_utf8(bytes) {
            Some(s) => {
                self.pos = self.pos + total;
                assert(self.rest() =~= rest.skip(total as int));
                Ok(s)
            },
            None => Err(Error::InvalidUtf8),
        }
    }

    /// Reads the element count of a sequence; its elements follow.
    pub fn deserialize_seq(&mut self) -> (r: Result<u32, Error>)
        requires
            old(self).wf(),
        ensures
            final(self).wf(),
            old(self).rest().len() < 4 ==> r == Err::<u32, Error>(Error::ShortRead)
                && final(self).rest() == old(self).rest(),
            old(self).rest().len() >= 4 ==> r == Ok::<u32, Error>(u32_of(old(self).rest().take(4)))
                && final(self).rest() == old(self).rest().skip(4),
    {
        self.deserialize_u32()
    }

    /// Reads the identifier that begins a tagged union and returns the
    /// position of the first variant in `ids` that carries it. Fails with
    /// `ShortRead` where fewer than four bytes are left, and with
    /// `UnknownDiscriminator` where no variant carries it; on failure
    /// nothing is read.
    pub fn deserialize_variant(&mut self, ids: &[u32]) -> (r: Result<usize, Error>)
        requires
            old(self).wf(),
        ensures
            final(self).wf(),
            old(self).rest().len() < 4 ==> r == Err::<usize, Error>(Error::ShortRead)
                && final(self).rest() == old(self).rest(),
            old(self).rest().len() >= 4 ==> {
                let id = u32_of(old(self).rest().take(4));
                &&& (forall|j: int| 0 <= j < ids@.len() ==> ids@[j] != id) ==> r == Err::<
                    usize,
                    Error,
                >(Error::UnknownDiscriminator(id)) && final(self).rest() == old(self).rest()
                &&& (exists|j: int| 0 <= j < ids@.len() && ids@[j] == id) ==> r is Ok && r->Ok_0
                    < ids@.len() && ids@[r->Ok_0 as int] == id && (forall|j: int|
                    0 <= j < r->Ok_0 ==> ids@[j] != id) && final(self).rest() == old(
                    self,
                ).rest().skip(4)
            },
    {
        if self.reader.len() - self.pos < 4 {
            return Err(Error::ShortRead);
        }
        let v = get_uint(self.reader.as_slice(), self.pos, 4);
        proof {
            assert(self.rest().take(4) =~= self.reader@.subrange(self.pos as int, self.pos + 4));
            lemma_pow256_values();
            lemma_le_value_bound(self.rest().take(4));
        }
        let id = v as u32;
        assert(id == u32_of(old(self).rest().take(4)));
        let next = self.pos + 4;
        let mut i: usize = 0;
        while i < ids.len()
            invariant
                i <= ids@.len(),
                forall|j: int| 0 <= j < i ==> ids@[j] != id,
                self.pos == old(self).pos,
                self.reader@ == old(self).reader@,
                next == self.pos + 4,
                id == u32_of(old(self).rest().take(4)),
                next <= self.reader@.len(),
            decreases ids@.len() - i,
        {
            if ids[i] == id {
                assert(ids@[i as int] == id);
                self.pos = next;
                assert(self.rest() =~= old(self).rest().skip(4));
                return Ok(i);
            }
            i = i + 1;
        }
        Err(Error::UnknownDiscriminator(id))
    }

    /// This format has no representation for it: always fails with
    /// `Unsupported`, reading nothing.
    pub fn deserialize_bool(&mut self) -> (r: Result<bool, Error>)
        ensures
            r == Err::<bool, Error>(Error::Unsupported),
            *final(self) == *old(self),
    {
        Err(Error::Unsupported)
    }

    /// This format has no representation for it: always fails with
    /// `Unsupported`, reading nothing.
    pub fn deserialize_char(&mut self) -> (r: Result<char, Error>)
        ensures
            r == Err::<char, Error>(Error::Unsupported),
            *final(self) == *old(self),
    {
        Err(Error::Unsupported)
    }

    /// This format has no representation for it: always fails with
    /// `Unsupported`, reading nothing.
    pub fn deserialize_bytes(&mut self) -> (r: Result<Vec<u8>, Error>)
        ensures
            r == Err::<Vec<u8>, Error>(Error::Unsupported),
            *final(self) == *old(self),
    {
        Err(Error::Unsupported)
    }

    /// This format has no representation for it: always fails with
    /// `Unsupported`, reading nothing.
    pub fn deserialize_option(&mut self) -> (r: Result<(), Error>)
        ensures
            r == Err::<(), Error>(Error::Unsupported),
            *final(self) == *old(self),
    {
        Err(Error::Unsupported)
    }

    /// This format has no representation for it: always fails with
    /// `Unsupported`, reading nothing.
    pub fn deserialize_unit(&mut self) -> (r: Result<(), Error>)
        ensures
            r == Err::<(), Error>(Error::Unsupported),
            *final(self) == *old(self),
    {
        Err(Error::Unsupported)
    }

    /// This format has no representation for it: always fails with
    /// `Unsupported`, reading nothing.
    pub fn deserialize_map(&mut self) -> (r: Result<(), Error>)
        ensures
            r == Err::<(), Error>(Error::Unsupported),
            *final(self) == *old(self),
    {
        Err(Error::Unsupported)
    }
}

} // verus!
