//! The encoder: writes values to a growing byte buffer.
use vstd::prelude::*;
use vstd::string::StringSliceAdditionalSpecFns;
use crate::endian::{put_uint, lemma_pow256_values};
use crate::error::Error;
use crate::wire::{i8_bytes, i16_bytes, i32_bytes, i64_bytes, u16_bytes, u32_bytes, u64_bytes, max_str_len, str_frame, zeros};

verus! {

/// Encodes values one after another into an owned byte buffer.
pub struct Serializer {
    writer: Vec<u8>,
}

impl View for Serializer {
    type V = Seq<u8>;

    /// The bytes written so far.
    closed spec fn view(&self) -> Seq<u8> {
        self.writer@
    }
}

impl Serializer {
    /// A serializer that appends to `writer`.
    pub fn new(writer: Vec<u8>) -> (r: Serializer)
        ensures
            r@ == writer@,
    {
        Serializer { writer }
    }

    /// Gives back the buffer with the bytes written so far.
    pub fn into_inner(self) -> (r: Vec<u8>)
        ensures
            r@ == self@,
    {
        self.writer
    }

    /// A view of the bytes written so far.
    pub fn as_bytes(&self) -> (r: &[u8])
        ensures
            r@ == self@,
    {
        self.writer.as_slice()
    }

    /// Writes `value` in one byte, least significant byte first.
    pub fn serialize_u8(&mut self, value: u8) -> (r: Result<(), Error>)
        ensures
            r is Ok,
            final(self)@ == old(self)@.push(value),
    {
        self.writer.push(value);
        Ok(())
    }

    /// Writes `value` in one byte, least significant byte first.
    pub fn serialize_i8(&mut self, value: i8) -> (r: Result<(), Error>)
        ensures
            r is Ok,
            final(self)@ == old(self)@ + i8_bytes(value),
    {
        self.writer.push(value as u8);
        assert(self.writer@ =~= old(self)@ + i8_bytes(value));
        Ok(())
    }

    /// Writes `value` in two bytes, least significant byte first.
    pub fn serialize_u16(&mut self, value: u16) -> (r: Result<(), Error>)
        ensures
            r is Ok,
            final(self)@ == old(self)@ + u16_bytes(value),
    {
        proof { lemma_pow256_values(); }
        put_uint(&mut self.writer, value as u64, 2);
        Ok(())
    }

    /// Writes `value` in four bytes, least significant byte first.
    pub fn serialize_u32(&mut self, value: u32) -> (r: Result<(), Error>)
        ensures
            r is Ok,
            final(self)@ == old(self)@ + u32_bytes(value),
    {
        proof { lemma_pow256_values(); }
        put_uint(&mut self.writer, value as u64, 4);
        Ok(())
    }

    /// Writes `value` in eight bytes, least significant byte first.
    pub fn serialize_u64(&mut self, value: u64) -> (r: Result<(), Error>)
        ensures
            r is Ok,
            final(self)@ == old(self)@ + u64_bytes(value),
    {
        proof { lemma_pow256_values(); }
        put_uint(&mut self.writer, value, 8);
        Ok(())
    }

    /// Writes `value` in two bytes, least significant byte first.
    pub fn serialize_i16(&mut self, value: i16) -> (r: Result<(), Error>)
        ensures
            r is Ok,
            final(self)@ == old(self)@ + i16_bytes(value),
    {
        self.serialize_u16(value as u16)
    }

    /// Writes `value` in four bytes, least significant byte first.
    pub fn serialize_i32(&mut self, value: i32) -> (r: Result<(), Error>)
        ensures
            r is Ok,
            final(self)@ == old(self)@ + i32_bytes(value),
    {
        self.serialize_u32(value as u32)
    }

    /// Writes `value` in eight bytes, least significant byte first.
    pub fn serialize_i64(&mut self, value: i64) -> (r: Result<(), Error>)
        ensures
            r is Ok,
            final(self)@ == old(self)@ + i64_bytes(value),
    {
        self.serialize_u64(value as u64)
    }

    /// Writes the frame of `value`'s UTF-8 bytes; fails with `TooLong`,
    /// writing nothing, where the length does not fit in three bytes.
    pub fn serialize_str(&mut self, value: &str) -> (r: Result<(), Error>)
        ensures
            value.spec_bytes().len() <= max_str_len() ==> r is Ok && final(self)@ == old(self)@
                + str_frame(value.spec_bytes()),
            value.spec_bytes().len() > max_str_len() ==> r == Err::<(), Error>(Error::TooLong)
                && final(self)@ == old(self)@,
    {
        let bytes = value.as_bytes();
        let len = bytes.len();
        if len > 0xff_ffff {
            return Err(Error::TooLong);
        }
        let ghost start = self.writer@;
        let header: usize;
        if len <= 253 {
            self.writer.push(len as u8);
            header = 1;
        } else {
            self.writer.push(254u8);
            proof { lemma_pow256_values(); }
            put_uint(&mut self.writer, len as u64, 3);
            header = 4;
        }
        let ghost head = self.writer@;
        let mut i: usize = 0;
        while i < len
            invariant
                len == bytes@.len(),
                self.writer@ == head + bytes@.subrange(0, i as int),
                i <= len,
            decreases len - i,
        {
            self.writer.push(bytes[i]);
            i = i + 1;
            assert(self.writer@ =~= head + bytes@.subrange(0, i as int));
        }
        let pad: usize = (4 - (header + len) % 4) % 4;
        let ghost body = self.writer@;
        let mut k: usize = 0;
        while k < pad
            invariant
                self.writer@ == body + zeros(k as nat),
                k <= pad,
            decreases pad - k,
        {
            self.writer.push(0u8);
            k = k + 1;
            assert(self.writer@ =~= body + zeros(k as nat));
        }
        assert(bytes@.subrange(0, len as int) =~= bytes@);
        assert(self.writer@ =~= start + str_frame(bytes@));
        Ok(())
    }

    /// Writes the element count of a sequence; its elements follow, each
    /// encoded in turn. Fails with `TooLong` where the count exceeds 32 bits.
    pub fn serialize_seq(&mut self, len: usize) -> (r: Result<(), Error>)
        ensures
            len <= u32::MAX ==> r is Ok && final(self)@ == old(self)@ + u32_bytes(len as u32),
            len > u32::MAX ==> r == Err::<(), Error>(Error::TooLong) && final(self)@ == old(
                self,
            )@,
    {
        if len > 0xffff_ffff {
            return Err(Error::TooLong);
        }
        self.serialize_u32(len as u32)
    }

    /// Writes the identifier of a tagged union's variant; its fields follow.
    pub fn serialize_variant(&mut self, id: u32) -> (r: Result<(), Error>)
        ensures
            r is Ok,
            final(self)@ == old(self)@ + u32_bytes(id),
    {
        self.serialize_u32(id)
    }

    /// This format has no representation for it: always fails with
    /// `Unsupported`, writing nothing.
    pub fn serialize_bool(&mut self, value: bool) -> (r: Result<(), Error>)
        ensures
            r == Err::<(), Error>(Error::Unsupported),
            final(self)@ == old(self)@,
    {
        Err(Error::Unsupported)
    }

    /// This format has no representation for it: always fails with
    /// `Unsupported`, writing nothing.
    pub fn serialize_char(&mut self, value: char) -> (r: Result<(), Error>)
        ensures
            r == Err::<(), Error>(Error::Unsupported),
            final(self)@ == old(self)@,
    {
        Err(Error::Unsupported)
    }

    /// This format has no representation for it: always fails with
    /// `Unsupported`, writing nothing.
    pub fn serialize_bytes(&mut self, value: &[u8]) -> (r: Result<(), Error>)
        ensures
            r == Err::<(), Error>(Error::Unsupported),
            final(self)@ == old(self)@,
    {
        Err(Error::Unsupported)
    }

    /// This format has no representation for it: always fails with
    /// `Unsupported`, writing nothing.
    pub fn serialize_none(&mut self) -> (r: Result<(), Error>)
        ensures
            r == Err::<(), Error>(Error::Unsupported),
            final(self)@ == old(self)@,
    {
        Err(Error::Unsupported)
    }

    /// This format has no representation for it: always fails with
    /// `Unsupported`, writing nothing.
    pub fn serialize_unit(&mut self) -> (r: Result<(), Error>)
        ensures
            r == Err::<(), Error>(Error::Unsupported),
            final(self)@ == old(self)@,
    {
        Err(Error::Unsupported)
    }

    /// This format has no representation for it: always fails with
    /// `Unsupported`, writing nothing.
    pub fn serialize_map(&mut self, len: usize) -> (r: Result<(), Error>)
        ensures
            r == Err::<(), Error>(Error::Unsupported),
            final(self)@ == old(self)@,
    {
        Err(Error::Unsupported)
    }
}

} // verus!
