//! Decoder for the MAIF raster image container: a fixed-layout binary
//! stream holding a one-byte width, a one-byte height, a 24-byte
//! timestamp, and one byte per pixel from there to the end of the
//! stream. Decoding is a single forward pass; a truncated stream is not
//! an error and yields default values for the fields that never arrived.

use vstd::prelude::*;

verus! {

/// Number of bytes in a complete MAIF header: width, height, timestamp.
pub const HEADER_LEN: usize = 26;

/// Number of raw bytes in the timestamp field.
pub const TIMESTAMP_LEN: usize = 24;

/// Fixed-size prefix of a MAIF stream: dimensions and a timestamp.
#[derive(Debug)]
pub struct MAIFHeader {
    pub width: u8,
    pub height: u8,
    /// The 24 timestamp bytes, each interpreted as the character with
    /// its code point; empty while the stream ends before byte 26.
    pub datetime: Vec<char>,
}

/// One decoded pixel: the most significant bit of its encoding byte is
/// the sign, the low seven bits are the intensity numerator. The
/// intensity itself is `alpha_numerator` divided by 128, a value this
/// crate leaves in integer form.
#[derive(Clone, Copy, PartialEq, Eq, Structural, Debug)]
pub struct MAIFPixel {
    pub tone_sign: bool,
    pub alpha_numerator: u8,
}

/// The decode result: a header and the pixels in stream order.
#[derive(Debug)]
pub struct MAIFImage {
    pub header: MAIFHeader,
    pub pixels: Vec<MAIFPixel>,
}

/// The width a decode of stream `s` reports: the first byte, or zero
/// when the stream is empty.
pub open spec fn spec_width(s: Seq<u8>) -> u8 {
    if s.len() >= 1 {
        s[0]
    } else {
        0
    }
}

/// The height a decode of stream `s` reports: the second byte, or zero
/// when the stream has fewer than two bytes.
pub open spec fn spec_height(s: Seq<u8>) -> u8 {
    if s.len() >= 2 {
        s[1]
    } else {
        0
    }
}

/// Each byte of `s` as the character with its code point, in order.
pub open spec fn chars_of(s: Seq<u8>) -> Seq<char> {
    s.map_values(|b: u8| b as char)
}

/// The timestamp a decode of stream `s` reports: bytes 2..26 in order,
/// each as a character, once the header is complete; empty otherwise.
pub open spec fn spec_timestamp(s: Seq<u8>) -> Seq<char> {
    if s.len() >= HEADER_LEN {
        chars_of(s.subrange(2, HEADER_LEN as int))
    } else {
        Seq::empty()
    }
}

/// The pixel one byte decodes to.
pub open spec fn spec_pixel(b: u8) -> MAIFPixel {
    MAIFPixel { tone_sign: b & 0x80 != 0, alpha_numerator: b & 0x7f }
}

/// Each byte of `s` as the pixel it decodes to, in order.
pub open spec fn pixels_of(s: Seq<u8>) -> Seq<MAIFPixel> {
    s.map_values(|b: u8| spec_pixel(b))
}

/// The pixel sequence a decode of stream `s` reports: one pixel per
/// byte past the header, in stream order.
pub open spec fn spec_pixels(s: Seq<u8>) -> Seq<MAIFPixel> {
    if s.len() >= HEADER_LEN {
        pixels_of(s.subrange(HEADER_LEN as int, s.len() as int))
    } else {
        Seq::empty()
    }
}

/// What decoding the byte stream `s` produces, field by field.
pub open spec fn decodes_to(s: Seq<u8>, img: MAIFImage) -> bool {
    &&& img.header.width == spec_width(s)
    &&& img.header.height == spec_height(s)
    &&& img.header.datetime@ == spec_timestamp(s)
    &&& img.pixels@ == spec_pixels(s)
}

/// What the next byte handed to a [`Decoder`] will mean. The phase is
/// determined by how many bytes the decoder has consumed so far.
pub enum DecodePhase {
    /// Awaiting the first byte, the width.
    Width,
    /// Awaiting the second byte, the height.
    Height,
    /// Accumulating the 24 timestamp bytes.
    Timestamp,
    /// Every further byte is one pixel.
    Pixels,
}

/// A single-pass positional decoder. Bytes are fed in stream order,
/// one at a time, with [`Decoder::step`]; [`Decoder::finish`] yields
/// the image the consumed stream decodes to. The decoder never rejects
/// a byte: truncation only leaves later fields at their defaults.
pub struct Decoder {
    phase: DecodePhase,
    width: u8,
    height: u8,
    buffer: Vec<char>,
    datetime: Vec<char>,
    pixels: Vec<MAIFPixel>,
    tape: Ghost<Seq<u8>>,
}

impl Decoder {
    /// The bytes this decoder has consumed so far, in order.
    pub closed spec fn consumed(self) -> Seq<u8> {
        self.tape@
    }

    /// The decoder's invariant: its fields hold exactly what the
    /// consumed prefix decodes to, and the phase matches the number of
    /// bytes consumed.
    pub closed spec fn wf(self) -> bool {
        let s = self.tape@;
        &&& self.width == spec_width(s)
        &&& self.height == spec_height(s)
        &&& self.datetime@ == spec_timestamp(s)
        &&& self.pixels@ == spec_pixels(s)
        &&& match self.phase {
            DecodePhase::Width => s.len() == 0 && self.buffer@ == Seq::<char>::empty(),
            DecodePhase::Height => s.len() == 1 && self.buffer@ == Seq::<char>::empty(),
            DecodePhase::Timestamp => {
                &&& 2 <= s.len() < HEADER_LEN
                &&& self.buffer@ == chars_of(s.subrange(2, s.len() as int))
            },
            DecodePhase::Pixels => s.len() >= HEADER_LEN && self.buffer@ == Seq::<char>::empty(),
        }
    }

    /// A fresh decoder that has consumed nothing.
    pub fn new() -> (d: Decoder)
        ensures
            d.wf(),
            d.consumed() == Seq::<u8>::empty(),
    {
        Decoder {
            phase: DecodePhase::Width,
            width: 0,
            height: 0,
            buffer: Vec::new(),
            datetime: Vec::new(),
            pixels: Vec::new(),
            tape: Ghost(Seq::empty()),
        }
    }

    /// Consume the next byte of the stream. Its meaning depends only
    /// on its position: width, height, one timestamp byte, or one
    /// pixel. No byte value is ever invalid.
    pub fn step(&mut self, b: u8)
        requires
            old(self).wf(),
        ensures
            final(self).wf(),
            final(self).consumed() == old(self).consumed().push(b),
    {
        let ghost s0 = self.tape@;
        let ghost s1 = s0.push(b);
        match self.phase {
            DecodePhase::Width => {
                self.width = b;
                self.phase = DecodePhase::Height;
            },
            DecodePhase::Height => {
                self.height = b;
                self.phase = DecodePhase::Timestamp;
                proof {
                    assert(s1.subrange(2, s1.len() as int) =~= Seq::<u8>::empty());
                    assert(chars_of(Seq::<u8>::empty()) =~= Seq::<char>::empty());
                }
            },
            DecodePhase::Timestamp => {
                self.buffer.push(b as char);
                proof {
                    assert(s1.subrange(2, s1.len() as int) =~= s0.subrange(
                        2,
                        s0.len() as int,
                    ).push(b));
                    assert(chars_of(s0.subrange(2, s0.len() as int).push(b)) =~= chars_of(
                        s0.subrange(2, s0.len() as int),
                    ).push(b as char));
                }
                if self.buffer.len() == TIMESTAMP_LEN {
                    let mut done: Vec<char> = Vec::new();
                    core::mem::swap(&mut done, &mut self.buffer);
                    self.datetime = done;
                    self.phase = DecodePhase::Pixels;
                    proof {
                        assert(s1.subrange(2, HEADER_LEN as int) =~= s1.subrange(
                            2,
                            s1.len() as int,
                        ));
                        assert(s1.subrange(HEADER_LEN as int, s1.len() as int)
                            =~= Seq::<u8>::empty());
                        assert(pixels_of(Seq::<u8>::empty()) =~= Seq::<MAIFPixel>::empty());
                    }
                }
            },
            DecodePhase::Pixels => {
                self.pixels.push(MAIFPixel::from_byte(b));
                proof {
                    assert(s1.subrange(2, HEADER_LEN as int) =~= s0.subrange(
                        2,
                        HEADER_LEN as int,
                    ));
                    assert(s1.subrange(HEADER_LEN as int, s1.len() as int) =~= s0.subrange(
                        HEADER_LEN as int,
                        s0.len() as int,
                    ).push(b));
                    assert(pixels_of(s0.subrange(HEADER_LEN as int, s0.len() as int).push(b))
                        =~= pixels_of(s0.subrange(HEADER_LEN as int, s0.len() as int)).push(
                        spec_pixel(b),
                    ));
                }
            },
        }
        self.tape = Ghost(s1);
    }

    /// Hand over the image the consumed stream decodes to.
    pub fn finish(self) -> (img: MAIFImage)
        requires
            self.wf(),
        ensures
            decodes_to(self.consumed(), img),
    {
        MAIFImage {
            header: MAIFHeader { width: self.width, height: self.height, datetime: self.datetime },
            pixels: self.pixels,
        }
    }
}

impl MAIFImage {
    /// Decode a whole byte stream in one pass. Decoding never fails:
    /// a stream shorter than the header yields default values for the
    /// fields that never arrived, and every byte past the header is a
    /// valid pixel.
    pub fn decode(bytes: &[u8]) -> (img: MAIFImage)
        ensures
            decodes_to(bytes@, img),
    {
        let mut d = Decoder::new();
        let n: usize = bytes.len();
        for i in 0..n
            invariant
                n == bytes@.len(),
                d.wf(),
                d.consumed() == bytes@.subrange(0, i as int),
        {
            d.step(bytes[i]);
            proof {
                assert(bytes@.subrange(0, i as int).push(bytes@[i as int]) =~= bytes@.subrange(
                    0,
                    i + 1,
                ));
            }
        }
        proof {
            assert(bytes@.subrange(0, n as int) =~= bytes@);
        }
        d.finish()
    }
}

impl MAIFPixel {
    /// Decode one pixel byte: the most significant bit becomes the
    /// sign, the low seven bits the intensity numerator.
    pub fn from_byte(b: u8) -> (p: MAIFPixel)
        ensures
            p == spec_pixel(b),
            p.alpha_numerator < 128,
    {
        proof {
            assert((b & 0x7f) < 128) by (bit_vector);
        }
        MAIFPixel { tone_sign: b & 0x80 != 0, alpha_numerator: b & 0x7f }
    }
}

/// Law: once the stream holds a complete header, the width and the
/// height are its first two raw bytes.
pub proof fn lemma_header_dimensions(s: Seq<u8>, img: MAIFImage)
    requires
        decodes_to(s, img),
        s.len() >= HEADER_LEN,
    ensures
        img.header.width == s[0],
        img.header.height == s[1],
{
}

/// Law: once the stream holds a complete header, the timestamp is the
/// 24 raw bytes at offsets 2..26, each as a character, in stream order.
pub proof fn lemma_timestamp_bytes(s: Seq<u8>, img: MAIFImage, i: int)
    requires
        decodes_to(s, img),
        s.len() >= HEADER_LEN,
        0 <= i < TIMESTAMP_LEN,
    ensures
        img.header.datetime@.len() == TIMESTAMP_LEN,
        img.header.datetime@[i] == s[2 + i] as char,
{
    assert(img.header.datetime@[i] == s.subrange(2, HEADER_LEN as int)[i] as char);
}

/// Law: there is exactly one pixel per byte past the header.
pub proof fn lemma_pixel_count(s: Seq<u8>, img: MAIFImage)
    requires
        decodes_to(s, img),
        s.len() >= HEADER_LEN,
    ensures
        img.pixels@.len() == s.len() - HEADER_LEN,
{
}

/// Law: the pixel decoded from the byte at stream offset `26 + i`
/// carries that byte's most significant bit as its sign and its low
/// seven bits as its intensity numerator.
pub proof fn lemma_pixel_fields(s: Seq<u8>, img: MAIFImage, i: int)
    requires
        decodes_to(s, img),
        0 <= i,
        HEADER_LEN + i < s.len(),
    ensures
        img.pixels@[i].tone_sign == (s[HEADER_LEN + i] & 0x80 != 0),
        img.pixels@[i].alpha_numerator == (s[HEADER_LEN + i] & 0x7f),
{
    assert(img.pixels@[i] == spec_pixel(s.subrange(HEADER_LEN as int, s.len() as int)[i]));
}

/// Law: decoding is deterministic. Two images decoded from the same
/// byte stream agree field by field; no state is carried between
/// calls.
pub proof fn lemma_decode_deterministic(s: Seq<u8>, a: MAIFImage, b: MAIFImage)
    requires
        decodes_to(s, a),
        decodes_to(s, b),
    ensures
        a.header.width == b.header.width,
        a.header.height == b.header.height,
        a.header.datetime@ == b.header.datetime@,
        a.pixels@ == b.pixels@,
{
}

} // verus!
