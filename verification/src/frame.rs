//! Frames: a JSON text behind its length in four bytes.
use vstd::prelude::*;

use crate::fault::Fault;
use crate::json::{parse, render, Json, JsonV};

verus! {

/// The longest text that a frame may hold.
pub const MAX_FRAME: usize = 4194304;

/// The four bytes, most significant first, that announce a length.
pub open spec fn head_of(n: int) -> Seq<u8> {
    seq![
        ((n / 16777216) % 256) as u8,
        ((n / 65536) % 256) as u8,
        ((n / 256) % 256) as u8,
        (n % 256) as u8,
    ]
}

/// The length that four bytes announce.
pub open spec fn length_of(head: Seq<u8>) -> int {
    head[0] * 16777216 + head[1] * 65536 + head[2] * 256 + head[3]
}

/// Bytes behind their length.
pub open spec fn framed(data: Seq<u8>) -> Seq<u8> {
    head_of(data.len() as int) + data
}

/// A length that was announced, or the text of a refusal.
pub type Length = Result<int, Seq<char>>;

/// The length that four bytes announce, where a frame may have it.
pub open spec fn announced(head: Seq<u8>) -> Length {
    let n = length_of(head);
    if n == 0 || n > MAX_FRAME {
        Length::Err("invalid_frame_length"@)
    } else {
        Length::Ok(n)
    }
}

/// A frame that was read and how many bytes it took, nothing at the end of
/// the input, or the text of a refusal.
pub type Frame = Result<Option<(JsonV, int)>, Seq<char>>;

/// What stands at the beginning of the input.
pub open spec fn first_frame(input: Seq<u8>) -> Frame {
    if input.len() == 0 {
        Frame::Ok(None)
    } else if input.len() < 4 {
        Frame::Err("failed to fill whole buffer"@)
    } else {
        match announced(input.take(4)) {
            Err(e) => Frame::Err(e),
            Ok(n) => if input.len() < 4 + n {
                Frame::Err("failed to fill whole buffer"@)
            } else {
                match crate::json::json_value(input.subrange(4, 4 + n)) {
                    Ok(j) => Frame::Ok(Some((j, 4 + n))),
                    Err(e) => Frame::Err(e),
                }
            },
        }
    }
}

/// The bytes of a frame, or the text of a refusal.
pub type Bytes = Result<Seq<u8>, Seq<char>>;

/// The frame that holds a value.
pub open spec fn frame_of(v: JsonV) -> Bytes {
    let data = vstd::utf8::encode_utf8(crate::json::json_text(v));
    if data.len() > MAX_FRAME {
        Bytes::Err("response_too_large"@)
    } else {
        Bytes::Ok(framed(data))
    }
}

/// The four bytes that announce a length announce that length.
pub proof fn law_length_round_trip(n: int)
    requires
        0 <= n < 4294967296,
    ensures
        head_of(n).len() == 4,
        length_of(head_of(n)) == n,
{
    let a = n / 16777216;
    let b = (n / 65536) % 256;
    let c = (n / 256) % 256;
    let d = n % 256;
    assert(0 <= a < 256) by (nonlinear_arith)
        requires
            0 <= n < 4294967296,
            a == n / 16777216,
    ;
    assert(n / 65536 == a * 256 + b) by (nonlinear_arith)
        requires
            0 <= n,
            a == n / 16777216,
            b == (n / 65536) % 256,
    ;
    assert(n / 256 == (n / 65536) * 256 + c) by (nonlinear_arith)
        requires
            0 <= n,
            c == (n / 256) % 256,
    ;
    assert(n == (n / 256) * 256 + d);
}

/// Every frame is read back whole: what follows it does not matter, and no
/// byte of it is left.
pub proof fn law_framed_bytes_come_back(data: Seq<u8>, rest: Seq<u8>)
    requires
        0 < data.len() <= MAX_FRAME,
    ensures
        announced((framed(data) + rest).take(4)) == Length::Ok(data.len() as int),
        (framed(data) + rest).subrange(4, 4 + data.len() as int) == data,
        (framed(data) + rest).skip(4 + data.len() as int) == rest,
{
    law_length_round_trip(data.len() as int);
    assert((framed(data) + rest).take(4) =~= head_of(data.len() as int));
    assert((framed(data) + rest).subrange(4, 4 + data.len() as int) =~= data);
    assert((framed(data) + rest).skip(4 + data.len() as int) =~= rest);
}

/// An input that ends inside a frame is refused, whatever it holds so far.
pub proof fn law_truncation_is_refused(data: Seq<u8>, kept: int)
    requires
        0 < data.len() <= MAX_FRAME,
        0 < kept < 4 + data.len(),
    ensures
        first_frame(framed(data).take(kept)) == Frame::Err("failed to fill whole buffer"@),
{
    if kept >= 4 {
        law_length_round_trip(data.len() as int);
        assert(framed(data).take(kept).take(4) =~= head_of(data.len() as int));
    }
}

/// The length that four bytes announce, where a frame may have it.
pub fn frame_length(head: &[u8]) -> (r: Result<usize, Fault>)
    requires
        head@.len() == 4,
    ensures
        match r {
            Ok(n) => announced(head@) == Length::Ok(n as int),
            Err(f) => announced(head@) == Length::Err(f@),
        },
{
    let n: u64 = head[0] as u64 * 16777216 + head[1] as u64 * 65536 + head[2] as u64 * 256
        + head[3] as u64;
    if n == 0 || n > MAX_FRAME as u64 {
        return Err(Fault::InvalidFrameLength);
    }
    Ok(n as usize)
}

/// Reads the frame at the beginning of the input, and says how many bytes it
/// took.
pub fn read_frame(input: &[u8]) -> (r: Result<Option<(Json, usize)>, Fault>)
    ensures
        match r {
            Ok(Some((j, taken))) => first_frame(input@) == Frame::Ok(Some((j@, taken as int))),
            Ok(None) => first_frame(input@) == Frame::Ok(None),
            Err(f) => first_frame(input@) == Frame::Err(f@),
        },
{
    if input.len() == 0 {
        return Ok(None);
    }
    if input.len() < 4 {
        return Err(Fault::TruncatedFrame);
    }
    let head = vstd::slice::slice_subrange(input, 0, 4);
    assert(head@ =~= input@.take(4));
    let n: usize = match frame_length(head) {
        Ok(n) => n,
        Err(f) => {
            return Err(f);
        },
    };
    if input.len() - 4 < n {
        return Err(Fault::TruncatedFrame);
    }
    match parse(vstd::slice::slice_subrange(input, 4, 4 + n)) {
        Ok(j) => Ok(Some((j, 4 + n))),
        Err(e) => Err(Fault::Other(e)),
    }
}

/// Puts bytes behind their length.
pub fn prefixed(data: &[u8]) -> (r: Vec<u8>)
    ensures
        r@ == framed(data@),
{
    let n: usize = data.len();
    let mut out = vec![
        ((n as u64 / 16777216) % 256) as u8,
        ((n as u64 / 65536) % 256) as u8,
        ((n as u64 / 256) % 256) as u8,
        (n as u64 % 256) as u8,
    ];
    assert(out@ =~= head_of(n as int));
    out.extend_from_slice(data);
    assert(out@ =~= framed(data@));
    out
}

proof fn lemma_frame_is_read(data: Seq<u8>, j: JsonV)
    requires
        0 < data.len() <= MAX_FRAME,
        crate::json::json_value(data) == crate::json::JsonRead::Ok(j),
    ensures
        first_frame(framed(data)) == Frame::Ok(Some((j, framed(data).len() as int))),
{
    law_framed_bytes_come_back(data, Seq::empty());
    assert(framed(data) + Seq::<u8>::empty() =~= framed(data));
}

/// Makes the frame that holds a value. Reading the frame gives the settled
/// value back, where its numbers are whole and it is nested less than 128 deep.
pub fn write_frame(v: &Json) -> (r: Result<Vec<u8>, Fault>)
    ensures
        match r {
            Ok(b) => frame_of(v@) == Bytes::Ok(b@),
            Err(f) => frame_of(v@) == Bytes::Err(f@),
        },
        match r {
            Ok(b) => crate::json::readable(v@, 127) ==> first_frame(b@) == Frame::Ok(
                Some((crate::json::settled(v@), b@.len() as int)),
            ),
            Err(_) => true,
        },
{
    let text = render(v);
    let data = text.as_str().as_bytes();
    if data.len() > MAX_FRAME {
        return Err(Fault::ResponseTooLarge);
    }
    let out = prefixed(data);
    proof {
        vstd::utf8::encode_utf8_first_scalar(text@);
        assert(data@.len() > 0);
        if crate::json::readable(v@, 127) {
            lemma_frame_is_read(data@, crate::json::settled(v@));
        }
    }
    Ok(out)
}

/// The length of a frame is written in four bytes, the most significant first.
pub proof fn law_length_is_big_endian(n: int)
    requires
        0 <= n < 4294967296,
    ensures
        head_of(n).len() == 4,
        n == head_of(n)[0] * 0x100_0000 + head_of(n)[1] * 0x1_0000 + head_of(n)[2] * 0x100
            + head_of(n)[3],
{
    law_length_round_trip(n);
}

/// A frame holds at least one byte and at most four mebibytes: a length beyond
/// that is refused where it is announced, and a value whose text is longer is
/// not framed. Every other value is, behind the length of its text.
pub proof fn law_frames_are_bounded(head: Seq<u8>, v: JsonV)
    requires
        head.len() == 4,
    ensures
        ({
            let n = head[0] * 0x100_0000 + head[1] * 0x1_0000 + head[2] * 0x100 + head[3];
            &&& 1 <= n <= 4 * 1024 * 1024 ==> announced(head) == Length::Ok(n)
            &&& !(1 <= n <= 4 * 1024 * 1024) ==> announced(head) == Length::Err(
                "invalid_frame_length"@,
            )
        }),
        ({
            let text = vstd::utf8::encode_utf8(crate::json::json_text(v));
            &&& text.len() <= 4 * 1024 * 1024 ==> frame_of(v) == Bytes::Ok(
                head_of(text.len() as int) + text,
            )
            &&& text.len() > 4 * 1024 * 1024 ==> frame_of(v) == Bytes::Err("response_too_large"@)
        }),
{
}

/// A stream that ends between frames has ended well; one that ends inside a
/// frame has not; what a frame holds is read as JSON, and no further than the
/// frame.
pub proof fn law_frames_are_read_one_by_one(data: Seq<u8>, rest: Seq<u8>)
    requires
        0 < data.len() <= MAX_FRAME,
    ensures
        first_frame(Seq::empty()) == Frame::Ok(None),
        crate::json::json_value(data) matches Ok(j) ==> first_frame(framed(data) + rest)
            == Frame::Ok(Some((j, 4 + data.len() as int))),
        crate::json::json_value(data) matches Err(e) ==> first_frame(framed(data) + rest)
            == Frame::Err(e),
{
    law_framed_bytes_come_back(data, rest);
}

/// A frame whose length is not allowed is refused for that, whatever follows;
/// fewer than four bytes announce nothing.
pub proof fn law_bad_lengths_are_refused(head: Seq<u8>, rest: Seq<u8>)
    ensures
        head.len() == 4 ==> (announced(head) matches Err(e) ==> first_frame(head + rest)
            == Frame::Err(e)),
        0 < head.len() < 4 ==> first_frame(head) == Frame::Err("failed to fill whole buffer"@),
{
    if head.len() == 4 {
        assert((head + rest).take(4) =~= head);
    }
}

} // verus!
