//! The chunked transfer coding of a download stream.
use vstd::prelude::*;

use crate::number::{hex, hex_value, is_hex_digit, law_hex_reads_back, to_hex};

verus! {

/// A carriage return and a line feed.
pub open spec fn crlf() -> Seq<u8> {
    seq![0x0du8, 0x0au8]
}

/// The line that announces a chunk of `len` bytes.
pub open spec fn size_line(len: nat) -> Seq<u8> {
    hex(len) + crlf()
}

/// A chunk as it is sent: its size, its data, and the end of the data.
pub open spec fn frame(data: Seq<u8>) -> Seq<u8> {
    size_line(data.len()) + data + crlf()
}

/// The chunk of size zero, with the blank line that ends the stream.
pub open spec fn end_chunk() -> Seq<u8> {
    seq![0x30u8, 0x0du8, 0x0au8, 0x0du8, 0x0au8]
}

/// The chunks of several pieces of data, one after the other.
pub open spec fn frames(pieces: Seq<Seq<u8>>) -> Seq<u8>
    decreases pieces.len(),
{
    if pieces.len() == 0 {
        Seq::empty()
    } else {
        frames(pieces.drop_last()) + frame(pieces.last())
    }
}

/// Several pieces of data, put together.
pub open spec fn joined(pieces: Seq<Seq<u8>>) -> Seq<u8>
    decreases pieces.len(),
{
    if pieces.len() == 0 {
        Seq::empty()
    } else {
        joined(pieces.drop_last()) + pieces.last()
    }
}

/// A beginning of the pieces, put together, is a beginning of all of them.
pub(crate) proof fn lemma_joined_prefix(a: Seq<Seq<u8>>, b: Seq<Seq<u8>>)
    requires
        a.is_prefix_of(b),
    ensures
        joined(a).is_prefix_of(joined(b)),
    decreases b.len(),
{
    if a.len() == b.len() {
        assert(a =~= b);
    } else {
        assert(a =~= b.drop_last().take(a.len() as int));
        lemma_joined_prefix(a, b.drop_last());
    }
}

/// The number of hexadecimal digits at the start of `s`.
pub open spec fn hex_run(s: Seq<u8>) -> nat
    decreases s.len(),
{
    if s.len() == 0 || !is_hex_digit(s[0]) {
        0
    } else {
        1 + hex_run(s.drop_first())
    }
}

/// What the receiver of a chunked stream reads from it: `None` where `s` is not
/// one whole stream, with nothing missing and nothing behind it.
pub open spec fn read_chunked(s: Seq<u8>) -> Option<Seq<u8>>
    decreases s.len(),
{
    let d = hex_run(s) as int;
    let start = d + 2;
    if d == 0 || s.len() < start || s.subrange(d, start) != crlf() {
        None
    } else {
        let size = hex_value(s.take(d)) as int;
        let end = start + size;
        if s.len() < end + 2 || s.subrange(end, end + 2) != crlf() {
            None
        } else if size == 0 {
            if s.len() == end + 2 {
                Some(Seq::empty())
            } else {
                None
            }
        } else {
            match read_chunked(s.skip(end + 2)) {
                Some(rest) => Some(s.subrange(start, end) + rest),
                None => None,
            }
        }
    }
}

/// The line that announces a chunk of `len` bytes.
pub fn chunk_size_line(len: usize) -> (r: Vec<u8>)
    ensures
        r@ == size_line(len as nat),
{
    let mut r: Vec<u8> = to_hex(len as u64);
    r.push(0x0d);
    r.push(0x0a);
    assert(r@ =~= size_line(len as nat));
    r
}

/// A carriage return and a line feed.
pub fn line_end() -> (r: Vec<u8>)
    ensures
        r@ == crlf(),
{
    let r: Vec<u8> = vec![0x0d, 0x0a];
    assert(r@ =~= crlf());
    r
}

/// The chunk that ends a stream.
pub fn last_chunk() -> (r: Vec<u8>)
    ensures
        r@ == end_chunk(),
{
    let r: Vec<u8> = vec![0x30, 0x0d, 0x0a, 0x0d, 0x0a];
    assert(r@ =~= end_chunk());
    r
}

// ---------------------------------------------------------------------------
// Laws
// ---------------------------------------------------------------------------
proof fn lemma_hex_run(digits: Seq<u8>, rest: Seq<u8>)
    requires
        forall|k: int| 0 <= k < digits.len() ==> is_hex_digit(#[trigger] digits[k]),
        rest.len() > 0,
        !is_hex_digit(rest[0]),
    ensures
        hex_run(digits + rest) == digits.len(),
    decreases digits.len(),
{
    let s = digits + rest;
    if digits.len() > 0 {
        assert(s[0] == digits[0]);
        let t = digits.drop_first();
        assert forall|k: int| 0 <= k < t.len() implies is_hex_digit(#[trigger] t[k]) by {
            assert(t[k] == digits[k + 1]);
        }
        assert(s.drop_first() =~= t + rest);
        lemma_hex_run(t, rest);
    } else {
        assert(s[0] == rest[0]);
    }
}

/// A chunk that is not empty is read off the start of a stream.
proof fn lemma_read_frame(data: Seq<u8>, rest: Seq<u8>)
    requires
        data.len() > 0,
        read_chunked(rest) is Some,
    ensures
        read_chunked(frame(data) + rest) == Some(data + read_chunked(rest)->0),
{
    let digits = hex(data.len());
    law_hex_reads_back(data.len());
    let s = frame(data) + rest;
    let tail = crlf() + data + crlf() + rest;
    assert(s =~= digits + tail);
    lemma_hex_run(digits, tail);
    let d = digits.len() as int;
    assert(s.take(d) =~= digits);
    assert(s.subrange(d, d + 2) =~= crlf());
    let end = d + 2 + data.len();
    assert(s.subrange(end, end + 2) =~= crlf());
    assert(s.subrange(d + 2, end) =~= data);
    assert(s.skip(end + 2) =~= rest);
}

/// The end of a stream reads as no data.
proof fn lemma_read_end()
    ensures
        read_chunked(end_chunk()) == Some(Seq::<u8>::empty()),
{
    let s = end_chunk();
    let digits = seq![0x30u8];
    let tail = crlf() + crlf();
    assert(s =~= digits + tail);
    lemma_hex_run(digits, tail);
    assert(s.take(1) =~= digits);
    assert(digits.drop_last() =~= Seq::<u8>::empty());
    assert(hex_value(digits.drop_last()) == 0);
    assert(hex_value(digits) == 0);
    assert(s.subrange(1, 3) =~= crlf());
    assert(s.subrange(3, 5) =~= crlf());
}

proof fn lemma_read_frames(pieces: Seq<Seq<u8>>, rest: Seq<u8>)
    requires
        forall|k: int| 0 <= k < pieces.len() ==> (#[trigger] pieces[k]).len() > 0,
        read_chunked(rest) is Some,
    ensures
        read_chunked(frames(pieces) + rest) == Some(joined(pieces) + read_chunked(rest)->0),
    decreases pieces.len(),
{
    if pieces.len() == 0 {
        assert(frames(pieces) + rest =~= rest);
        assert(joined(pieces) + read_chunked(rest)->0 =~= read_chunked(rest)->0);
    } else {
        let last = pieces.last();
        let init = pieces.drop_last();
        assert forall|k: int| 0 <= k < init.len() implies (#[trigger] init[k]).len() > 0 by {
            assert(init[k] == pieces[k]);
        }
        assert(pieces[pieces.len() - 1].len() > 0);
        lemma_read_frame(last, rest);
        lemma_read_frames(init, frame(last) + rest);
        assert(frames(pieces) + rest =~= frames(init) + (frame(last) + rest));
        assert(joined(init) + (last + read_chunked(rest)->0) =~= joined(pieces) + read_chunked(
            rest,
        )->0);
    }
}

/// The receiver of a stream reads back what was put into it: the pieces, in
/// order, joined. No piece may be empty, because an empty chunk ends the stream.
pub proof fn law_chunked_reads_back(pieces: Seq<Seq<u8>>)
    requires
        forall|k: int| 0 <= k < pieces.len() ==> (#[trigger] pieces[k]).len() > 0,
    ensures
        read_chunked(frames(pieces) + end_chunk()) == Some(joined(pieces)),
{
    lemma_read_end();
    lemma_read_frames(pieces, end_chunk());
    assert(joined(pieces) + Seq::<u8>::empty() =~= joined(pieces));
}

/// A chunk is announced by its length in hexadecimal and a line ending, whatever
/// the length.
pub proof fn law_size_line(len: nat)
    ensures
        size_line(len) == hex(len) + seq![13u8, 10u8],
        crlf() == seq![13u8, 10u8],
        end_chunk() == size_line(0) + seq![13u8, 10u8],
{
    assert(crlf() =~= seq![13u8, 10u8]);
    assert(hex(0) =~= seq![0x30u8]);
    assert(end_chunk() =~= size_line(0) + seq![13u8, 10u8]);
}

} // verus!
