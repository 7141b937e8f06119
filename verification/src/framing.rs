//! 2-byte big-endian length-prefix framing over a caller's transport.
use vstd::prelude::*;
use crate::bytes::{append_bytes, to_vec};
use crate::ffi::{NoiseError, NoiseTransport};
use crate::text::{decimal, decimal_string};

verus! {

/// Max plaintext per transport message: 65535 (max frame) - 16 (AEAD tag).
pub const MAX_PLAINTEXT_SIZE: usize = 65519;

/// Largest frame body, in bytes.
pub const MAX_FRAME_SIZE: usize = 65535;

/// The 2-byte big-endian encoding of `n`.
pub open spec fn be16(n: nat) -> Seq<u8> {
    seq![(n / 256) as u8, (n % 256) as u8]
}

/// The length that a 2-byte big-endian header announces.
pub open spec fn header_value(h: Seq<u8>) -> nat {
    (h[0] as nat) * 256 + (h[1] as nat)
}

/// The frame of `data`: its length as a 2-byte big-endian header, then the
/// data.
pub open spec fn frame_bytes(data: Seq<u8>) -> Seq<u8> {
    be16(data.len()) + data
}

/// Error text of a frame body over 65535 bytes.
pub open spec fn frame_too_large_text(len: nat) -> Seq<char> {
    "noise: frame too large: "@ + decimal(len) + " bytes"@
}

/// The text is the display text of some transport error.
pub open spec fn is_transport_text(t: Seq<char>) -> bool {
    exists|e: NoiseError| #[trigger] e.display() == t
}

/// Why reading a frame failed: the connection ended before the frame was
/// complete, or the transport reported an error.
pub open spec fn frame_read_failure(t: Seq<char>) -> bool {
    t == "failed to fill whole buffer"@ || is_transport_text(t)
}

/// `t` is `prefix` followed by the text of a transport error.
pub open spec fn after_transport_error(prefix: Seq<char>, t: Seq<char>) -> bool {
    exists|x: Seq<char>| is_transport_text(x) && t == #[trigger] (prefix + x)
}

/// `t` is `prefix` followed by the text of a failed frame read.
pub open spec fn after_read_failure(prefix: Seq<char>, t: Seq<char>) -> bool {
    exists|x: Seq<char>| frame_read_failure(x) && t == #[trigger] (prefix + x)
}

/// The 2-byte big-endian header for a body of `len` bytes.
pub fn frame_header(len: usize) -> (h: [u8; 2])
    requires
        len <= MAX_FRAME_SIZE,
    ensures
        h@ == be16(len as nat),
{
    let hi = (len / 256) as u8;
    let lo = (len % 256) as u8;
    let h = [hi, lo];
    assert(h@ =~= be16(len as nat));
    h
}

/// The body length announced by a 2-byte big-endian header.
pub fn header_len(h: [u8; 2]) -> (n: usize)
    ensures
        n == header_value(h@),
        n <= MAX_FRAME_SIZE,
{
    (h[0] as usize) * 256 + (h[1] as usize)
}

/// The frame of `data`: header and body in one buffer.
pub fn encode_frame(data: &[u8]) -> (frame: Vec<u8>)
    requires
        data@.len() <= MAX_FRAME_SIZE,
    ensures
        frame@ == frame_bytes(data@),
{
    let h = frame_header(data.len());
    let mut frame = to_vec(&h);
    append_bytes(&mut frame, data);
    frame
}

/// Framing round trip: the header of a frame announces exactly the length
/// of the data it carries, and the data follows the header unchanged.
pub proof fn lemma_frame_roundtrip(data: Seq<u8>)
    requires
        data.len() <= 65535,
    ensures
        frame_bytes(data).len() == data.len() + 2,
        header_value(frame_bytes(data).take(2)) == data.len(),
        frame_bytes(data).skip(2) == data,
{
    let f = frame_bytes(data);
    assert(f.take(2) =~= be16(data.len()));
    assert(f.skip(2) =~= data);
    let n = data.len();
    assert((n / 256) < 256);
    assert(((n / 256) as u8) as nat == n / 256);
    assert(((n % 256) as u8) as nat == n % 256);
}

/// Writes data to w with a 2-byte big-endian length prefix: the header in
/// one write, then the body in another (none for an empty body). The ghost
/// result is every byte handed to the writes: on success exactly the frame
/// of `data`, on failure a beginning of it (nothing for an oversize body).
pub fn write_frame_recorded<T: NoiseTransport>(w: &T, data: &[u8]) -> (res: (Result<(), String>, Ghost<Seq<u8>>))
    ensures
        data@.len() > MAX_FRAME_SIZE ==> (res.0 matches Err(e) && e@ == frame_too_large_text(data@.len())
            && res.1@ == Seq::<u8>::empty()),
        data@.len() <= MAX_FRAME_SIZE ==> match res.0 {
            Ok(()) => res.1@ == frame_bytes(data@),
            Err(e) => is_transport_text(e@) && res.1@.is_prefix_of(frame_bytes(data@)),
        },
{
    if data.len() > MAX_FRAME_SIZE {
        let t = String::from_str("noise: frame too large: ").concat(decimal_string(data.len()).as_str());
        return (Err(t.concat(" bytes")), Ghost(Seq::empty()));
    }
    let h = frame_header(data.len());
    let hv = to_vec(&h);
    let ghost handed = hv@;
    assert(handed.is_prefix_of(frame_bytes(data@))) by {
        assert(frame_bytes(data@).subrange(0, 2) =~= handed);
    }
    match w.write(hv) {
        Ok(()) => {},
        Err(e) => return (Err(e.to_string()), Ghost(handed)),
    }
    if data.len() > 0 {
        let dv = to_vec(data);
        let ghost all = handed + dv@;
        assert(all =~= frame_bytes(data@));
        match w.write(dv) {
            Ok(()) => {},
            Err(e) => {
                assert(all.is_prefix_of(frame_bytes(data@)));
                return (Err(e.to_string()), Ghost(all));
            },
        }
        return (Ok(()), Ghost(all));
    }
    assert(handed =~= frame_bytes(data@));
    (Ok(()), Ghost(handed))
}

/// Writes data to w with a 2-byte big-endian length prefix; see
/// `write_frame_recorded`.
pub fn write_frame<T: NoiseTransport>(w: &T, data: &[u8]) -> (res: Result<(), String>)
    ensures
        data@.len() > MAX_FRAME_SIZE ==> (res matches Err(e) && e@ == frame_too_large_text(data@.len())),
        data@.len() <= MAX_FRAME_SIZE ==> (res matches Err(e) ==> is_transport_text(e@)),
{
    write_frame_recorded(w, data).0
}

/// How many bytes of a chunk of `chunk_len` bytes are kept when `want`
/// more are wanted.
pub open spec fn kept(chunk_len: nat, want: nat) -> nat {
    if chunk_len < want { chunk_len } else { want }
}

/// Adds one chunk that a read returned to the bytes gathered so far toward
/// `n`. An empty chunk means the connection ended: the result is `eof_text`
/// and nothing changes. Otherwise as many of its bytes as are still wanted
/// are appended in order, and the rest are dropped.
pub fn absorb_chunk(buf: &mut Vec<u8>, n: usize, chunk: &[u8], eof_text: &str) -> (res: Result<(), String>)
    requires
        old(buf)@.len() < n,
    ensures
        chunk@.len() == 0 ==> (res matches Err(e) && e@ == eof_text@ && final(buf)@ == old(buf)@),
        chunk@.len() > 0 ==> (res is Ok && final(buf)@ == old(buf)@ + chunk@.take(
            kept(chunk@.len(), (n - old(buf)@.len()) as nat) as int)),
{
    let want = n - buf.len();
    let k = if chunk.len() < want { chunk.len() } else { want };
    if k == 0 {
        return Err(String::from_str(eof_text));
    }
    let ghost start = buf@;
    let mut i: usize = 0;
    while i < k
        invariant
            k <= chunk@.len(),
            i <= k,
            buf@ == start + chunk@.take(i as int),
        decreases k - i,
    {
        buf.push(chunk[i]);
        i = i + 1;
        assert(chunk@.take(i as int) =~= chunk@.take((i - 1) as int).push(chunk@[i - 1]));
    }
    Ok(())
}

/// Reads exactly `n` bytes from r, asking each read for the bytes still
/// wanted and gathering the chunks with `absorb_chunk`. A read that returns
/// nothing means the connection ended: the result is `eof_text`. A read
/// error is passed on as its display text. Nothing is read when `n` is 0.
/// The ghost result is every byte taken from the reads: on success exactly
/// the bytes returned, on failure fewer than `n`.
pub fn read_exact_recorded<T: NoiseTransport>(r: &T, n: usize, eof_text: &str) -> (res: (Result<Vec<u8>, String>, Ghost<Seq<u8>>))
    ensures
        n == 0 ==> (res.0 matches Ok(v) && v@.len() == 0),
        match res.0 {
            Ok(v) => v@.len() == n && res.1@ == v@,
            Err(e) => (e@ == eof_text@ || is_transport_text(e@)) && res.1@.len() < n,
        },
{
    let mut buf: Vec<u8> = Vec::new();
    while buf.len() < n
        invariant
            buf@.len() <= n,
        decreases n - buf@.len(),
    {
        let want = n - buf.len();
        match r.read(want as u64) {
            Err(e) => return (Err(e.to_string()), Ghost(buf@)),
            Ok(chunk) => {
                match absorb_chunk(&mut buf, n, chunk.as_slice(), eof_text) {
                    Ok(()) => {},
                    Err(t) => return (Err(t), Ghost(buf@)),
                }
            },
        }
    }
    let ghost got = buf@;
    (Ok(buf), Ghost(got))
}

/// Reads exactly `n` bytes from r; see `read_exact_recorded`.
pub fn read_exact<T: NoiseTransport>(r: &T, n: usize, eof_text: &str) -> (res: Result<Vec<u8>, String>)
    ensures
        n == 0 ==> (res matches Ok(v) && v@.len() == 0),
        match res {
            Ok(v) => v@.len() == n,
            Err(e) => e@ == eof_text@ || is_transport_text(e@),
        },
{
    read_exact_recorded(r, n, eof_text).0
}

/// The bytes `got` stop short of a whole frame: the 2-byte header is
/// incomplete, or the body it announces is.
pub open spec fn partial_frame(got: Seq<u8>) -> bool {
    got.len() < 2 || got.len() < 2 + header_value(got.take(2))
}

/// A frame's header announces exactly its body's length, so a frame
/// determines its body, and a whole frame is never a partial one.
pub proof fn lemma_frame_determines_body(a: Seq<u8>, b: Seq<u8>)
    requires
        a.len() <= 65535,
        b.len() <= 65535,
    ensures
        frame_bytes(a) == frame_bytes(b) ==> a == b,
        !partial_frame(frame_bytes(a)),
{
    lemma_frame_roundtrip(a);
    lemma_frame_roundtrip(b);
}

/// Two header bytes that announce the length of `body`, followed by it, are
/// the frame of `body`.
pub proof fn lemma_header_then_body(h: Seq<u8>, body: Seq<u8>)
    requires
        h.len() == 2,
        header_value(h) == body.len(),
    ensures
        h + body == frame_bytes(body),
        body.len() <= 65535,
{
    let n = body.len();
    assert(h[0] as nat == n / 256) by (nonlinear_arith)
        requires h[0] as nat * 256 + h[1] as nat == n, h[1] < 256;
    assert(h[1] as nat == n % 256) by (nonlinear_arith)
        requires h[0] as nat * 256 + h[1] as nat == n, h[1] < 256;
    assert(h =~= be16(n));
    assert(h + body =~= frame_bytes(body));
}

/// A frame that begins a byte stream whose first frame carries `ct` is that
/// very frame: its header announces the same length, so its body is `ct`.
pub proof fn lemma_leading_frame(ct2: Seq<u8>, ct: Seq<u8>, rest: Seq<u8>)
    requires
        ct.len() <= 65535,
        ct2.len() <= 65535,
        frame_bytes(ct2).is_prefix_of(frame_bytes(ct) + rest),
    ensures
        ct2 == ct,
{
    let s = frame_bytes(ct) + rest;
    lemma_frame_roundtrip(ct);
    lemma_frame_roundtrip(ct2);
    assert(frame_bytes(ct2).take(2) =~= s.take(2));
    assert(frame_bytes(ct).take(2) =~= s.take(2));
    assert(ct2.len() == ct.len());
    assert forall|k: int| 0 <= k < ct.len() implies ct2[k] == ct[k] by {
        assert(frame_bytes(ct2)[k + 2] == s[k + 2]);
        assert(frame_bytes(ct)[k + 2] == s[k + 2]);
    }
    assert(ct2 =~= ct);
}

/// Reads a 2-byte big-endian length prefix then the body it announces from
/// r, and returns the body. The ghost result is every byte taken from the
/// reads: on success exactly the frame of the body (the full header, then
/// all the bytes it announces), on failure a partial frame.
pub fn read_frame_recorded<T: NoiseTransport>(r: &T, eof_text: &str) -> (res: (Result<Vec<u8>, String>, Ghost<Seq<u8>>))
    ensures
        match res.0 {
            Ok(body) => body@.len() <= MAX_FRAME_SIZE && res.1@ == frame_bytes(body@),
            Err(e) => (e@ == eof_text@ || is_transport_text(e@)) && partial_frame(res.1@),
        },
{
    let (hres, Ghost(hgot)) = read_exact_recorded(r, 2, eof_text);
    let header = match hres {
        Ok(h) => h,
        Err(e) => return (Err(e), Ghost(hgot)),
    };
    let size = header_len([header[0], header[1]]);
    assert(header@ =~= seq![header[0], header[1]]);
    let (bres, Ghost(bgot)) = read_exact_recorded(r, size, eof_text);
    proof {
        assert((hgot + bgot).take(2) =~= hgot);
    }
    match bres {
        Ok(body) => {
            proof {
                lemma_frame_roundtrip(body@);
                assert(frame_bytes(body@).take(2) =~= be16(body@.len()));
                assert(header_value(be16(body@.len())) == body@.len());
                let h = header@;
                assert(h[0] as nat * 256 + h[1] as nat == body@.len());
                assert(h =~= be16(body@.len())) by {
                    let n = body@.len();
                    assert(h[0] as nat == n / 256) by (nonlinear_arith)
                        requires h[0] as nat * 256 + h[1] as nat == n, h[1] < 256;
                    assert(h[1] as nat == n % 256) by (nonlinear_arith)
                        requires h[0] as nat * 256 + h[1] as nat == n, h[1] < 256;
                }
                assert(hgot + bgot =~= frame_bytes(body@));
            }
            (Ok(body), Ghost(hgot + bgot))
        },
        Err(e) => (Err(e), Ghost(hgot + bgot)),
    }
}

/// Reads a 2-byte big-endian length prefix then the body from r; see
/// `read_frame_recorded`.
pub fn read_frame<T: NoiseTransport>(r: &T) -> (res: Result<Vec<u8>, String>)
    ensures
        match res {
            Ok(body) => body@.len() <= MAX_FRAME_SIZE,
            Err(e) => frame_read_failure(e@),
        },
{
    read_frame_recorded(r, "failed to fill whole buffer").0
}

} // verus!
