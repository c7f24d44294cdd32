use vstd::prelude::*;
use vstd::string::StringExecFns;

use bytes::BytesMut;

use crate::internal::bytebuf::buf_advance;
use crate::internal::bytebuf::buf_get;
use crate::internal::bytebuf::buf_len;
use crate::internal::bytebuf::buf_split_to;
use crate::internal::bytebuf::bytes_view;
use crate::internal::clock::clock_now;
use crate::internal::clock::ClockTime;

verus! {

/// message type (operation type)
#[derive(Debug, Clone)]
pub enum PacketType {
    Ping,
    Pong,
    Message,
    MessageAck,
}

/// message version
#[derive(Debug, Clone)]
pub enum PacketVersion {
    V1,
}

#[derive(Debug, Clone, PartialEq, Eq, Structural)]
pub enum PacketError {
    /// More bytes must arrive before a frame can be read.
    NotEnoughBytes,
    /// No message is present.
    Null,
    /// A frame broke the framing rules; the connection must go.
    ProtocolError,
    /// The version byte named a protocol this build does not speak.
    UnSupportVersion,
    /// A strict UTF-8 payload held invalid bytes.
    TransformFailed,
}

/// Protocol
/// []byte[0,1] // message length
/// []byte[2] // protocol version
///
/// version 1
/// []byte[3] // control operation
/// []byte[4..] // message
#[derive(Debug, Clone)]
pub struct Packet {
    pub version: PacketVersion,
    pub operation: PacketType,
    pub id: u64,
    pub user_id: u64,
    pub username: Option<String>,
    // receive message time
    pub time: ClockTime,
    pub msg: Option<String>,
}

pub open spec fn spec_version_from_u8(v: u8) -> Option<PacketVersion> {
    if v == 1 {
        Some(PacketVersion::V1)
    } else {
        None
    }
}

pub open spec fn spec_type_from_u8(t: u8) -> Option<PacketType> {
    if t == 1 {
        Some(PacketType::Ping)
    } else if t == 2 {
        Some(PacketType::Pong)
    } else if t == 3 {
        Some(PacketType::Message)
    } else if t == 4 {
        Some(PacketType::MessageAck)
    } else {
        None
    }
}

impl PacketVersion {
    #[inline]
    pub fn from_u8(v: u8) -> (r: Option<PacketVersion>)
        ensures
            r == spec_version_from_u8(v),
    {
        match v {
            1 => Some(PacketVersion::V1),
            _ => None,
        }
    }
}

impl PacketType {
    #[inline]
    pub fn from_u8(t: u8) -> (r: Option<PacketType>)
        ensures
            r == spec_type_from_u8(t),
    {
        match t {
            1 => Some(PacketType::Ping),
            2 => Some(PacketType::Pong),
            3 => Some(PacketType::Message),
            4 => Some(PacketType::MessageAck),
            _ => None,
        }
    }
}

/// What String::from_utf8_lossy yields for these bytes: a function of the
/// bytes alone, replacing each invalid sequence.
pub uninterp spec fn lossy_utf8(bytes: Seq<u8>) -> Seq<char>;

/// Relies on String::from_utf8_lossy: the result depends on the bytes alone,
/// and on valid UTF-8 it is exactly the decoded string.
#[verifier::external_body]
pub(crate) fn lossy_to_string(v: &[u8]) -> (r: String)
    ensures
        r@ == lossy_utf8(v@),
        vstd::utf8::valid_utf8(v@) ==> r@ == vstd::utf8::decode_utf8(v@),
{
    String::from_utf8_lossy(v).to_string()
}

/// Relies on String::from_utf8: it succeeds exactly on valid UTF-8 and then
/// returns the decoded string.
#[verifier::external_body]
pub(crate) fn utf8_to_string(v: Vec<u8>) -> (r: Option<String>)
    ensures
        r matches Some(s) ==> vstd::utf8::valid_utf8(v@) && s@ == vstd::utf8::decode_utf8(v@),
        r is None ==> !vstd::utf8::valid_utf8(v@),
{
    match String::from_utf8(v) {
        Ok(s) => Some(s),
        Err(_) => None,
    }
}

/// A CR LF pair starts at position `i`.
pub open spec fn crlf_at(s: Seq<u8>, i: int) -> bool {
    0 <= i && i + 1 < s.len() && s[i] == 13u8 && s[i + 1] == 10u8
}

/// The least position at or after `k` where a CR LF pair starts, or -1.
pub open spec fn first_crlf_from(s: Seq<u8>, k: int) -> int
    decreases s.len() - k,
    when 0 <= k
{
    if k + 1 >= s.len() {
        -1
    } else if s[k] == 13u8 && s[k + 1] == 10u8 {
        k
    } else {
        first_crlf_from(s, k + 1)
    }
}

pub open spec fn first_crlf(s: Seq<u8>) -> int {
    first_crlf_from(s, 0)
}

pub proof fn lemma_first_crlf_from(s: Seq<u8>, k: int)
    requires
        0 <= k,
    ensures
        first_crlf_from(s, k) == -1 <==> (forall|j: int| k <= j ==> !crlf_at(s, j)),
        first_crlf_from(s, k) != -1 ==> k <= first_crlf_from(s, k) && crlf_at(
            s,
            first_crlf_from(s, k),
        ),
        forall|j: int| k <= j < first_crlf_from(s, k) ==> !crlf_at(s, j),
    decreases s.len() - k,
{
    if k + 1 >= s.len() {
        assert(forall|j: int| k <= j ==> !crlf_at(s, j));
    } else if s[k] == 13u8 && s[k + 1] == 10u8 {
        assert(crlf_at(s, k));
    } else {
        assert(!crlf_at(s, k));
        lemma_first_crlf_from(s, k + 1);
    }
}

/// The line framing: every complete CR LF terminated chunk, empties dropped,
/// paired with the bytes that still wait for a terminator.
pub open spec fn line_split(s: Seq<u8>) -> (Seq<Seq<u8>>, Seq<u8>)
    decreases s.len(),
    when true
    via line_split_decreases
{
    let i = first_crlf(s);
    if i < 0 {
        (Seq::<Seq<u8>>::empty(), s)
    } else {
        let head = s.take(i);
        let rest = line_split(s.skip(i + 2));
        if head.len() == 0 {
            rest
        } else {
            (seq![head] + rest.0, rest.1)
        }
    }
}

#[via_fn]
proof fn line_split_decreases(s: Seq<u8>) {
    lemma_first_crlf_from(s, 0);
}

/// The remainder the line decoder keeps never holds a full terminator.
pub proof fn lemma_line_split_rest_no_crlf(s: Seq<u8>)
    ensures
        first_crlf(line_split(s).1) == -1,
    decreases s.len(),
{
    lemma_first_crlf_from(s, 0);
    let i = first_crlf(s);
    if i >= 0 {
        lemma_line_split_rest_no_crlf(s.skip(i + 2));
    }
}

/// Law: the line decoder is resumable. Decoding a stream and then feeding
/// further bytes after the kept remainder yields the same lines, in the same
/// order, as decoding the whole stream at once.
pub proof fn lemma_line_split_resumes(s: Seq<u8>, t: Seq<u8>)
    ensures
        line_split(s + t).0 == line_split(s).0 + line_split(line_split(s).1 + t).0,
        line_split(s + t).1 == line_split(line_split(s).1 + t).1,
    decreases s.len(),
{
    lemma_first_crlf_from(s, 0);
    lemma_first_crlf_from(s + t, 0);
    let i = first_crlf(s);
    if i < 0 {
        assert(s + t == line_split(s).1 + t);
        assert(line_split(s).0 + line_split(s + t).0 =~= line_split(s + t).0);
    } else {
        assert(crlf_at(s, i));
        assert(crlf_at(s + t, i));
        assert(forall|j: int| 0 <= j < i ==> !crlf_at(s, j));
        assert forall|j: int| 0 <= j < i implies !crlf_at(s + t, j) by {
            assert((s + t)[j] == s[j]);
            assert((s + t)[j + 1] == s[j + 1]);
            assert(!crlf_at(s, j));
        }
        assert(first_crlf(s + t) == i);
        assert((s + t).take(i) =~= s.take(i));
        assert((s + t).skip(i + 2) =~= s.skip(i + 2) + t);
        lemma_line_split_resumes(s.skip(i + 2), t);
        let mid = line_split(s.skip(i + 2));
        let tail = line_split(mid.1 + t);
        if s.take(i).len() == 0 {
        } else {
            assert(line_split(s + t).0 =~= seq![s.take(i)] + (mid.0 + tail.0));
            assert((seq![s.take(i)] + mid.0) + tail.0 =~= seq![s.take(i)] + (mid.0 + tail.0));
        }
    }
}

/// All the bytes of a chunked stream, in arrival order.
pub open spec fn flatten_chunks(chunks: Seq<Seq<u8>>) -> Seq<u8>
    decreases chunks.len(),
{
    if chunks.len() == 0 {
        Seq::<u8>::empty()
    } else {
        chunks[0] + flatten_chunks(chunks.drop_first())
    }
}

/// Run the line decoder over a stream arriving chunk by chunk, each call
/// seeing the kept remainder plus the new chunk.
pub open spec fn feed_chunks(acc: Seq<u8>, chunks: Seq<Seq<u8>>) -> (Seq<Seq<u8>>, Seq<u8>)
    decreases chunks.len(),
{
    if chunks.len() == 0 {
        (Seq::<Seq<u8>>::empty(), acc)
    } else {
        let first = line_split(acc + chunks[0]);
        let rest = feed_chunks(first.1, chunks.drop_first());
        (first.0 + rest.0, rest.1)
    }
}

proof fn lemma_feed_chunks_flatten(acc: Seq<u8>, chunks: Seq<Seq<u8>>)
    requires
        first_crlf(acc) == -1,
    ensures
        feed_chunks(acc, chunks).0 == line_split(acc + flatten_chunks(chunks)).0,
        feed_chunks(acc, chunks).1 == line_split(acc + flatten_chunks(chunks)).1,
    decreases chunks.len(),
{
    lemma_first_crlf_from(acc, 0);
    if chunks.len() == 0 {
        assert(acc + flatten_chunks(chunks) =~= acc);
        assert(feed_chunks(acc, chunks).0 =~= line_split(acc).0);
    } else {
        let c0 = chunks[0];
        let first = line_split(acc + c0);
        lemma_line_split_rest_no_crlf(acc + c0);
        lemma_feed_chunks_flatten(first.1, chunks.drop_first());
        lemma_line_split_resumes(acc + c0, flatten_chunks(chunks.drop_first()));
        assert(acc + flatten_chunks(chunks) =~= (acc + c0) + flatten_chunks(
            chunks.drop_first(),
        ));
        let tail = line_split(first.1 + flatten_chunks(chunks.drop_first()));
        assert(line_split(acc + flatten_chunks(chunks)).0 =~= first.0 + tail.0);
        assert(feed_chunks(acc, chunks).0 =~= first.0 + tail.0);
    }
}

/// Law: feeding a byte stream to the line decoder in arbitrarily small
/// chunks yields the same ordered lines, and the same remainder, as feeding
/// it whole.
pub proof fn lemma_line_decode_chunked(chunks: Seq<Seq<u8>>)
    ensures
        feed_chunks(Seq::<u8>::empty(), chunks).0 == line_split(flatten_chunks(chunks)).0,
        feed_chunks(Seq::<u8>::empty(), chunks).1 == line_split(flatten_chunks(chunks)).1,
{
    lemma_first_crlf_from(Seq::<u8>::empty(), 0);
    lemma_feed_chunks_flatten(Seq::<u8>::empty(), chunks);
    assert(Seq::<u8>::empty() + flatten_chunks(chunks) =~= flatten_chunks(chunks));
}

/// Law: for content without a CR LF anywhere in it, appending the terminator
/// and decoding yields exactly that one line and an empty remainder.
pub proof fn lemma_encode_then_decode(c: Seq<u8>)
    requires
        c.len() > 0,
        forall|i: int| !crlf_at(c, i),
    ensures
        line_split(c + seq![13u8, 10u8]).0 == seq![c],
        line_split(c + seq![13u8, 10u8]).1 == Seq::<u8>::empty(),
{
    let s = c + seq![13u8, 10u8];
    lemma_first_crlf_from(s, 0);
    assert(crlf_at(s, c.len() as int));
    assert forall|j: int| 0 <= j < c.len() implies !crlf_at(s, j) by {
        if j < c.len() - 1 {
            assert(s[j] == c[j]);
            assert(s[j + 1] == c[j + 1]);
            assert(!crlf_at(c, j));
        } else {
            assert(s[j + 1] == 13u8);
        }
    }
    assert(first_crlf(s) == c.len());
    assert(s.take(c.len() as int) =~= c);
    assert(s.skip(c.len() as int + 2) =~= Seq::<u8>::empty());
    lemma_first_crlf_from(Seq::<u8>::empty(), 0);
    assert(line_split(Seq::<u8>::empty()) == (Seq::<Seq<u8>>::empty(), Seq::<u8>::empty()));
    assert(line_split(s).0 =~= seq![c]);
}

/// Law: an empty extraction is dropped and scanning goes on: a terminator at
/// the head of the buffer yields no line at all.
pub proof fn lemma_empty_extraction_skipped(rest: Seq<u8>)
    ensures
        line_split(seq![13u8, 10u8] + rest) == line_split(rest),
{
    let s = seq![13u8, 10u8] + rest;
    lemma_first_crlf_from(s, 0);
    assert(crlf_at(s, 0));
    assert(first_crlf(s) == 0);
    assert(s.take(0) =~= Seq::<u8>::empty());
    assert(s.skip(2) =~= rest);
}

/// The payload length a binary frame header declares: a big-endian 16-bit
/// value over the first two bytes.
pub open spec fn bin_header_len(s: Seq<u8>) -> int {
    (s[0] as int) * 256 + (s[1] as int)
}

pub open spec fn bin_msgs_prepend(
    ms: Seq<(PacketType, Seq<char>)>,
    r: Result<(Seq<(PacketType, Seq<char>)>, Seq<u8>), PacketError>,
) -> Result<(Seq<(PacketType, Seq<char>)>, Seq<u8>), PacketError> {
    match r {
        Ok(p) => Ok((ms + p.0, p.1)),
        Err(e) => Err(e),
    }
}

/// The binary framing: each frame is a 2-byte big-endian length, a version
/// byte and an operation byte, then `length - 2` payload bytes. A zero or
/// oversized length and an unknown version are fatal, as is a length of one,
/// which leaves no room for the operation byte; a frame whose declared
/// length exceeds what is buffered pauses the decode; an unknown operation
/// drops that record silently.
pub open spec fn bin_split(s: Seq<u8>) -> Result<
    (Seq<(PacketType, Seq<char>)>, Seq<u8>),
    PacketError,
>
    decreases s.len(),
{
    if s.len() <= 2 {
        Ok((Seq::<(PacketType, Seq<char>)>::empty(), s))
    } else {
        let len = bin_header_len(s);
        if len == 0 || len >= 8192 {
            Err(PacketError::ProtocolError)
        } else if len > s.len() - 2 {
            Ok((Seq::<(PacketType, Seq<char>)>::empty(), s))
        } else {
            let frame = s.subrange(2, 2 + len);
            let rest = s.skip(2 + len);
            if frame[0] != 1u8 {
                Err(PacketError::UnSupportVersion)
            } else if len < 2 {
                Err(PacketError::ProtocolError)
            } else {
                match spec_type_from_u8(frame[1]) {
                    None => bin_split(rest),
                    Some(op) => {
                        if !vstd::utf8::valid_utf8(frame.skip(2)) {
                            Err(PacketError::TransformFailed)
                        } else {
                            bin_msgs_prepend(
                                seq![(op, vstd::utf8::decode_utf8(frame.skip(2)))],
                                bin_split(rest),
                            )
                        }
                    },
                }
            }
        }
    }
}

/// Law: the binary decoder is resumable. When a decode paused without error
/// (a declared length exceeded the buffered bytes), feeding further bytes
/// after the kept remainder decodes the later frames with the earlier ones
/// unchanged; in particular a paused frame succeeds once its bytes arrive.
pub proof fn lemma_bin_decode_resumes(s: Seq<u8>, t: Seq<u8>)
    requires
        bin_split(s) is Ok,
    ensures
        bin_split(s + t) == bin_msgs_prepend(
            bin_split(s)->Ok_0.0,
            bin_split(bin_split(s)->Ok_0.1 + t),
        ),
    decreases s.len(),
{
    if s.len() <= 2 {
        assert(s + t == bin_split(s)->Ok_0.1 + t);
        match bin_split(s + t) {
            Ok(p) => {
                assert(bin_split(s)->Ok_0.0 + p.0 =~= p.0);
            },
            Err(_) => {},
        }
    } else {
        let len = bin_header_len(s);
        assert((s + t).len() > 2);
        assert((s + t)[0] == s[0] && (s + t)[1] == s[1]);
        assert(bin_header_len(s + t) == len);
        if len > s.len() - 2 {
            assert(bin_split(s)->Ok_0.1 == s);
            match bin_split(s + t) {
                Ok(p) => {
                    assert(bin_split(s)->Ok_0.0 + p.0 =~= p.0);
                },
                Err(_) => {},
            }
        } else {
            let frame = s.subrange(2, 2 + len);
            let rest = s.skip(2 + len);
            assert((s + t).subrange(2, 2 + len) =~= frame);
            assert((s + t).skip(2 + len) =~= rest + t);
            match spec_type_from_u8(frame[1]) {
                None => {
                    lemma_bin_decode_resumes(rest, t);
                },
                Some(op) => {
                    lemma_bin_decode_resumes(rest, t);
                    let x = (op, vstd::utf8::decode_utf8(frame.skip(2)));
                    match bin_split(rest) {
                        Ok(pr) => {
                            match bin_split(pr.1 + t) {
                                Ok(q) => {
                                    assert(seq![x] + (pr.0 + q.0) =~= (seq![x] + pr.0) + q.0);
                                },
                                Err(_) => {},
                            }
                        },
                        Err(_) => {},
                    }
                },
            }
        }
    }
}

/// A complete binary frame is buffered, judged without consuming bytes.
pub open spec fn spec_check(v: Seq<u8>) -> bool {
    v.len() >= 2 && bin_header_len(v) <= v.len() - 2
}

/// A packet as the binary decoder emits it, from one recognised frame.
pub open spec fn bin_packet_ok(p: Packet, m: (PacketType, Seq<char>)) -> bool {
    &&& p.version is V1
    &&& p.operation == m.0
    &&& p.id == 0
    &&& p.user_id == 0
    &&& p.username is None
    &&& p.msg matches Some(t) && t@ == m.1
    &&& p.time.wf()
}

pub open spec fn digit_char(d: int) -> char {
    if d == 0 {
        '0'
    } else if d == 1 {
        '1'
    } else if d == 2 {
        '2'
    } else if d == 3 {
        '3'
    } else if d == 4 {
        '4'
    } else if d == 5 {
        '5'
    } else if d == 6 {
        '6'
    } else if d == 7 {
        '7'
    } else if d == 8 {
        '8'
    } else {
        '9'
    }
}

/// A time of day rendered as `HH:MM:SS`, two digits a field.
pub open spec fn time_chars(t: ClockTime) -> Seq<char> {
    seq![
        digit_char((t.hour as int / 10) % 10),
        digit_char(t.hour as int % 10),
        ':',
        digit_char((t.minute as int / 10) % 10),
        digit_char(t.minute as int % 10),
        ':',
        digit_char((t.second as int / 10) % 10),
        digit_char(t.second as int % 10),
    ]
}

fn digit_str(d: u8) -> (r: &'static str)
    requires
        d < 10,
    ensures
        r@ == seq![digit_char(d as int)],
{
    let r: &'static str = match d {
        0 => "0",
        1 => "1",
        2 => "2",
        3 => "3",
        4 => "4",
        5 => "5",
        6 => "6",
        7 => "7",
        8 => "8",
        _ => "9",
    };
    proof {
        reveal_strlit("0");
        reveal_strlit("1");
        reveal_strlit("2");
        reveal_strlit("3");
        reveal_strlit("4");
        reveal_strlit("5");
        reveal_strlit("6");
        reveal_strlit("7");
        reveal_strlit("8");
        reveal_strlit("9");
        assert(r@ =~= seq![digit_char(d as int)]);
    }
    r
}

/// A packet as the line decoder emits it, from one extracted chunk.
pub open spec fn line_packet_ok(p: Packet, bytes: Seq<u8>) -> bool {
    &&& p.version is V1
    &&& p.operation is Message
    &&& p.id == 0
    &&& p.user_id == 0
    &&& p.username is None
    &&& p.msg matches Some(t) && t@ == lossy_utf8(bytes)
    &&& p.time.wf()
}

impl Packet {
    /// Scan the buffer for CR LF terminated lines: each complete, non-empty
    /// line becomes one Packet with its text decoded leniently; the bytes
    /// after the last terminator stay for the next call.
    #[inline]
    pub fn unmarshal_from_line(b: &mut BytesMut) -> (r: Result<Vec<Self>, PacketError>)
        ensures
            r is Ok,
            bytes_view(*final(b)) == line_split(bytes_view(*old(b))).1,
            (r matches Ok(list) ==> {
                let msgs = line_split(bytes_view(*old(b))).0;
                &&& list@.len() == msgs.len()
                &&& forall|i: int|
                    0 <= i < msgs.len() ==> line_packet_ok(#[trigger] list@[i], msgs[i])
            }),
    {
        let ghost v0 = bytes_view(*old(b));
        let mut list: Vec<Packet> = Vec::new();
        let mut idx: usize = 1;
        let ghost mut emitted: Seq<Seq<u8>> = Seq::<Seq<u8>>::empty();
        proof {
            assert(line_split(v0).0 =~= emitted + line_split(v0).0);
        }
        while idx < buf_len(b)
            invariant
                1 <= idx,
                idx <= bytes_view(*b).len() + 1,
                line_split(v0).0 == emitted + line_split(bytes_view(*b)).0,
                line_split(v0).1 == line_split(bytes_view(*b)).1,
                list@.len() == emitted.len(),
                forall|i: int|
                    0 <= i < emitted.len() ==> line_packet_ok(#[trigger] list@[i], emitted[i]),
                forall|j: int| 0 <= j < idx - 1 ==> !crlf_at(bytes_view(*b), j),
            decreases bytes_view(*b).len() + 1 - idx,
        {
            let c1 = buf_get(b, idx - 1);
            let c2 = buf_get(b, idx);
            if c1 == 13u8 && c2 == 10u8 {
                let ghost vc = bytes_view(*b);
                proof {
                    assert(crlf_at(vc, idx - 1));
                    lemma_first_crlf_from(vc, 0);
                    assert(first_crlf(vc) == idx - 1);
                }
                let data = buf_split_to(b, idx - 1);
                buf_advance(b, 2);
                proof {
                    assert(bytes_view(*b) =~= vc.skip(idx + 1));
                    assert(data@ =~= vc.take(idx - 1));
                }
                if data.len() == 0 {
                    proof {
                        assert(line_split(vc) == line_split(vc.skip(idx + 1)));
                    }
                    idx = 1;
                } else {
                    let mut p = Packet::new();
                    p.msg = Some(lossy_to_string(data.as_slice()));
                    list.push(p);
                    proof {
                        let rest = line_split(vc.skip(idx + 1));
                        assert(line_split(vc) == (seq![data@] + rest.0, rest.1));
                        emitted = emitted.push(data@);
                        assert(line_split(v0).0 =~= emitted + rest.0);
                    }
                    idx = 1;
                }
            } else {
                proof {
                    assert(!crlf_at(bytes_view(*b), idx - 1));
                }
                idx += 1;
            }
        }
        proof {
            let vc = bytes_view(*b);
            lemma_first_crlf_from(vc, 0);
            assert(forall|j: int| 0 <= j ==> !crlf_at(vc, j)) by {
                assert(forall|j: int| idx - 1 <= j ==> !crlf_at(vc, j));
            }
            assert(first_crlf(vc) == -1);
            assert(line_split(v0).0 =~= emitted);
        }
        Ok(list)
    }

    /// Drain every complete binary frame from the buffer, emitting one
    /// Packet per recognised frame, in order; on a framing violation the
    /// matching error comes back and the connection is expected to close.
    #[inline]
    pub fn unmarshal_from_byte(b: &mut BytesMut) -> (r: Result<Vec<Self>, PacketError>)
        ensures
            (r matches Ok(list) ==> bin_split(bytes_view(*old(b))) matches Ok(p) && {
                &&& bytes_view(*final(b)) == p.1
                &&& list@.len() == p.0.len()
                &&& forall|i: int| 0 <= i < p.0.len() ==> bin_packet_ok(#[trigger] list@[i], p.0[i])
            }),
            (r matches Err(e) ==> bin_split(bytes_view(*old(b))) matches Err(e2) && e == e2),
    {
        let ghost v0 = bytes_view(*old(b));
        let mut list: Vec<Packet> = Vec::new();
        let ghost mut emitted: Seq<(PacketType, Seq<char>)> = Seq::<(PacketType, Seq<char>)>::empty();
        proof {
            assert(emitted + bin_split(v0)->Ok_0.0 =~= bin_split(v0)->Ok_0.0);
        }
        while buf_len(b) > 2
            invariant
                v0 == bytes_view(*old(b)),
                bin_msgs_prepend(emitted, bin_split(bytes_view(*b))) == bin_split(v0),
                list@.len() == emitted.len(),
                forall|i: int|
                    0 <= i < emitted.len() ==> bin_packet_ok(#[trigger] list@[i], emitted[i]),
            decreases bytes_view(*b).len(),
        {
            let ghost vc = bytes_view(*b);
            let b0 = buf_get(b, 0);
            let b1 = buf_get(b, 1);
            let length: usize = (b0 as usize) * 256 + (b1 as usize);
            proof {
                assert(bin_header_len(vc) == length);
            }
            if length == 0 {
                proof {
                    assert(bin_split(vc) == Err::<(Seq<(PacketType, Seq<char>)>, Seq<u8>), PacketError>(PacketError::ProtocolError));
                }
                return Err(PacketError::ProtocolError);
            }
            if length >= 8192 {
                proof {
                    assert(bin_split(vc) == Err::<(Seq<(PacketType, Seq<char>)>, Seq<u8>), PacketError>(PacketError::ProtocolError));
                }
                return Err(PacketError::ProtocolError);
            }
            let blen = buf_len(b);
            if length > blen - 2 {
                proof {
                    assert(bin_split(vc) == Ok::<(Seq<(PacketType, Seq<char>)>, Seq<u8>), PacketError>((Seq::<(PacketType, Seq<char>)>::empty(), vc)));
                    match bin_split(vc) {
                        Ok(p) => {
                            assert(emitted + p.0 =~= emitted);
                        },
                        Err(_) => {},
                    }
                }
                return Ok(list);
            }
            buf_advance(b, 2);
            let frame = buf_split_to(b, length);
            proof {
                assert(frame@ =~= vc.subrange(2, 2 + length));
                assert(bytes_view(*b) =~= vc.skip(2 + length));
            }
            match PacketVersion::from_u8(frame[0]) {
                None => {
                    proof {
                        assert(frame@[0] != 1u8);
                        assert(bin_split(vc) == Err::<(Seq<(PacketType, Seq<char>)>, Seq<u8>), PacketError>(PacketError::UnSupportVersion));
                    }
                    return Err(PacketError::UnSupportVersion);
                },
                Some(_) => {},
            }
            proof {
                assert(frame@[0] == 1u8);
            }
            if frame.len() < 2 {
                proof {
                    assert(length < 2);
                    assert(bin_split(vc) == Err::<(Seq<(PacketType, Seq<char>)>, Seq<u8>), PacketError>(PacketError::ProtocolError));
                }
                return Err(PacketError::ProtocolError);
            }
            match PacketType::from_u8(frame[1]) {
                None => {
                    // unknown operation: the record is dropped silently
                    proof {
                        assert(bin_split(vc) == bin_split(vc.skip(2 + length as int)));
                        assert(bytes_view(*b) == vc.skip(2 + length as int));
                        assert(bin_msgs_prepend(emitted, bin_split(bytes_view(*b))) == bin_split(v0));
                    }
                },
                Some(op) => {
                    let ghost gop = op;
                    let payload = vstd::slice::slice_to_vec(
                        vstd::slice::slice_subrange(frame.as_slice(), 2, frame.len()),
                    );
                    proof {
                        assert(payload@ =~= frame@.skip(2));
                    }
                    match utf8_to_string(payload) {
                        None => {
                            proof {
                                assert(bin_split(vc) == Err::<(Seq<(PacketType, Seq<char>)>, Seq<u8>), PacketError>(PacketError::TransformFailed));
                            }
                            return Err(PacketError::TransformFailed);
                        },
                        Some(text) => {
                            let mut p = Packet::new();
                            p.operation = op;
                            p.msg = Some(text);
                            list.push(p);
                            proof {
                                assert(bin_split(vc) == bin_msgs_prepend(
                                    seq![(gop, vstd::utf8::decode_utf8(frame@.skip(2)))],
                                    bin_split(vc.skip(2 + length as int)),
                                ));
                                let em0 = emitted;
                                emitted = emitted.push(
                                    (gop, vstd::utf8::decode_utf8(frame@.skip(2))),
                                );
                                match bin_split(bytes_view(*b)) {
                                    Ok(pr) => {
                                        assert(em0 + (seq![
                                            (gop, vstd::utf8::decode_utf8(frame@.skip(2))),
                                        ] + pr.0) =~= emitted + pr.0);
                                    },
                                    Err(_) => {},
                                }
                                assert(bytes_view(*b) == vc.skip(2 + length as int));
                                assert(bin_msgs_prepend(emitted, bin_split(bytes_view(*b))) == bin_split(v0));
                            }
                        },
                    }
                },
            }
        }
        proof {
            match bin_split(bytes_view(*b)) {
                Ok(p) => {
                    assert(emitted + p.0 =~= emitted);
                },
                Err(_) => {},
            }
        }
        Ok(list)
    }

    /// Judge, without consuming any bytes, whether a complete binary frame
    /// is already buffered.
    #[inline]
    pub fn check(b: &BytesMut) -> (r: bool)
        ensures
            r == spec_check(bytes_view(*b)),
    {
        let len = buf_len(b);
        if len < 2 {
            return false;
        }
        let b0 = buf_get(b, 0);
        let b1 = buf_get(b, 1);
        let length: usize = (b0 as usize) * 256 + (b1 as usize);
        length <= len - 2
    }

    #[inline]
    pub fn new() -> (r: Self)
        ensures
            r.version is V1,
            r.operation is Message,
            r.id == 0,
            r.user_id == 0,
            r.username is None,
            r.msg is None,
            r.time.wf(),
    {
        Packet {
            version: PacketVersion::V1,
            operation: PacketType::Message,
            id: 0,
            user_id: 0,
            username: None,
            time: clock_now(),
            msg: None,
        }
    }

    #[inline]
    pub fn set_user_profile(&mut self, uid: u64, username: String)
        ensures
            final(self).user_id == uid,
            final(self).username matches Some(u) && u@ == username@,
            final(self).version == old(self).version,
            final(self).operation == old(self).operation,
            final(self).id == old(self).id,
            final(self).time == old(self).time,
            final(self).msg == old(self).msg,
    {
        self.user_id = uid;
        self.username = Some(username);
    }

    /// Render the packet's receive time as `HH:MM:SS`.
    #[inline]
    pub fn get_time_format(&self) -> (r: String)
        ensures
            r@ == time_chars(self.time),
    {
        let mut s = String::new();
        s.append(digit_str((self.time.hour / 10) % 10));
        s.append(digit_str(self.time.hour % 10));
        s.append(":");
        s.append(digit_str((self.time.minute / 10) % 10));
        s.append(digit_str(self.time.minute % 10));
        s.append(":");
        s.append(digit_str((self.time.second / 10) % 10));
        s.append(digit_str(self.time.second % 10));
        proof {
            reveal_strlit(":");
            assert(s@ =~= time_chars(self.time));
        }
        s
    }

    #[inline]
    pub fn get_user_profile(&self) -> (r: (u64, Option<String>))
        ensures
            r.0 == self.user_id,
            r.1 is Some <==> self.username is Some,
            r.1 matches Some(u) ==> self.username matches Some(su) && u@ == su@,
    {
        let name = match &self.username {
            Some(s) => Some(s.clone()),
            None => None,
        };
        (self.user_id, name)
    }
}

} // verus!
