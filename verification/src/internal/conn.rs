use vstd::prelude::*;
use vstd::string::StringExecFns;

use bytes::BytesMut;
use tokio::sync::broadcast::Receiver;
use tokio::sync::broadcast::Sender;

use crate::internal::bus::bus_publish;
use crate::internal::bus::bus_subscribe;
use crate::internal::bus::bus_try_recv;
use crate::internal::bus::BusPoll;
use crate::internal::bytebuf::buf_clear;
use crate::internal::bytebuf::buf_get;
use crate::internal::bytebuf::buf_len;
use crate::internal::bytebuf::buf_new;
use crate::internal::bytebuf::buf_put_slice;
use crate::internal::bytebuf::buf_split_to;
use crate::internal::bytebuf::bytes_view;
use crate::internal::clock::clock_now;
use crate::internal::clock::random_name;
use crate::internal::clock::session_id_from_clock;
use crate::internal::clock::ClockTime;
use crate::internal::packet::line_split;
use crate::internal::packet::line_packet_ok;
use crate::internal::packet::lossy_utf8;
use crate::internal::packet::time_chars;
use crate::internal::packet::Packet;
use crate::internal::packet::PacketError;

verus! {

/// How a peer frames its bytes: `Client` is the length-prefixed binary
/// protocol, `Stream` the plain text lines.
#[derive(Debug)]
pub enum NetModel {
    Client,
    Stream,
}

/// Where a session stands in its life.
#[derive(Debug, Clone, Copy, PartialEq, Eq, Structural)]
pub enum SessionPhase {
    Handshake,
    Relaying,
    Closed,
}

/// The prompts a session writes during its handshake.
#[derive(Debug, Clone, Copy, PartialEq, Eq, Structural)]
pub enum PromptKind {
    Greeting,
    Retry,
    InvalidName,
    InvalidUtf8,
    Success,
}

/// What a handshake step asks of its driver.
#[derive(Debug, Clone, Copy, PartialEq, Eq, Structural)]
pub enum HandshakeStep {
    /// Not a full line yet: keep reading.
    KeepReading,
    /// Write this prompt and stay in the handshake.
    Reprompt(PromptKind),
    /// The name is set: write the success prompt and start relaying.
    Completed,
}

/// What a relaying step asks of its driver.
#[derive(Debug)]
pub enum RelayOutcome {
    /// Nothing was pending.
    Idle,
    /// The message came from this very session: say nothing.
    Discard,
    /// Write these bytes to the peer.
    Deliver(Vec<u8>),
    /// Delivery is not defined for this framing mode: do nothing.
    Skip,
    /// Stop relaying and close the session.
    Stop,
}

/// What handling freshly read socket bytes asks of the driver.
#[derive(Debug, Clone, Copy, PartialEq, Eq, Structural)]
pub enum SocketOutcome {
    /// Keep the session going.
    Proceed,
    /// Stop relaying and close the session.
    Stop,
}

/// One message from the bus, or the way the subscription ended.
pub enum BusEvent {
    Msg(Packet),
    Lagged(u64),
    Closed,
}

pub struct ConnStats {
    pub id: u64,
    pub peer: String,
    pub read_buf: BytesMut,
    pub write_buf: BytesMut,
    pub chat_send_ch: Sender<Packet>,
    pub chat_recv_ch: Receiver<Packet>,
    pub nickname: String,
    pub login_time: ClockTime,
    pub net_model: Option<NetModel>,
    pub phase: SessionPhase,
}

pub open spec fn prompt_chars(k: PromptKind) -> Seq<char> {
    match k {
        PromptKind::Greeting => "\r\nplease set your name: \r\n"@,
        PromptKind::Retry => "retry set your name: \r\n"@,
        PromptKind::InvalidName => "Invalid username. retry set your name: \r\n"@,
        PromptKind::InvalidUtf8 => "Invalid UTF-8 sequence, retry set your name: \r\n"@,
        PromptKind::Success => "success! welcome \r\n"@,
    }
}

/// The bytes of one handshake prompt.
pub fn prompt_bytes(k: &PromptKind) -> (r: Vec<u8>)
    ensures
        r@ == vstd::utf8::encode_utf8(prompt_chars(*k)),
{
    let s: &str = match k {
        PromptKind::Greeting => "\r\nplease set your name: \r\n",
        PromptKind::Retry => "retry set your name: \r\n",
        PromptKind::InvalidName => "Invalid username. retry set your name: \r\n",
        PromptKind::InvalidUtf8 => "Invalid UTF-8 sequence, retry set your name: \r\n",
        PromptKind::Success => "success! welcome \r\n",
    };
    vstd::slice::slice_to_vec(s.as_bytes())
}

/// The buffered line ends in CR LF.
pub open spec fn hs_term_ok(v: Seq<u8>) -> bool {
    v.len() >= 2 && v[v.len() - 2] == 13u8 && v[v.len() - 1] == 10u8
}

/// The line with its terminator dropped.
pub open spec fn hs_content(v: Seq<u8>) -> Seq<u8> {
    v.take(v.len() - 2)
}

/// The content opens with the 4-byte binary magic and has more behind it.
pub open spec fn hs_is_magic(c: Seq<u8>) -> bool {
    c.len() > 4 && c[0] == 0x78u8 && c[1] == 0x56u8 && c[2] == 0x56u8 && c[3] == 0x78u8
}

pub open spec fn hs_model(c: Seq<u8>) -> NetModel {
    if hs_is_magic(c) {
        NetModel::Client
    } else {
        NetModel::Stream
    }
}

/// The name payload: what follows the magic, or the whole content.
pub open spec fn hs_name_bytes(c: Seq<u8>) -> Seq<u8> {
    if hs_is_magic(c) {
        c.skip(4)
    } else {
        c
    }
}

/// The fields a handshake step never touches.
pub open spec fn hs_static_unchanged(pre: ConnStats, post: ConnStats) -> bool {
    &&& post.id == pre.id
    &&& post.peer == pre.peer
    &&& post.write_buf == pre.write_buf
    &&& post.chat_send_ch == pre.chat_send_ch
    &&& post.chat_recv_ch == pre.chat_recv_ch
    &&& post.login_time == pre.login_time
}

/// What one bus event means for a session: the whole relaying decision,
/// pinned for every event. A message bearing the session's own identity is
/// discarded; another session's message is rendered for a text-mode peer,
/// provided it carries its sender, and is otherwise a fatal surprise; the
/// binary mode has no delivery; a lagged or closed subscription stops the
/// relay.
pub open spec fn relay_decision_ok(s: ConnStats, ev: BusEvent, r: RelayOutcome) -> bool {
    match ev {
        BusEvent::Msg(m) => {
            if m.user_id == s.id {
                r is Discard
            } else {
                match s.net_model {
                    Some(NetModel::Stream) => {
                        if m.username is Some && m.msg is Some {
                            r matches RelayOutcome::Deliver(out) && out@
                                == vstd::utf8::encode_utf8(
                                broadcast_line_chars(m.time, m.username->0@, m.msg->0@),
                            )
                        } else {
                            r is Stop
                        }
                    },
                    Some(NetModel::Client) => r is Skip,
                    None => r is Stop,
                }
            }
        },
        BusEvent::Lagged(_) => r is Stop,
        BusEvent::Closed => r is Stop,
    }
}

/// A packet as the session hands it to the bus: one decoded line, stamped
/// with the session's identity and display name.
pub open spec fn published_packet_ok(q: Packet, bytes: Seq<u8>, id: u64, name: Seq<char>) -> bool {
    &&& q.version is V1
    &&& q.operation is Message
    &&& q.user_id == id
    &&& q.username matches Some(u) && u@ == name
    &&& q.msg matches Some(t) && t@ == lossy_utf8(bytes)
    &&& q.time.wf()
}

/// The broadcast line a text-mode peer is shown for another session's
/// message.
pub open spec fn broadcast_line_chars(t: ClockTime, name: Seq<char>, text: Seq<char>) -> Seq<
    char,
> {
    seq!['[', 'b', 'r', 'o', 'a', 'd', 'c', 'a', 's', 't', ']', ' ', '['] + time_chars(t) + seq![
        ']',
        ' ',
        '[',
    ] + name + seq![']', ':', ' '] + text + seq!['\r', '\n']
}

/// Render one bus message as the text-mode broadcast line, CR LF included.
pub fn format_broadcast_line(m: &Packet) -> (r: Vec<u8>)
    requires
        m.username is Some,
        m.msg is Some,
    ensures
        (m.username matches Some(u) && m.msg matches Some(t) && r@ == vstd::utf8::encode_utf8(
            broadcast_line_chars(m.time, u@, t@),
        )),
{
    let mut s = String::new();
    s.append("[broadcast] [");
    let ts = m.get_time_format();
    s.append(ts.as_str());
    s.append("] [");
    match &m.username {
        Some(u) => s.append(u.as_str()),
        None => {},
    }
    s.append("]: ");
    match &m.msg {
        Some(t) => s.append(t.as_str()),
        None => {},
    }
    s.append("\r\n");
    proof {
        reveal_strlit("[broadcast] [");
        reveal_strlit("] [");
        reveal_strlit("]: ");
        reveal_strlit("\r\n");
        match (&m.username, &m.msg) {
            (Some(u), Some(t)) => {
                assert(s@ =~= broadcast_line_chars(m.time, u@, t@));
            },
            _ => {},
        }
    }
    vstd::slice::slice_to_vec(s.as_str().as_bytes())
}

impl ConnStats {
    /// Build a session bound to the given bus and peer: it keeps the given
    /// sender, owns a fresh subscription taken from it by this very call,
    /// and waits in the handshake phase with empty buffers, a clock-derived
    /// identity and a placeholder nickname.
    pub fn with_param(peer: String, ch: Sender<Packet>) -> (r: ConnStats)
        ensures
            r.phase is Handshake,
            r.net_model is None,
            r.peer@ == peer@,
            r.chat_send_ch == ch,
            bytes_view(r.read_buf) == Seq::<u8>::empty(),
            bytes_view(r.write_buf) == Seq::<u8>::empty(),
            r.login_time.wf(),
    {
        let rc = bus_subscribe(&ch);
        ConnStats {
            id: session_id_from_clock(),
            peer,
            read_buf: buf_new(),
            write_buf: buf_new(),
            chat_send_ch: ch,
            chat_recv_ch: rc,
            nickname: random_name(),
            login_time: clock_now(),
            net_model: None,
            phase: SessionPhase::Handshake,
        }
    }

    /// Append freshly read socket bytes to the session's read buffer.
    pub fn feed_bytes(&mut self, data: &[u8])
        ensures
            bytes_view(final(self).read_buf) == bytes_view(old(self).read_buf) + data@,
            final(self).id == old(self).id,
            final(self).peer == old(self).peer,
            final(self).write_buf == old(self).write_buf,
            final(self).chat_send_ch == old(self).chat_send_ch,
            final(self).chat_recv_ch == old(self).chat_recv_ch,
            final(self).nickname == old(self).nickname,
            final(self).login_time == old(self).login_time,
            final(self).net_model == old(self).net_model,
            final(self).phase == old(self).phase,
    {
        buf_put_slice(&mut self.read_buf, data);
    }

    /// One handshake decision over whatever is buffered; the driver reads
    /// first and writes the prompt the result names.
    pub fn handshake_step(&mut self) -> (r: HandshakeStep)
        requires
            old(self).phase is Handshake,
        ensures
            hs_static_unchanged(*old(self), *final(self)),
            ({
                let v = bytes_view(old(self).read_buf);
                let pre = *old(self);
                let post = *final(self);
                &&& (v.len() > 128 ==> {
                    &&& r == HandshakeStep::Reprompt(PromptKind::Retry)
                    &&& bytes_view(post.read_buf) == Seq::<u8>::empty()
                    &&& post.phase is Handshake
                    &&& post.nickname == pre.nickname
                    &&& post.net_model == pre.net_model
                })
                &&& (v.len() <= 128 && !hs_term_ok(v) ==> {
                    &&& r == HandshakeStep::KeepReading
                    &&& post == pre
                })
                &&& (v.len() <= 128 && hs_term_ok(v) && hs_content(v).len() == 0 ==> {
                    &&& r == HandshakeStep::Reprompt(PromptKind::InvalidName)
                    &&& bytes_view(post.read_buf) == Seq::<u8>::empty()
                    &&& post.phase is Handshake
                    &&& post.nickname == pre.nickname
                    &&& post.net_model == pre.net_model
                })
                &&& (v.len() <= 128 && hs_term_ok(v) && hs_content(v).len() > 0
                    && !vstd::utf8::valid_utf8(hs_name_bytes(hs_content(v))) ==> {
                    &&& r == HandshakeStep::Reprompt(PromptKind::InvalidUtf8)
                    &&& bytes_view(post.read_buf) == Seq::<u8>::empty()
                    &&& post.phase is Handshake
                    &&& post.nickname == pre.nickname
                    &&& post.net_model == Some(hs_model(hs_content(v)))
                })
                &&& (v.len() <= 128 && hs_term_ok(v) && hs_content(v).len() > 0
                    && vstd::utf8::valid_utf8(hs_name_bytes(hs_content(v))) ==> {
                    &&& r == HandshakeStep::Completed
                    &&& bytes_view(post.read_buf) == Seq::<u8>::empty()
                    &&& post.phase is Relaying
                    &&& post.nickname@ == vstd::utf8::decode_utf8(hs_name_bytes(hs_content(v)))
                    &&& post.net_model == Some(hs_model(hs_content(v)))
                })
            }),
    {
        let ghost v = bytes_view(old(self).read_buf);
        let len = buf_len(&self.read_buf);
        if len > 128 {
            buf_clear(&mut self.read_buf);
            return HandshakeStep::Reprompt(PromptKind::Retry);
        }
        if len < 2 {
            return HandshakeStep::KeepReading;
        }
        let c1 = buf_get(&self.read_buf, len - 2);
        let c2 = buf_get(&self.read_buf, len - 1);
        if !(c1 == 13u8 && c2 == 10u8) {
            return HandshakeStep::KeepReading;
        }
        if len == 2 {
            buf_clear(&mut self.read_buf);
            return HandshakeStep::Reprompt(PromptKind::InvalidName);
        }
        let content = buf_split_to(&mut self.read_buf, len - 2);
        buf_clear(&mut self.read_buf);
        proof {
            assert(content@ =~= hs_content(v));
        }
        let is_magic = content.len() > 4 && content[0] == 0x78u8 && content[1] == 0x56u8
            && content[2] == 0x56u8 && content[3] == 0x78u8;
        let name_bytes: Vec<u8> = if is_magic {
            self.net_model = Some(NetModel::Client);
            let tail = vstd::slice::slice_to_vec(
                vstd::slice::slice_subrange(content.as_slice(), 4, content.len()),
            );
            proof {
                assert(tail@ =~= hs_name_bytes(hs_content(v)));
            }
            tail
        } else {
            self.net_model = Some(NetModel::Stream);
            content
        };
        match crate::internal::packet::utf8_to_string(name_bytes) {
            None => HandshakeStep::Reprompt(PromptKind::InvalidUtf8),
            Some(name) => {
                self.nickname = name;
                self.phase = SessionPhase::Relaying;
                HandshakeStep::Completed
            },
        }
    }

    /// Decide what one bus event means for this session, exactly as
    /// `relay_decision_ok` pins it: its own messages are discarded, another
    /// session's message is rendered for a text-mode peer, and a lagged or
    /// closed subscription stops the relay.
    pub fn on_bus_event(&self, ev: BusEvent) -> (r: RelayOutcome)
        ensures
            !(r is Idle),
            relay_decision_ok(*self, ev, r),
            (ev matches BusEvent::Msg(m) ==> (m.user_id == self.id ==> r is Discard)),
            (r is Deliver ==> self.net_model is Some && self.net_model->0 is Stream),
    {
        match ev {
            BusEvent::Msg(m) => {
                if m.user_id == self.id {
                    return RelayOutcome::Discard;
                }
                match &self.net_model {
                    Some(NetModel::Stream) => {
                        let ok = match (&m.username, &m.msg) {
                            (Some(_), Some(_)) => true,
                            _ => false,
                        };
                        if !ok {
                            // a bus packet always carries its sender; a bare
                            // one ends the relay rather than panicking
                            return RelayOutcome::Stop;
                        }
                        RelayOutcome::Deliver(format_broadcast_line(&m))
                    },
                    Some(NetModel::Client) => {
                        // binary-mode delivery is an open extension point
                        RelayOutcome::Skip
                    },
                    None => RelayOutcome::Stop,
                }
            },
            BusEvent::Lagged(_) => RelayOutcome::Stop,
            BusEvent::Closed => RelayOutcome::Stop,
        }
    }

    /// Poll this session's subscription once and decide on what came: the
    /// result is either nothing pending, or the relaying decision for some
    /// bus event, exactly as `relay_decision_ok` pins it.
    pub fn step_bus(&mut self) -> (r: RelayOutcome)
        ensures
            final(self).id == old(self).id,
            final(self).peer == old(self).peer,
            final(self).read_buf == old(self).read_buf,
            final(self).write_buf == old(self).write_buf,
            final(self).chat_send_ch == old(self).chat_send_ch,
            final(self).nickname == old(self).nickname,
            final(self).login_time == old(self).login_time,
            final(self).net_model == old(self).net_model,
            final(self).phase == old(self).phase,
            r is Idle || (exists|ev: BusEvent|
                #[trigger] relay_decision_ok(*old(self), ev, r)),
            (r is Deliver ==> old(self).net_model is Some && old(self).net_model->0 is Stream),
    {
        let ev = match bus_try_recv(&mut self.chat_recv_ch) {
            BusPoll::Empty => {
                return RelayOutcome::Idle;
            },
            BusPoll::Msg(p) => BusEvent::Msg(p),
            BusPoll::Lagged(n) => BusEvent::Lagged(n),
            BusPoll::Closed => BusEvent::Closed,
        };
        let ghost gev = ev;
        let r = self.on_bus_event(ev);
        proof {
            assert(relay_decision_ok(*old(self), gev, r));
        }
        r
    }

    /// Handle bytes that just arrived from the socket while relaying: in
    /// text mode every complete line is stamped with this session's
    /// identity and display name and published to the bus, in order; the
    /// second component records the packets the bus accepted, a prefix of
    /// the decoded lines that is all of them exactly when the result says
    /// to proceed. The binary path stays an inert extension point.
    pub fn on_socket_bytes(&mut self) -> (r: (SocketOutcome, Ghost<Seq<Packet>>))
        requires
            old(self).phase is Relaying,
        ensures
            final(self).id == old(self).id,
            final(self).peer == old(self).peer,
            final(self).write_buf == old(self).write_buf,
            final(self).chat_send_ch == old(self).chat_send_ch,
            final(self).chat_recv_ch == old(self).chat_recv_ch,
            final(self).nickname == old(self).nickname,
            final(self).login_time == old(self).login_time,
            final(self).net_model == old(self).net_model,
            final(self).phase == old(self).phase,
            (old(self).net_model is Some && old(self).net_model->0 is Stream ==> {
                let msgs = line_split(bytes_view(old(self).read_buf)).0;
                &&& bytes_view(final(self).read_buf) == line_split(
                    bytes_view(old(self).read_buf),
                ).1
                &&& r.1@.len() <= msgs.len()
                &&& (forall|i: int|
                    0 <= i < r.1@.len() ==> published_packet_ok(
                        #[trigger] r.1@[i],
                        msgs[i],
                        old(self).id,
                        old(self).nickname@,
                    ))
                &&& (r.0 == SocketOutcome::Proceed <==> r.1@.len() == msgs.len())
            }),
            (!(old(self).net_model is Some && old(self).net_model->0 is Stream) ==> r.0
                == SocketOutcome::Stop && final(self).read_buf == old(self).read_buf && r.1@
                == Seq::<Packet>::empty()),
    {
        let is_stream = match &self.net_model {
            Some(NetModel::Stream) => true,
            Some(NetModel::Client) => false,
            None => false,
        };
        if !is_stream {
            // binary-mode ingest is unimplemented: the session closes
            return (SocketOutcome::Stop, Ghost(Seq::<Packet>::empty()));
        }
        match Packet::unmarshal_from_line(&mut self.read_buf) {
            Ok(list) => {
                let ghost msgs = line_split(bytes_view(old(self).read_buf)).0;
                let mut work = list;
                let ghost mut published: Seq<Packet> = Seq::<Packet>::empty();
                loop
                    invariant
                        self.id == old(self).id,
                        self.peer == old(self).peer,
                        self.write_buf == old(self).write_buf,
                        self.chat_send_ch == old(self).chat_send_ch,
                        self.chat_recv_ch == old(self).chat_recv_ch,
                        self.nickname == old(self).nickname,
                        self.login_time == old(self).login_time,
                        self.net_model == old(self).net_model,
                        self.phase == old(self).phase,
                        bytes_view(self.read_buf) == line_split(
                            bytes_view(old(self).read_buf),
                        ).1,
                        old(self).net_model is Some && old(self).net_model->0 is Stream,
                        msgs == line_split(bytes_view(old(self).read_buf)).0,
                        published.len() + work@.len() == msgs.len(),
                        forall|i: int|
                            0 <= i < work@.len() ==> line_packet_ok(
                                #[trigger] work@[i],
                                msgs[published.len() + i],
                            ),
                        forall|i: int|
                            0 <= i < published.len() ==> published_packet_ok(
                                #[trigger] published[i],
                                msgs[i],
                                old(self).id,
                                old(self).nickname@,
                            ),
                    ensures
                        self.id == old(self).id,
                        self.peer == old(self).peer,
                        self.write_buf == old(self).write_buf,
                        self.chat_send_ch == old(self).chat_send_ch,
                        self.chat_recv_ch == old(self).chat_recv_ch,
                        self.nickname == old(self).nickname,
                        self.login_time == old(self).login_time,
                        self.net_model == old(self).net_model,
                        self.phase == old(self).phase,
                        bytes_view(self.read_buf) == line_split(
                            bytes_view(old(self).read_buf),
                        ).1,
                        published.len() == msgs.len(),
                        msgs == line_split(bytes_view(old(self).read_buf)).0,
                        forall|i: int|
                            0 <= i < published.len() ==> published_packet_ok(
                                #[trigger] published[i],
                                msgs[i],
                                old(self).id,
                                old(self).nickname@,
                            ),
                    decreases work.len(),
                {
                    if work.len() == 0 {
                        break;
                    }
                    let ghost work0 = work@;
                    let mut m = work.remove(0);
                    proof {
                        assert(work@ =~= work0.skip(1));
                    }
                    m.set_user_profile(self.id, self.nickname.clone());
                    let ghost gm = m;
                    match bus_publish(&self.chat_send_ch, m) {
                        Ok(_) => {
                            proof {
                                published = published.push(gm);
                            }
                        },
                        Err(_) => {
                            // the bus is gone: what was accepted so far is a
                            // strict prefix of the decoded lines
                            return (SocketOutcome::Stop, Ghost(published));
                        },
                    }
                }
                (SocketOutcome::Proceed, Ghost(published))
            },
            Err(e) => {
                // the line decoder's contract rules this out; the match
                // keeps the framing taxonomy: a pause waits for more bytes,
                // every other failure closes the session
                match e {
                    PacketError::NotEnoughBytes => (
                        SocketOutcome::Proceed,
                        Ghost(Seq::<Packet>::empty()),
                    ),
                    _ => (SocketOutcome::Stop, Ghost(Seq::<Packet>::empty())),
                }
            },
        }
    }

    /// Whether the read buffer already holds something the current framing
    /// mode could consume whole.
    #[inline]
    pub fn check_buf(&self) -> (r: bool)
        ensures
            r == (bytes_view(self.read_buf).len() > 0 && (match self.net_model {
                Some(NetModel::Client) => crate::internal::packet::spec_check(
                    bytes_view(self.read_buf),
                ),
                Some(NetModel::Stream) => true,
                None => false,
            })),
    {
        if buf_len(&self.read_buf) == 0 {
            return false;
        }
        match &self.net_model {
            Some(NetModel::Client) => Packet::check(&self.read_buf),
            Some(NetModel::Stream) => true,
            None => false,
        }
    }
}

} // verus!
