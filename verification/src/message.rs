//! Frames crossing the bridge between a TCP socket and a WebSocket.
//!
//! Only binary payloads are tunneled; every other kind of WebSocket frame is
//! consumed and discarded. The codec turns the raw TCP byte stream into such
//! frames and back, and [`bridge_step`] is the single decision the bridge
//! makes for every event one of its two endpoints produces. The unverified
//! shell pumps the two transports and obeys the returned action.

use vstd::prelude::*;

use crate::errors::{Error, TransportSide};

verus! {

/// One WebSocket frame as the bridge sees it: a binary payload to tunnel, or
/// anything else, which is discarded.
pub enum Message {
    Binary(Vec<u8>),
    Others,
}

/// Mathematical image of [`Message`].
pub ghost enum MessageView {
    Binary(Seq<u8>),
    Others,
}

impl View for Message {
    type V = MessageView;

    open spec fn view(&self) -> MessageView {
        match self {
            Message::Binary(d) => MessageView::Binary(d@),
            Message::Others => MessageView::Others,
        }
    }
}

/// What decoding a TCP read buffer yields: the frame, if any, and the buffer
/// that remains. A non-empty buffer becomes one binary frame holding all of
/// it; an empty buffer yields nothing.
pub open spec fn spec_decode(buf: Seq<u8>) -> (Option<MessageView>, Seq<u8>) {
    if buf.len() > 0 {
        (Some(MessageView::Binary(buf)), Seq::<u8>::empty())
    } else {
        (None, buf)
    }
}

/// What encoding a frame appends to the TCP write buffer: a binary frame's
/// payload verbatim, nothing for any other frame.
pub open spec fn spec_encode(m: MessageView, buf: Seq<u8>) -> Seq<u8> {
    match m {
        MessageView::Binary(d) => buf + d,
        MessageView::Others => buf,
    }
}

/// The codec between the raw TCP byte stream and [`Message`] frames.
#[derive(Clone, Copy, Debug, PartialEq, Eq, Structural)]
pub struct MessageCodec;

impl MessageCodec {
    /// Creates a new codec for shipping around raw bytes.
    pub fn new() -> (r: MessageCodec)
        ensures
            r == MessageCodec,
    {
        MessageCodec
    }

    /// Decodes the next frame from the TCP read buffer, draining it.
    pub fn decode(&mut self, buf: &mut Vec<u8>) -> (r: Result<Option<Message>, Error>)
        ensures
            r matches Ok(res) && (match res {
                Some(m) => spec_decode(old(buf)@).0 == Some(m@),
                None => spec_decode(old(buf)@).0 is None,
            }),
            final(buf)@ == spec_decode(old(buf)@).1,
    {
        if buf.len() > 0 {
            let mut taken: Vec<u8> = Vec::new();
            std::mem::swap(buf, &mut taken);
            Ok(Some(Message::Binary(taken)))
        } else {
            Ok(None)
        }
    }

    /// Encodes a frame onto the TCP write buffer.
    pub fn encode(&mut self, data: Message, buf: &mut Vec<u8>) -> (r: Result<(), Error>)
        ensures
            r is Ok,
            final(buf)@ == spec_encode(data@, old(buf)@),
    {
        match data {
            Message::Binary(d) => {
                let mut rest = d;
                buf.append(&mut rest);
                Ok(())
            }
            Message::Others => Ok(()),
        }
    }
}

/// One event seen by the bridge, from either of its two endpoints.
pub enum BridgeEvent {
    /// The WebSocket produced a frame.
    WsFrame(Message),
    /// The WebSocket reached end of stream.
    WsEnd,
    /// The WebSocket failed, on the given side's transport.
    WsError(TransportSide),
    /// The TCP socket delivered a non-empty chunk of bytes.
    TcpChunk(Vec<u8>),
    /// The TCP socket reached end of stream.
    TcpEnd,
    /// The TCP socket failed.
    TcpError,
}

/// What the bridge does in response to one event.
pub enum BridgeAction {
    /// Write these bytes to the TCP socket.
    SendTcp(Vec<u8>),
    /// Send this frame on the WebSocket.
    SendWs(Message),
    /// Consume the event and do nothing.
    Discard,
    /// Stop both directions; the bridge ended cleanly.
    StopOk,
    /// Stop both directions; the bridge failed with this error.
    StopErr(Error),
}

/// The bridge's single decision: forward binary payloads verbatim, discard
/// every other WebSocket frame, stop on end-of-stream, and stop with a
/// transport error tagged by the failing side on any failure.
pub fn bridge_step(ev: BridgeEvent) -> (r: BridgeAction)
    ensures
        ev matches BridgeEvent::WsFrame(m) ==> (m@ matches MessageView::Binary(d) ==> (
        r matches BridgeAction::SendTcp(out) && out@ == d)),
        ev matches BridgeEvent::WsFrame(m) ==> (m@ is Others ==> r is Discard),
        ev is WsEnd ==> r is StopOk,
        ev matches BridgeEvent::WsError(side) ==> r == BridgeAction::StopErr(
            Error::Transport(side),
        ),
        ev matches BridgeEvent::TcpChunk(b) ==> (r matches BridgeAction::SendWs(m) && m@
            == MessageView::Binary(b@)),
        ev is TcpEnd ==> r is StopOk,
        ev is TcpError ==> r == BridgeAction::StopErr(Error::Transport(TransportSide::Io)),
{
    match ev {
        BridgeEvent::WsFrame(Message::Binary(d)) => BridgeAction::SendTcp(d),
        BridgeEvent::WsFrame(Message::Others) => BridgeAction::Discard,
        BridgeEvent::WsEnd => BridgeAction::StopOk,
        BridgeEvent::WsError(side) => BridgeAction::StopErr(Error::Transport(side)),
        BridgeEvent::TcpChunk(b) => BridgeAction::SendWs(Message::Binary(b)),
        BridgeEvent::TcpEnd => BridgeAction::StopOk,
        BridgeEvent::TcpError => BridgeAction::StopErr(Error::Transport(TransportSide::Io)),
    }
}

/// Law: bytes crossing the bridge are preserved verbatim in both directions.
/// Encoding a binary frame onto an empty TCP buffer writes exactly its
/// payload; decoding a non-empty TCP buffer yields one binary frame holding
/// exactly those bytes and leaves the buffer empty; a non-binary frame
/// contributes nothing to the TCP stream.
pub proof fn lemma_bridge_preserves_bytes(b: Seq<u8>)
    requires
        b.len() > 0,
    ensures
        spec_encode(MessageView::Binary(b), Seq::<u8>::empty()) == b,
        spec_decode(b).0 == Some(MessageView::Binary(b)),
        spec_decode(b).1 == Seq::<u8>::empty(),
        spec_decode(spec_encode(MessageView::Binary(b), Seq::<u8>::empty())).0 == Some(
            MessageView::Binary(b),
        ),
        spec_encode(MessageView::Others, Seq::<u8>::empty()) == Seq::<u8>::empty(),
{
    assert(spec_encode(MessageView::Binary(b), Seq::<u8>::empty()) =~= b);
    assert(spec_encode(MessageView::Others, Seq::<u8>::empty()) =~= Seq::<u8>::empty());
}

/// The kinds of frame a WebSocket delivers, as plain values the shell
/// extracts from whichever WebSocket implementation it runs.
#[derive(Clone, Copy, Debug, PartialEq, Eq, Structural)]
pub enum FrameKind {
    Binary,
    Text,
    Ping,
    Pong,
    Close,
}

/// Classifies one incoming WebSocket frame for the bridge: only a binary
/// frame carries tunneled payload; a text, ping, pong or close frame is
/// `Others`, consumed and discarded, and never reaches the TCP side.
pub fn classify_frame(kind: FrameKind, payload: Vec<u8>) -> (r: Message)
    ensures
        kind is Binary ==> (r matches Message::Binary(d) && d@ == payload@),
        !(kind is Binary) ==> r is Others,
{
    match kind {
        FrameKind::Binary => Message::Binary(payload),
        FrameKind::Text => Message::Others,
        FrameKind::Ping => Message::Others,
        FrameKind::Pong => Message::Others,
        FrameKind::Close => Message::Others,
    }
}

/// The bytes one frame contributes to the TCP side: a binary payload
/// verbatim, nothing for any other frame.
pub open spec fn tcp_contribution(m: MessageView) -> Seq<u8> {
    match m {
        MessageView::Binary(d) => d,
        MessageView::Others => Seq::<u8>::empty(),
    }
}

/// The bytes the bridge writes to the TCP side over a whole sequence of
/// WebSocket frames, in arrival order.
pub open spec fn tcp_bytes_of(frames: Seq<MessageView>) -> Seq<u8>
    decreases frames.len(),
{
    if frames.len() == 0 {
        Seq::<u8>::empty()
    } else {
        tcp_bytes_of(frames.drop_last()) + tcp_contribution(frames.last())
    }
}

/// The frames the bridge sends to the WebSocket side over a whole sequence
/// of TCP chunks: one binary frame per chunk, verbatim and in order.
pub open spec fn ws_frames_of(chunks: Seq<Seq<u8>>) -> Seq<MessageView> {
    chunks.map_values(|c: Seq<u8>| MessageView::Binary(c))
}

/// The concatenation of a sequence of byte chunks, in order.
pub open spec fn concat_of(chunks: Seq<Seq<u8>>) -> Seq<u8>
    decreases chunks.len(),
{
    if chunks.len() == 0 {
        Seq::<u8>::empty()
    } else {
        concat_of(chunks.drop_last()) + chunks.last()
    }
}

/// Law (whole stream, TCP to WebSocket): over any sequence of TCP chunks,
/// the payloads of the binary frames the bridge sends, concatenated in
/// order, are exactly the bytes that were read — same length, same content.
pub proof fn lemma_stream_tcp_to_ws(chunks: Seq<Seq<u8>>)
    ensures
        ws_frames_of(chunks).len() == chunks.len(),
        tcp_bytes_of(ws_frames_of(chunks)) == concat_of(chunks),
    decreases chunks.len(),
{
    if chunks.len() > 0 {
        lemma_stream_tcp_to_ws(chunks.drop_last());
        let frames = ws_frames_of(chunks);
        assert(frames.drop_last() =~= ws_frames_of(chunks.drop_last()));
        assert(frames.last() == MessageView::Binary(chunks.last()));
    }
}

/// Law (whole stream, WebSocket to TCP): a non-binary frame contributes no
/// bytes to the TCP side — deleting it from the stream leaves the TCP
/// output unchanged, so the TCP output is the concatenation of exactly the
/// binary frames' payloads, in order.
pub proof fn lemma_stream_others_invisible(frames: Seq<MessageView>, i: int)
    requires
        0 <= i < frames.len(),
        frames[i] is Others,
    ensures
        tcp_bytes_of(frames.remove(i)) == tcp_bytes_of(frames),
    decreases frames.len(),
{
    if i == frames.len() - 1 {
        assert(frames.remove(i) =~= frames.drop_last());
        assert(tcp_contribution(frames.last()) =~= Seq::<u8>::empty());
        assert(tcp_bytes_of(frames.drop_last()) + Seq::<u8>::empty() =~= tcp_bytes_of(
            frames.drop_last(),
        ));
    } else {
        lemma_stream_others_invisible(frames.drop_last(), i);
        assert(frames.remove(i).drop_last() =~= frames.drop_last().remove(i));
        assert(frames.remove(i).last() == frames.last());
    }
}

} // verus!

