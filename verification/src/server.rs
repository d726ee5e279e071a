//! The server's side of a connection: cutting a message out of the bytes
//! that arrived, reading it, and wording the answer to it.
//!
//! A connection hands over one message at a time and waits for its answer
//! before it reads the next. Bytes that spell no message are answered on the
//! spot; bytes that are no text at all end the connection.
//!
//! | message  | answer                                          | when                        |
//! |----------|-------------------------------------------------|-----------------------------|
//! | register | `Oh, hai NAME!;`                                | the player has a seat       |
//! |          | `You've already registered, you asshat;`        | the connection has one      |
//! |          | `The game is full, get tae;`                    | both seats are taken        |
//! | move     | `Move successful;`                              | the piece was moved         |
//! |          | `You can't move air, ya numpty;`                | the cell is empty           |
//! |          | `Stick to your own pieces!;`                    | the piece is the opponent's |
//! | get move | `(SX,SY)->(DX,DY);`                             | the opponent has moved      |
//! | ready    | `You are COLOUR and NAME wants to batter you;`  | both players are ready      |
//! |          | `Who even are you?;`                            | the connection has no seat  |
//! | message  | none                                            |                             |
//! | other    | `You wot m8?;`                                  | at once                     |
//!
//! On the wire every answer is followed by a line feed.

use crate::board::Colour;
use crate::command::{
    response_view, Command, CommandData, CommandDataView, CommandErr, CommandErrView, CommandOk,
    CommandOkView, CommandResponse, CommandView, Move, ReplyHandle, ResponseView,
};
use crate::protocol::{
    move_text, parse, read_request, start_text, write_move, write_start, Request, RequestView,
};
use vstd::prelude::*;
use vstd::slice::slice_subrange;
use vstd::string::*;
use vstd::utf8::{decode_utf8, encode_utf8_decode_utf8, valid_utf8};

verus! {

/// The port the server listens on unless told otherwise.
pub const PORT: u16 = 1234;

/// The byte that ends every message: `;`.
pub const TERMINATOR: u8 = 59;

/// The byte that follows every answer on the wire: a line feed.
pub const LINE_END: u8 = 10;

/// Hands out the ids of the connections as they are accepted: 1 to the
/// first, 2 to the second, and so on, each greater than all before it.
pub struct ConnectionIds {
    last: i32,
}

impl ConnectionIds {
    #[verifier::type_invariant]
    spec fn inv(&self) -> bool {
        self.last >= 0
    }

    /// The number of ids handed out so far, which is also the last of them.
    pub closed spec fn issued(&self) -> int {
        self.last as int
    }

    pub fn new() -> (ids: ConnectionIds)
        ensures
            ids.issued() == 0,
    {
        ConnectionIds { last: 0 }
    }

    /// The id of the next connection: one more than the last. There is none
    /// once the numbers have run out.
    pub fn next_id(&mut self) -> (id: Option<i32>)
        ensures
            old(self).issued() < i32::MAX ==> id == Some((old(self).issued() + 1) as i32)
                && final(self).issued() == old(self).issued() + 1,
            old(self).issued() >= i32::MAX ==> id is None && final(self).issued() == old(
                self,
            ).issued(),
            final(self).issued() >= 0,
    {
        proof {
            use_type_invariant(&*self);
        }
        if self.last < i32::MAX {
            self.last = self.last + 1;
            Some(self.last)
        } else {
            None
        }
    }
}

/// `n` bytes of `bytes` make up its first message: the `n`th is the first
/// terminator.
pub open spec fn is_frame_end(bytes: Seq<u8>, n: int) -> bool {
    &&& 0 < n <= bytes.len()
    &&& bytes[n - 1] == TERMINATOR
    &&& forall|j: int| 0 <= j < n - 1 ==> bytes[j] != TERMINATOR
}

pub open spec fn has_frame(bytes: Seq<u8>) -> bool {
    exists|n: int| is_frame_end(bytes, n)
}

/// The first message in `bytes`, terminator included; all of `bytes` where
/// nothing ends a message.
pub open spec fn frame_of(bytes: Seq<u8>) -> Seq<u8> {
    if has_frame(bytes) {
        bytes.take(choose|n: int| is_frame_end(bytes, n))
    } else {
        bytes
    }
}

/// A message ends in one place only.
pub proof fn lemma_frame_end_unique(bytes: Seq<u8>, n: int, m: int)
    requires
        is_frame_end(bytes, n),
        is_frame_end(bytes, m),
    ensures
        n == m,
{
    if n < m {
        assert(bytes[n - 1] != TERMINATOR);
    }
    if m < n {
        assert(bytes[m - 1] != TERMINATOR);
    }
}

/// The length of the first message in `buf`, terminator included.
pub fn frame_end(buf: &[u8]) -> (r: Option<usize>)
    ensures
        r is Some <==> has_frame(buf@),
        r is Some ==> is_frame_end(buf@, r.unwrap() as int),
        r is Some ==> frame_of(buf@) == buf@.take(r.unwrap() as int),
{
    let n: usize = buf.len();
    let mut i: usize = 0;
    while i < n
        invariant
            n == buf@.len(),
            i <= n,
            forall|j: int| 0 <= j < i ==> buf@[j] != TERMINATOR,
        decreases n - i,
    {
        if buf[i] == TERMINATOR {
            proof {
                assert(is_frame_end(buf@, i + 1));
                let chosen = choose|k: int| is_frame_end(buf@, k);
                lemma_frame_end_unique(buf@, chosen, i + 1);
            }
            return Some(i + 1);
        }
        i += 1;
    }
    proof {
        assert forall|k: int| !is_frame_end(buf@, k) by {
            if is_frame_end(buf@, k) {
                assert(buf@[k - 1] != TERMINATOR);
            }
        }
    }
    None
}

/// What a connection makes of the bytes it was sent.
#[derive(Clone, Debug, PartialEq, Eq)]
pub enum Incoming {
    /// A message of the protocol, to be put to the engine.
    Request(Request),
    /// Text that spells no message, to be answered at once.
    Unrecognised,
    /// Bytes that are no text: the connection cannot go on.
    Malformed,
}

pub enum IncomingView {
    Request(RequestView),
    Unrecognised,
    Malformed,
}

impl View for Incoming {
    type V = IncomingView;

    open spec fn view(&self) -> IncomingView {
        match *self {
            Incoming::Request(request) => IncomingView::Request(request@),
            Incoming::Unrecognised => IncomingView::Unrecognised,
            Incoming::Malformed => IncomingView::Malformed,
        }
    }
}

/// What the bytes `bytes` are taken for: only the first message in them
/// counts, and it must be UTF-8 before it is read.
pub open spec fn incoming(bytes: Seq<u8>) -> IncomingView {
    let frame = frame_of(bytes);
    if !valid_utf8(frame) {
        IncomingView::Malformed
    } else {
        match parse(decode_utf8(frame)) {
            Some(request) => IncomingView::Request(request),
            None => IncomingView::Unrecognised,
        }
    }
}

/// `std::str::from_utf8`: a text is returned where `bytes` are well-formed
/// UTF-8 and nowhere else, and the bytes of that text are `bytes`.
#[verifier::external_body]
fn text_of(bytes: &[u8]) -> (r: Option<&str>)
    ensures
        r is Some <==> valid_utf8(bytes@),
        r is Some ==> r.unwrap().spec_bytes() == bytes@,
{
    match std::str::from_utf8(bytes) {
        Ok(text) => Some(text),
        Err(_) => None,
    }
}

/// Takes the first message out of the bytes a connection was sent and reads
/// it.
pub fn handle_message(buf: &[u8]) -> (r: Incoming)
    ensures
        r@ == incoming(buf@),
{
    let frame = match frame_end(buf) {
        Some(n) => slice_subrange(buf, 0, n),
        None => buf,
    };
    match text_of(frame) {
        None => Incoming::Malformed,
        Some(text) => {
            proof {
                encode_utf8_decode_utf8(text@);
            }
            match read_request(text) {
                Some(request) => Incoming::Request(request),
                None => Incoming::Unrecognised,
            }
        },
    }
}

impl RequestView {
    /// The command that puts this message to the engine on behalf of the
    /// connection `id`, to be answered on `reply`.
    pub open spec fn command(self, id: i32, reply: ReplyHandle) -> CommandView {
        CommandView {
            data: match self {
                RequestView::Move(m) => CommandDataView::Move(id, m),
                RequestView::Register(name) => CommandDataView::Register(name, id),
                RequestView::Message(body) => CommandDataView::Message(id, body),
                RequestView::GetMove => CommandDataView::GetMove(id),
                RequestView::Ready => CommandDataView::Ready(id),
            },
            reply,
        }
    }
}

impl Request {
    /// The command that puts this message to the engine on behalf of the
    /// connection `id`, to be answered on `reply`.
    pub fn command(&self, id: i32, reply: ReplyHandle) -> (c: Command)
        ensures
            c@ == self@.command(id, reply),
    {
        let data = match self {
            Request::Move(m) => CommandData::Move(id, *m),
            Request::Register(name) => CommandData::Register(name.clone(), id),
            Request::Message(body) => CommandData::Message(id, body.clone()),
            Request::GetMove => CommandData::GetMove(id),
            Request::Ready => CommandData::Ready(id),
        };
        Command { data, reply }
    }
}

/// What a connection does once the engine has answered.
#[derive(Clone, Debug, PartialEq, Eq)]
pub enum Outgoing {
    /// Send this text.
    Write(String),
    /// Send nothing.
    Silent,
    /// The answer is none that the message can have: give the connection up,
    /// for the reason given.
    Abort(String),
}

pub enum OutgoingView {
    Write(Seq<char>),
    Silent,
    Abort(Seq<char>),
}

impl View for Outgoing {
    type V = OutgoingView;

    open spec fn view(&self) -> OutgoingView {
        match *self {
            Outgoing::Write(text) => OutgoingView::Write(text@),
            Outgoing::Silent => OutgoingView::Silent,
            Outgoing::Abort(reason) => OutgoingView::Abort(reason@),
        }
    }
}

/// The answer to text that spells no message.
pub open spec fn unrecognised_text() -> Seq<char> {
    "You wot m8?;"@
}

/// The words in which a registration is welcomed.
pub open spec fn welcome_text(name: Seq<char>) -> Seq<char> {
    "Oh, hai "@ + name + "!;"@
}

/// What the connection that sent `request` does with the engine's answer
/// `response`.
pub open spec fn answer(request: RequestView, response: ResponseView) -> OutgoingView {
    match request {
        RequestView::Move(_) => match response {
            Ok(CommandOkView::Nothing) => OutgoingView::Write("Move successful;"@),
            Err(CommandErrView::NoPiece) => OutgoingView::Write("You can't move air, ya numpty;"@),
            Err(CommandErrView::WrongPiece) => OutgoingView::Write("Stick to your own pieces!;"@),
            _ => OutgoingView::Silent,
        },
        RequestView::Register(name) => match response {
            Ok(CommandOkView::Nothing) => OutgoingView::Write(welcome_text(name)),
            Err(CommandErrView::AlreadyRegistered) => OutgoingView::Write(
                "You've already registered, you asshat;"@,
            ),
            Err(CommandErrView::GameFull) => OutgoingView::Write("The game is full, get tae;"@),
            Err(CommandErrView::Other(reason)) => OutgoingView::Abort(reason),
            _ => OutgoingView::Abort(Seq::empty()),
        },
        RequestView::Message(_) => match response {
            Ok(_) => OutgoingView::Silent,
            Err(_) => OutgoingView::Abort(Seq::empty()),
        },
        RequestView::GetMove => match response {
            Ok(CommandOkView::Move(m)) => OutgoingView::Write(move_text(m, false, false)),
            _ => OutgoingView::Abort("Error in getting move"@),
        },
        RequestView::Ready => match response {
            Ok(CommandOkView::Nothing) => OutgoingView::Silent,
            Ok(CommandOkView::Ready(opponent, colour)) => OutgoingView::Write(
                start_text(colour, opponent),
            ),
            Err(CommandErrView::NotRegistered) => OutgoingView::Write("Who even are you?;"@),
            _ => OutgoingView::Abort(Seq::empty()),
        },
    }
}

/// The answer to text that spells no message.
pub fn unrecognised() -> (r: String)
    ensures
        r@ == unrecognised_text(),
{
    "You wot m8?;".to_owned()
}

/// Words the engine's answer for the connection that sent `request`.
pub fn respond(request: &Request, response: &CommandResponse) -> (r: Outgoing)
    ensures
        r@ == answer(request@, response_view(*response)),
{
    match request {
        Request::Move(_) => match response {
            Ok(CommandOk::Nothing) => Outgoing::Write("Move successful;".to_owned()),
            Err(CommandErr::NoPiece) => Outgoing::Write(
                "You can't move air, ya numpty;".to_owned(),
            ),
            Err(CommandErr::WrongPiece) => Outgoing::Write("Stick to your own pieces!;".to_owned()),
            _ => Outgoing::Silent,
        },
        Request::Register(name) => match response {
            Ok(CommandOk::Nothing) => {
                let mut out = "Oh, hai ".to_owned();
                out.append(name.as_str());
                out.append("!;");
                Outgoing::Write(out)
            },
            Err(CommandErr::AlreadyRegistered) => Outgoing::Write(
                "You've already registered, you asshat;".to_owned(),
            ),
            Err(CommandErr::GameFull) => Outgoing::Write("The game is full, get tae;".to_owned()),
            Err(CommandErr::Other(reason)) => Outgoing::Abort(reason.clone()),
            _ => Outgoing::Abort(String::new()),
        },
        Request::Message(_) => match response {
            Ok(_) => Outgoing::Silent,
            Err(_) => Outgoing::Abort(String::new()),
        },
        Request::GetMove => match response {
            Ok(CommandOk::Move(m)) => Outgoing::Write(write_move(m, false, false)),
            _ => Outgoing::Abort("Error in getting move".to_owned()),
        },
        Request::Ready => match response {
            Ok(CommandOk::Nothing) => Outgoing::Silent,
            Ok(CommandOk::Ready(opponent, colour)) => Outgoing::Write(
                write_start(*colour, opponent.as_str()),
            ),
            Err(CommandErr::NotRegistered) => Outgoing::Write("Who even are you?;".to_owned()),
            _ => Outgoing::Abort(String::new()),
        },
    }
}

} // verus!
