//! What travels between a connection and the engine: moves, commands and the
//! answers to them.
//!
//! Names and messages are owned strings at run time. Contracts speak of them
//! through views in which every string is the sequence of its characters.

use crate::board::Colour;
use vstd::prelude::*;

verus! {

#[derive(Clone, Debug, PartialEq, Eq)]
pub enum GetCommandErr {
    NoCommands,
    Failed(String),
}

pub enum GetCommandErrView {
    NoCommands,
    Failed(Seq<char>),
}

impl View for GetCommandErr {
    type V = GetCommandErrView;

    open spec fn view(&self) -> GetCommandErrView {
        match *self {
            GetCommandErr::NoCommands => GetCommandErrView::NoCommands,
            GetCommandErr::Failed(why) => GetCommandErrView::Failed(why@),
        }
    }
}

/// A source of commands for the engine: the network listener in production,
/// a queue held in memory elsewhere.
pub trait CommandProducer {
    fn get_command(&mut self) -> Result<Command, GetCommandErr>;
}

#[derive(Clone, Copy, Debug, PartialEq, Eq, Structural)]
pub struct Move {
    pub sx: u8,
    pub sy: u8,
    pub dx: u8,
    pub dy: u8,
}

impl Move {
    /// All four coordinates lie on the board.
    pub open spec fn in_bounds(&self) -> bool {
        self.sx < 8 && self.sy < 8 && self.dx < 8 && self.dy < 8
    }

    pub fn new(sx: u8, sy: u8, dx: u8, dy: u8) -> (m: Move)
        ensures
            m == (Move { sx, sy, dx, dy }),
    {
        Move { sx: sx, sy: sy, dx: dx, dy: dy }
    }

    /// A move from its four coordinates in the order source x, source y,
    /// destination x, destination y.
    pub fn new_vec(v: Vec<u8>) -> (m: Move)
        requires
            v@.len() == 4,
        ensures
            m == (Move { sx: v@[0], sy: v@[1], dx: v@[2], dy: v@[3] }),
    {
        Move { sx: v[0], sy: v[1], dx: v[2], dy: v[3] }
    }

    /// Whether all four coordinates lie on the board.
    pub fn is_in_bounds(&self) -> (r: bool)
        ensures
            r == self.in_bounds(),
    {
        self.sx < 8 && self.sy < 8 && self.dx < 8 && self.dy < 8
    }
}

/// Names the private channel on which one connection awaits its answers.
/// Whoever drives the engine keeps the channel itself and looks it up by
/// this handle when an answer is due.
#[derive(Clone, Copy, Debug, PartialEq, Eq, Structural)]
pub struct ReplyHandle {
    pub conn: i32,
}

#[derive(Clone, Debug, PartialEq, Eq)]
pub enum CommandData {
    Move(i32, Move),
    GetMove(i32),
    Ready(i32),
    Register(String, i32),
    Message(i32, String),
}

pub enum CommandDataView {
    Move(i32, Move),
    GetMove(i32),
    Ready(i32),
    Register(Seq<char>, i32),
    Message(i32, Seq<char>),
}

impl View for CommandData {
    type V = CommandDataView;

    open spec fn view(&self) -> CommandDataView {
        match *self {
            CommandData::Move(id, mov) => CommandDataView::Move(id, mov),
            CommandData::GetMove(id) => CommandDataView::GetMove(id),
            CommandData::Ready(id) => CommandDataView::Ready(id),
            CommandData::Register(name, id) => CommandDataView::Register(name@, id),
            CommandData::Message(id, text) => CommandDataView::Message(id, text@),
        }
    }
}

impl CommandData {
    /// The connection a command came from.
    pub open spec fn sender(v: CommandDataView) -> i32 {
        match v {
            CommandDataView::Move(id, _) => id,
            CommandDataView::GetMove(id) => id,
            CommandDataView::Ready(id) => id,
            CommandDataView::Register(_, id) => id,
            CommandDataView::Message(id, _) => id,
        }
    }

    /// The connection this command came from.
    pub fn id(&self) -> (r: i32)
        ensures
            r == CommandData::sender(self@),
    {
        match self {
            CommandData::Move(id, _) => *id,
            CommandData::GetMove(id) => *id,
            CommandData::Ready(id) => *id,
            CommandData::Register(_, id) => *id,
            CommandData::Message(id, _) => *id,
        }
    }
}

#[derive(Clone, Debug, PartialEq, Eq)]
pub enum CommandErr {
    AlreadyRegistered,
    NotRegistered,
    GameFull,
    NoPiece,
    WrongPiece,
    Other(String),
}

pub enum CommandErrView {
    AlreadyRegistered,
    NotRegistered,
    GameFull,
    NoPiece,
    WrongPiece,
    Other(Seq<char>),
}

impl View for CommandErr {
    type V = CommandErrView;

    open spec fn view(&self) -> CommandErrView {
        match *self {
            CommandErr::AlreadyRegistered => CommandErrView::AlreadyRegistered,
            CommandErr::NotRegistered => CommandErrView::NotRegistered,
            CommandErr::GameFull => CommandErrView::GameFull,
            CommandErr::NoPiece => CommandErrView::NoPiece,
            CommandErr::WrongPiece => CommandErrView::WrongPiece,
            CommandErr::Other(text) => CommandErrView::Other(text@),
        }
    }
}

#[derive(Clone, Debug, PartialEq, Eq)]
pub enum CommandOk {
    Ready(String, Colour),
    Move(Move),
    Nothing,
}

pub enum CommandOkView {
    Ready(Seq<char>, Colour),
    Move(Move),
    Nothing,
}

impl View for CommandOk {
    type V = CommandOkView;

    open spec fn view(&self) -> CommandOkView {
        match *self {
            CommandOk::Ready(opponent, colour) => CommandOkView::Ready(opponent@, colour),
            CommandOk::Move(mov) => CommandOkView::Move(mov),
            CommandOk::Nothing => CommandOkView::Nothing,
        }
    }
}

pub type CommandResponse = Result<CommandOk, CommandErr>;

pub type ResponseView = Result<CommandOkView, CommandErrView>;

/// A response with every string in it replaced by its characters.
pub open spec fn response_view(r: CommandResponse) -> ResponseView {
    match r {
        Ok(ok) => Ok(ok@),
        Err(err) => Err(err@),
    }
}

#[derive(Clone, Debug, PartialEq, Eq)]
pub struct Command {
    pub data: CommandData,
    pub reply: ReplyHandle,
}

pub struct CommandView {
    pub data: CommandDataView,
    pub reply: ReplyHandle,
}

impl View for Command {
    type V = CommandView;

    open spec fn view(&self) -> CommandView {
        CommandView { data: self.data@, reply: self.reply }
    }
}

/// What asking a producer for a command can bring.
pub type PolledView = Result<CommandView, GetCommandErrView>;

/// What a producer brought, with every string in it replaced by its
/// characters.
pub open spec fn polled_view(polled: Result<Command, GetCommandErr>) -> PolledView {
    match polled {
        Ok(command) => Ok(command@),
        Err(err) => Err(err@),
    }
}

/// The commands of a queue with every string in them replaced by its
/// characters.
pub open spec fn command_views(commands: Seq<Command>) -> Seq<CommandView> {
    commands.map_values(|c: Command| c@)
}

/// A producer that hands out, oldest first, the commands it was given.
pub struct CommandQueue {
    pending: Vec<Command>,
}

impl View for CommandQueue {
    type V = Seq<CommandView>;

    closed spec fn view(&self) -> Seq<CommandView> {
        command_views(self.pending@)
    }
}

impl CommandQueue {
    pub fn new() -> (queue: CommandQueue)
        ensures
            queue@ == Seq::<CommandView>::empty(),
    {
        let queue = CommandQueue { pending: Vec::new() };
        queue
    }

    /// Puts `command` behind all that wait.
    pub fn push(&mut self, command: Command)
        ensures
            final(self)@ == old(self)@.push(command@),
    {
        self.pending.push(command);
    }

    /// The number of commands that wait.
    pub fn len(&self) -> (n: usize)
        ensures
            n == self@.len(),
    {
        self.pending.len()
    }
}

impl CommandProducer for CommandQueue {
    /// Hands out the command that has waited longest.
    fn get_command(&mut self) -> (r: Result<Command, GetCommandErr>)
        ensures
            old(self)@.len() == 0 ==> polled_view(r) == Err::<CommandView, GetCommandErrView>(
                GetCommandErrView::NoCommands,
            ) && final(self)@ == old(self)@,
            old(self)@.len() > 0 ==> polled_view(r) == Ok::<CommandView, GetCommandErrView>(
                old(self)@[0],
            ) && final(self)@ == old(self)@.drop_first(),
    {
        if self.pending.len() == 0 {
            Err(GetCommandErr::NoCommands)
        } else {
            let command = self.pending.remove(0);
            Ok(command)
        }
    }
}

} // verus!
