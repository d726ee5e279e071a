//! The engine: the one owner of the board and of the players.
//!
//! Commands reach it one at a time. It changes its state and says what is to
//! be done about it: which answer goes out on which channel, and what is to
//! be shown to the operator. It sends nothing itself, so every answer it owes
//! can be read off what it returns.

use crate::board::{
    grid_after_attempt, is_grid, move_verdict, opening_grid, Board, Colour, Grid, MoveErr,
};
use crate::command::{
    polled_view, response_view, Command, CommandData, CommandDataView, CommandErr,
    CommandErrView, CommandOk, CommandOkView, CommandProducer, CommandResponse, CommandView,
    GetCommandErr, GetCommandErrView, Move, PolledView, ReplyHandle, ResponseView,
};
use crate::player::{Player, PlayerState, PlayerView};
use vstd::prelude::*;

verus! {

/// One thing the engine wants done.
#[derive(Debug, PartialEq, Eq)]
pub enum Effect {
    /// Send the response down the channel the handle names.
    Reply(ReplyHandle, CommandResponse),
    /// Show the text to the operator.
    Show(String),
}

pub enum EffectView {
    Reply(ReplyHandle, ResponseView),
    Show(Seq<char>),
}

impl View for Effect {
    type V = EffectView;

    open spec fn view(&self) -> EffectView {
        match *self {
            Effect::Reply(to, response) => EffectView::Reply(to, response_view(response)),
            Effect::Show(text) => EffectView::Show(text@),
        }
    }
}

/// The seats of a table with every string in them replaced by its
/// characters.
pub open spec fn seat_views(seats: Seq<Seat>) -> Seq<SeatView> {
    seats.map_values(|s: Seat| s@)
}

/// A list of effects with every string in it replaced by its characters.
pub open spec fn effect_views(effects: Seq<Effect>) -> Seq<EffectView> {
    effects.map_values(|e: Effect| e@)
}

/// A player at the table, under the id of the connection that registered
/// them.
pub struct Seat {
    pub id: i32,
    pub player: Player,
}

pub struct SeatView {
    pub id: i32,
    pub player: PlayerView,
}

impl View for Seat {
    type V = SeatView;

    open spec fn view(&self) -> SeatView {
        SeatView { id: self.id, player: self.player@ }
    }
}

/// Why the engine cannot act on a command.
#[derive(Clone, Copy, Debug, PartialEq, Eq, Structural)]
pub enum EngineFault {
    /// The command needs a registered player and comes from none.
    UnknownPlayer,
    /// The move leaves the board.
    OffBoard,
    /// The move has nobody to go to: the player has no opponent yet.
    NoOpponent,
}

/// Why the engine stops.
#[derive(Clone, Debug, PartialEq, Eq)]
pub enum Halt {
    /// The source of commands has failed, for the reason given.
    Source(String),
    /// A command came that the engine cannot act on.
    Engine(EngineFault),
}

pub enum HaltView {
    Source(Seq<char>),
    Engine(EngineFault),
}

impl View for Halt {
    type V = HaltView;

    open spec fn view(&self) -> HaltView {
        match *self {
            Halt::Source(why) => HaltView::Source(why@),
            Halt::Engine(fault) => HaltView::Engine(fault),
        }
    }
}

/// What came of asking for a command, with every string in it replaced by
/// its characters.
pub open spec fn outcome_view(r: Result<Vec<Effect>, Halt>) -> Result<Seq<EffectView>, HaltView> {
    match r {
        Ok(effects) => Ok(effect_views(effects@)),
        Err(halt) => Err(halt@),
    }
}

/// The engine's state as mathematics: the players in the order in which
/// they registered, the board, and whether moves are being sent on.
pub struct EngineView {
    pub seats: Seq<SeatView>,
    pub grid: Grid,
    pub send_moves: bool,
}

/// A state and what is to be done on reaching it.
pub struct Step {
    pub next: EngineView,
    pub effects: Seq<EffectView>,
}

/// The reason given to a player who asks to be kept waiting while they are
/// waiting already.
pub open spec fn busy_text() -> Seq<char> {
    "An answer to this player is already pending"@
}

impl EngineView {
    /// The state before anything has happened.
    pub open spec fn initial() -> EngineView {
        EngineView { seats: Seq::empty(), grid: opening_grid(), send_moves: false }
    }

    /// Both seats are taken and both players have said they are ready.
    pub open spec fn all_ready(self) -> bool {
        self.seats.len() == 2 && self.seats[0].player.ready && self.seats[1].player.ready
    }

    /// What holds of the engine at all times: there are at most two
    /// players, under different ids; a player who waits for a move has a
    /// channel to be told on; a move that is held lies on the board; while
    /// moves are being sent on, nobody waits for a move that is held for
    /// them; and the colours are white for everybody until both players are
    /// ready, and white for the first player and black for the second from
    /// then on.
    pub open spec fn wf(self) -> bool {
        &&& self.seats.len() <= 2
        &&& (self.send_moves ==> forall|i: int|
            0 <= i < self.seats.len() ==> !(#[trigger] self.seats[i]).player.awaits_release())
        &&& (self.seats.len() == 2 ==> self.seats[0].id != self.seats[1].id)
        &&& forall|i: int| 0 <= i < self.seats.len() ==> (#[trigger] self.seats[i]).player.wf()
        &&& forall|i: int|
            0 <= i < self.seats.len() && (#[trigger] self.seats[i]).player.move_cache is Some
                ==> self.seats[i].player.move_cache.unwrap().in_bounds()
        &&& is_grid(self.grid)
        &&& (self.all_ready() ==> self.seats[0].player.colour == Colour::White
            && self.seats[1].player.colour == Colour::Black)
        &&& (!self.all_ready() ==> forall|i: int|
            0 <= i < self.seats.len() ==> (#[trigger] self.seats[i]).player.colour
                == Colour::White)
    }

    /// The seat of the player registered under `id`.
    pub open spec fn seat_of(self, id: i32) -> Option<int> {
        if self.seats.len() > 0 && self.seats[0].id == id {
            Some(0)
        } else if self.seats.len() > 1 && self.seats[1].id == id {
            Some(1)
        } else {
            None
        }
    }

    /// The seat of the first player registered under another id than `id`.
    pub open spec fn opponent_of(self, id: i32) -> Option<int> {
        if self.seats.len() > 0 && self.seats[0].id != id {
            Some(0)
        } else if self.seats.len() > 1 && self.seats[1].id != id {
            Some(1)
        } else {
            None
        }
    }

    /// This state with the player in seat `i` replaced by `player`.
    pub open spec fn with_player(self, i: int, player: PlayerView) -> EngineView {
        EngineView {
            seats: self.seats.update(i, SeatView { id: self.seats[i].id, player }),
            ..self
        }
    }

    /// This state, left as it is, with one answer to give.
    pub open spec fn answering(self, reply: ReplyHandle, response: ResponseView) -> Step {
        Step { next: self, effects: seq![EffectView::Reply(reply, response)] }
    }

    /// A connection asks for a seat under `id`.
    pub open spec fn register(self, reply: ReplyHandle, name: Seq<char>, id: i32) -> Step {
        if self.seat_of(id) is Some {
            self.answering(reply, Err(CommandErrView::AlreadyRegistered))
        } else if self.seats.len() < 2 {
            Step {
                next: EngineView {
                    seats: self.seats.push(SeatView { id, player: PlayerView::fresh(name) }),
                    ..self
                },
                effects: seq![EffectView::Reply(reply, Ok(CommandOkView::Nothing))],
            }
        } else {
            self.answering(reply, Err(CommandErrView::GameFull))
        }
    }

    /// What the player `p` is told when the game starts: nothing, unless
    /// they are waiting to hear of it.
    pub open spec fn announcement(p: PlayerView, opponent: Seq<char>, colour: Colour) -> Seq<
        EffectView,
    > {
        if p.awaits_start() {
            seq![EffectView::Reply(p.reply.unwrap(), Ok(CommandOkView::Ready(opponent, colour)))]
        } else {
            seq![]
        }
    }

    /// The player `p` once the game has started and they play `colour`.
    pub open spec fn started_player(p: PlayerView, colour: Colour) -> PlayerView {
        PlayerView {
            colour,
            reply: if p.awaits_start() {
                None
            } else {
                p.reply
            },
            ..p
        }
    }

    /// The game starts: the player who registered first is given white, the
    /// other black, and each of them who waits for the start is told their
    /// colour and their opponent's name, the first player first.
    pub open spec fn start(self) -> Step {
        let first = self.seats[0].player;
        let second = self.seats[1].player;
        Step {
            next: self.with_player(0, Self::started_player(first, Colour::White)).with_player(
                1,
                Self::started_player(second, Colour::Black),
            ),
            effects: Self::announcement(first, second.name, Colour::White) + Self::announcement(
                second,
                first.name,
                Colour::Black,
            ),
        }
    }

    /// The player registered under `id` says they are ready.
    pub open spec fn ready(self, reply: ReplyHandle, id: i32) -> Step {
        match self.seat_of(id) {
            None => self.answering(reply, Err(CommandErrView::NotRegistered)),
            Some(i) => {
                let p = self.seats[i].player;
                if p.reply is Some {
                    self.answering(reply, Err(CommandErrView::Other(busy_text())))
                } else {
                    let armed = self.with_player(
                        i,
                        PlayerView { ready: true, reply: Some(reply), ..p },
                    );
                    if armed.all_ready() {
                        armed.start()
                    } else {
                        Step { next: armed, effects: seq![] }
                    }
                }
            },
        }
    }

    /// The player registered under `id` asks for their opponent's move.
    ///
    /// A move that is held for them goes out at once if moves are being
    /// sent on, and with that the sending stops. Otherwise they are kept
    /// waiting, unless an answer to them is pending already.
    pub open spec fn get_move(self, id: i32, reply: ReplyHandle) -> Step
        recommends
            self.seat_of(id) is Some,
    {
        let i = self.seat_of(id).unwrap();
        let p = self.seats[i].player;
        if p.move_cache is Some && self.send_moves {
            Step {
                next: EngineView {
                    send_moves: false,
                    ..self.with_player(i, PlayerView { move_cache: None, ..p })
                },
                effects: seq![
                    EffectView::Reply(reply, Ok(CommandOkView::Move(p.move_cache.unwrap()))),
                ],
            }
        } else if p.reply is Some {
            self.answering(reply, Err(CommandErrView::Other(busy_text())))
        } else {
            Step {
                next: self.with_player(
                    i,
                    PlayerView { reply: Some(reply), state: PlayerState::WaitingOnMove, ..p },
                ),
                effects: seq![],
            }
        }
    }

    /// The answer to a player who tried a move.
    pub open spec fn verdict_response(verdict: Result<(), MoveErr>) -> ResponseView {
        match verdict {
            Ok(()) => Ok(CommandOkView::Nothing),
            Err(MoveErr::NoPiece) => Err(CommandErrView::NoPiece),
            Err(MoveErr::WrongPiece) => Err(CommandErrView::WrongPiece),
        }
    }

    /// The player registered under `id` tries the move `mov`.
    ///
    /// They are told at once how it went. Whether it went well or not, the
    /// move is passed on: an opponent who waits for one is given it and
    /// waits no longer, and the sending stops; for any other opponent it is
    /// held until they ask.
    pub open spec fn play(self, id: i32, reply: ReplyHandle, mov: Move) -> Step
        recommends
            self.seat_of(id) is Some,
            self.opponent_of(id) is Some,
            mov.in_bounds(),
    {
        let i = self.seat_of(id).unwrap();
        let j = self.opponent_of(id).unwrap();
        let colour = self.seats[i].player.colour;
        let told = EffectView::Reply(
            reply,
            Self::verdict_response(move_verdict(self.grid, mov, colour)),
        );
        let grid = grid_after_attempt(self.grid, mov, colour);
        let o = self.seats[j].player;
        if o.state is WaitingOnMove {
            Step {
                next: EngineView {
                    grid,
                    send_moves: false,
                    ..self.with_player(
                        j,
                        PlayerView {
                            state: PlayerState::Default,
                            reply: None,
                            move_cache: None,
                            ..o
                        },
                    )
                },
                effects: seq![
                    told,
                    EffectView::Reply(o.reply.unwrap(), Ok(CommandOkView::Move(mov))),
                ],
            }
        } else {
            Step {
                next: EngineView {
                    grid,
                    ..self.with_player(j, PlayerView { move_cache: Some(mov), ..o })
                },
                effects: seq![told],
            }
        }
    }

    /// The seat of the first player who waits for a move while one is held
    /// for them.
    pub open spec fn first_releasable(self) -> Option<int> {
        if self.seats.len() > 0 && self.seats[0].player.awaits_release() {
            Some(0)
        } else if self.seats.len() > 1 && self.seats[1].player.awaits_release() {
            Some(1)
        } else {
            None
        }
    }

    /// The operator lets a move through.
    ///
    /// The first player who waits for a move while one is held for them is
    /// given it and waits no longer, and no more is sent on. Where there is
    /// no such player, the next held move that is asked for will be sent on.
    pub open spec fn release(self) -> Step {
        match self.first_releasable() {
            Some(i) => {
                let p = self.seats[i].player;
                Step {
                    next: EngineView {
                        send_moves: false,
                        ..self.with_player(
                            i,
                            PlayerView {
                                state: PlayerState::Default,
                                reply: None,
                                move_cache: None,
                                ..p
                            },
                        )
                    },
                    effects: seq![
                        EffectView::Reply(
                            p.reply.unwrap(),
                            Ok(CommandOkView::Move(p.move_cache.unwrap())),
                        ),
                    ],
                }
            },
            None => Step { next: EngineView { send_moves: true, ..self }, effects: seq![] },
        }
    }

    /// A connection has something to tell the operator.
    pub open spec fn show(self, reply: ReplyHandle, text: Seq<char>) -> Step {
        Step {
            next: self,
            effects: seq![
                EffectView::Show(text),
                EffectView::Reply(reply, Ok(CommandOkView::Nothing)),
            ],
        }
    }

    /// Why the engine cannot try the move `mov` for `id`, if it cannot: the
    /// mover must be registered, the move must stay on the board, and there
    /// must be an opponent for it to go to.
    pub open spec fn move_fault(self, id: i32, mov: Move) -> Option<EngineFault> {
        if self.seat_of(id) is None {
            Some(EngineFault::UnknownPlayer)
        } else if !mov.in_bounds() {
            Some(EngineFault::OffBoard)
        } else if self.opponent_of(id) is None {
            Some(EngineFault::NoOpponent)
        } else {
            None
        }
    }

    /// Why the engine cannot look for a move for `id`, if it cannot: whoever
    /// asks must be registered.
    pub open spec fn get_move_fault(self, id: i32) -> Option<EngineFault> {
        if self.seat_of(id) is None {
            Some(EngineFault::UnknownPlayer)
        } else {
            None
        }
    }

    /// Why the engine cannot act on a command, if it cannot.
    pub open spec fn fault(self, data: CommandDataView) -> Option<EngineFault> {
        match data {
            CommandDataView::Move(id, mov) => self.move_fault(id, mov),
            CommandDataView::GetMove(id) => self.get_move_fault(id),
            _ => None,
        }
    }

    /// What the engine does on a command it can act on.
    pub open spec fn handle(self, command: CommandView) -> Step
        recommends
            self.fault(command.data) is None,
    {
        match command.data {
            CommandDataView::Move(id, mov) => self.play(id, command.reply, mov),
            CommandDataView::GetMove(id) => self.get_move(id, command.reply),
            CommandDataView::Register(name, id) => self.register(command.reply, name, id),
            CommandDataView::Message(_, text) => self.show(command.reply, text),
            CommandDataView::Ready(id) => self.ready(command.reply, id),
        }
    }

    /// What the engine does with what its source of commands brought: it
    /// acts on a command if it can, does nothing where there is none, and
    /// stops where the command is one it cannot act on or the source has
    /// failed.
    pub open spec fn after_poll(self, polled: PolledView) -> Result<Step, HaltView> {
        match polled {
            Ok(command) => match self.fault(command.data) {
                Some(fault) => Err(HaltView::Engine(fault)),
                None => Ok(self.handle(command)),
            },
            Err(GetCommandErrView::NoCommands) => Ok(Step { next: self, effects: seq![] }),
            Err(GetCommandErrView::Failed(why)) => Err(HaltView::Source(why)),
        }
    }

    /// The engine, having been brought `polled` in this state, is left in
    /// the state `next` with `outcome` to show for it. A stop changes
    /// nothing.
    pub open spec fn polls_to(
        self,
        polled: PolledView,
        next: EngineView,
        outcome: Result<Seq<EffectView>, HaltView>,
    ) -> bool {
        match self.after_poll(polled) {
            Ok(step) => next == step.next && outcome == Ok::<Seq<EffectView>, HaltView>(
                step.effects,
            ),
            Err(halt) => next == self && outcome == Err::<Seq<EffectView>, HaltView>(halt),
        }
    }
}

/// The reason given to a player who asks to be kept waiting while they are
/// waiting already.
pub fn busy_reason() -> (r: String)
    ensures
        r@ == busy_text(),
{
    "An answer to this player is already pending".to_owned()
}

/// The engine itself. Its state is always well formed, and is seen from
/// outside through its view.
pub struct Engine {
    players: Vec<Seat>,
    board: Board,
    send_moves: bool,
}

impl View for Engine {
    type V = EngineView;

    closed spec fn view(&self) -> EngineView {
        EngineView {
            seats: seat_views(self.players@),
            grid: self.board@,
            send_moves: self.send_moves,
        }
    }
}

impl Engine {
    #[verifier::type_invariant]
    spec fn inv(&self) -> bool {
        self@.wf()
    }

    pub fn new() -> (engine: Engine)
        ensures
            engine@ == EngineView::initial(),
    {
        let engine = Engine { players: Vec::new(), board: Board::new(), send_moves: false };
        assert(engine@.seats =~= Seq::empty());
        engine
    }

    /// The players in the order in which they registered.
    pub fn players(&self) -> (seats: &Vec<Seat>)
        ensures
            seat_views(seats@) == self@.seats,
            self@.wf(),
    {
        proof {
            use_type_invariant(&*self);
        }
        &self.players
    }

    /// The player registered under `id`.
    pub fn player(&self, id: i32) -> (r: Option<&Player>)
        ensures
            r is Some <==> self@.seat_of(id) is Some,
            r is Some ==> r.unwrap()@ == self@.seats[self@.seat_of(id).unwrap()].player,
    {
        match self.seat_index(id) {
            Some(i) => Some(&self.players[i].player),
            None => None,
        }
    }

    pub fn board(&self) -> (board: &Board)
        ensures
            board@ == self@.grid,
    {
        &self.board
    }

    /// Whether moves are being sent on: whether the next move that is asked
    /// for while it is held goes out at once.
    pub fn sends_moves(&self) -> (r: bool)
        ensures
            r == self@.send_moves,
    {
        self.send_moves
    }

    /// The place in the table of the player registered under `id`.
    fn seat_index(&self, id: i32) -> (r: Option<usize>)
        ensures
            r is Some <==> self@.seat_of(id) is Some,
            r is Some ==> r.unwrap() as int == self@.seat_of(id).unwrap(),
    {
        proof {
            use_type_invariant(&*self);
        }
        if self.players.len() > 0 && self.players[0].id == id {
            Some(0)
        } else if self.players.len() > 1 && self.players[1].id == id {
            Some(1)
        } else {
            None
        }
    }

    /// The place in the table of the first player registered under another
    /// id than `id`.
    fn opponent_index(&self, id: i32) -> (r: Option<usize>)
        ensures
            r is Some <==> self@.opponent_of(id) is Some,
            r is Some ==> r.unwrap() as int == self@.opponent_of(id).unwrap(),
    {
        proof {
            use_type_invariant(&*self);
        }
        if self.players.len() > 0 && self.players[0].id != id {
            Some(0)
        } else if self.players.len() > 1 && self.players[1].id != id {
            Some(1)
        } else {
            None
        }
    }

    /// Hands the table out to be worked on, leaving an empty one behind.
    fn take_seats(&mut self) -> (seats: Vec<Seat>)
        ensures
            seats == old(self).players,
            final(self).players@.len() == 0,
            final(self).board == old(self).board,
            final(self).send_moves == old(self).send_moves,
    {
        let mut seats: Vec<Seat> = Vec::new();
        core::mem::swap(&mut self.players, &mut seats);
        seats
    }

    pub fn register_player(&mut self, reply: ReplyHandle, name: &str, id: i32) -> (effects: Vec<
        Effect,
    >)
        ensures
            final(self)@ == old(self)@.register(reply, name@, id).next,
            effect_views(effects@) == old(self)@.register(reply, name@, id).effects,
    {
        proof {
            use_type_invariant(&*self);
        }
        let mut effects: Vec<Effect> = Vec::new();
        if self.seat_index(id).is_some() {
            effects.push(Effect::Reply(reply, Err(CommandErr::AlreadyRegistered)));
        } else if self.players.len() < 2 {
            let mut seats = self.take_seats();
            seats.push(Seat { id, player: Player::new(name.to_owned()) });
            self.players = seats;
            effects.push(Effect::Reply(reply, Ok(CommandOk::Nothing)));
            assert(self@.seats =~= old(self)@.register(reply, name@, id).next.seats);
        } else {
            effects.push(Effect::Reply(reply, Err(CommandErr::GameFull)));
        }
        effects
    }

    pub fn handle_ready(&mut self, reply: ReplyHandle, id: i32) -> (effects: Vec<Effect>)
        ensures
            final(self)@ == old(self)@.ready(reply, id).next,
            effect_views(effects@) == old(self)@.ready(reply, id).effects,
    {
        proof {
            use_type_invariant(&*self);
        }
        let ghost before = self@;
        let mut effects: Vec<Effect> = Vec::new();
        let i = match self.seat_index(id) {
            None => {
                effects.push(Effect::Reply(reply, Err(CommandErr::NotRegistered)));
                return effects;
            },
            Some(i) => i,
        };
        if self.players[i].player.reply.is_some() {
            effects.push(Effect::Reply(reply, Err(CommandErr::Other(busy_reason()))));
            return effects;
        }
        let mut seats = self.take_seats();
        seats[i].player.ready = true;
        seats[i].player.reply = Some(reply);
        let ghost armed = before.with_player(
            i as int,
            PlayerView { ready: true, reply: Some(reply), ..before.seats[i as int].player },
        );
        assert(seat_views(seats@) =~= armed.seats);
        if seats.len() == 2 && seats[0].player.ready && seats[1].player.ready {
            seats[0].player.colour = Colour::White;
            seats[1].player.colour = Colour::Black;
            if seats[0].player.awaits_start() {
                let to = seats[0].player.reply.unwrap();
                let opponent = seats[1].player.name.clone();
                effects.push(Effect::Reply(to, Ok(CommandOk::Ready(opponent, Colour::White))));
                seats[0].player.reply = None;
            }
            assert(effect_views(effects@) =~= EngineView::announcement(
                armed.seats[0].player,
                armed.seats[1].player.name,
                Colour::White,
            ));
            if seats[1].player.awaits_start() {
                let to = seats[1].player.reply.unwrap();
                let opponent = seats[0].player.name.clone();
                effects.push(Effect::Reply(to, Ok(CommandOk::Ready(opponent, Colour::Black))));
                seats[1].player.reply = None;
            }
            assert(effect_views(effects@) =~= armed.start().effects);
            assert(seat_views(seats@) =~= armed.start().next.seats);
        }
        self.players = seats;
        effects
    }

    /// Tries a move for the player registered under `id`, or says why it
    /// cannot be tried and leaves everything as it was.
    pub fn move_piece(&mut self, id: i32, reply: ReplyHandle, mov: &Move) -> (r: Result<
        Vec<Effect>,
        EngineFault,
    >)
        ensures
            match r {
                Ok(effects) => {
                    &&& old(self)@.move_fault(id, *mov) is None
                    &&& final(self)@ == old(self)@.play(id, reply, *mov).next
                    &&& effect_views(effects@) == old(self)@.play(id, reply, *mov).effects
                },
                Err(fault) => {
                    &&& old(self)@.move_fault(id, *mov) == Some(fault)
                    &&& final(self)@ == old(self)@
                },
            },
    {
        proof {
            use_type_invariant(&*self);
        }
        let ghost before = self@;
        let mut effects: Vec<Effect> = Vec::new();
        let i = match self.seat_index(id) {
            Some(i) => i,
            None => {
                return Err(EngineFault::UnknownPlayer);
            },
        };
        if !mov.is_in_bounds() {
            return Err(EngineFault::OffBoard);
        }
        let j = match self.opponent_index(id) {
            Some(j) => j,
            None => {
                return Err(EngineFault::NoOpponent);
            },
        };
        let player_colour = self.players[i].player.colour;
        let mut board = Board { cells: self.board.cells };
        let told = match board.move_piece(mov, &player_colour) {
            Ok(()) => Ok(CommandOk::Nothing),
            Err(MoveErr::NoPiece) => Err(CommandErr::NoPiece),
            Err(MoveErr::WrongPiece) => Err(CommandErr::WrongPiece),
        };
        effects.push(Effect::Reply(reply, told));
        self.board = board;
        let mut seats = self.take_seats();
        if seats[j].player.state == PlayerState::WaitingOnMove {
            let to = seats[j].player.reply.unwrap();
            effects.push(Effect::Reply(to, Ok(CommandOk::Move(*mov))));
            seats[j].player.state = PlayerState::Default;
            seats[j].player.reply = None;
            seats[j].player.move_cache = None;
            self.send_moves = false;
        } else {
            seats[j].player.move_cache = Some(*mov);
        }
        assert(seat_views(seats@) =~= before.play(id, reply, *mov).next.seats);
        self.players = seats;
        Ok(effects)
    }

    /// Gives the player registered under `id` their opponent's move or keeps
    /// them waiting for it, or says why it can do neither and leaves
    /// everything as it was.
    pub fn get_move(&mut self, id: i32, reply: ReplyHandle) -> (r: Result<
        Vec<Effect>,
        EngineFault,
    >)
        ensures
            match r {
                Ok(effects) => {
                    &&& old(self)@.get_move_fault(id) is None
                    &&& final(self)@ == old(self)@.get_move(id, reply).next
                    &&& effect_views(effects@) == old(self)@.get_move(id, reply).effects
                },
                Err(fault) => {
                    &&& old(self)@.get_move_fault(id) == Some(fault)
                    &&& final(self)@ == old(self)@
                },
            },
    {
        proof {
            use_type_invariant(&*self);
        }
        let ghost before = self@;
        let mut effects: Vec<Effect> = Vec::new();
        let i = match self.seat_index(id) {
            Some(i) => i,
            None => {
                return Err(EngineFault::UnknownPlayer);
            },
        };
        let cached = self.players[i].player.move_cache;
        if cached.is_some() && self.send_moves {
            effects.push(Effect::Reply(reply, Ok(CommandOk::Move(cached.unwrap()))));
            let mut seats = self.take_seats();
            seats[i].player.move_cache = None;
            self.send_moves = false;
            assert(seat_views(seats@) =~= before.get_move(id, reply).next.seats);
            self.players = seats;
        } else if self.players[i].player.reply.is_some() {
            effects.push(Effect::Reply(reply, Err(CommandErr::Other(busy_reason()))));
        } else {
            let mut seats = self.take_seats();
            seats[i].player.reply = Some(reply);
            seats[i].player.state = PlayerState::WaitingOnMove;
            assert(seat_views(seats@) =~= before.get_move(id, reply).next.seats);
            self.players = seats;
        }
        Ok(effects)
    }

    /// Lets a held move through, or lets the next one through when it is
    /// asked for.
    pub fn release_move(&mut self) -> (effects: Vec<Effect>)
        ensures
            final(self)@ == old(self)@.release().next,
            effect_views(effects@) == old(self)@.release().effects,
    {
        proof {
            use_type_invariant(&*self);
        }
        let ghost before = self@;
        let mut effects: Vec<Effect> = Vec::new();
        let found: Option<usize> = if self.players.len() > 0
            && self.players[0].player.awaits_release() {
            Some(0)
        } else if self.players.len() > 1 && self.players[1].player.awaits_release() {
            Some(1)
        } else {
            None
        };
        match found {
            Some(i) => {
                let mut seats = self.take_seats();
                let to = seats[i].player.reply.unwrap();
                let mov = seats[i].player.move_cache.unwrap();
                effects.push(Effect::Reply(to, Ok(CommandOk::Move(mov))));
                seats[i].player.state = PlayerState::Default;
                seats[i].player.reply = None;
                seats[i].player.move_cache = None;
                self.send_moves = false;
                assert(seat_views(seats@) =~= before.release().next.seats);
                self.players = seats;
            },
            None => {
                self.send_moves = true;
            },
        }
        effects
    }

    pub fn display_message(&self, reply: ReplyHandle, msg: &str) -> (effects: Vec<Effect>)
        ensures
            effect_views(effects@) == self@.show(reply, msg@).effects,
    {
        let mut effects: Vec<Effect> = Vec::new();
        effects.push(Effect::Show(msg.to_owned()));
        effects.push(Effect::Reply(reply, Ok(CommandOk::Nothing)));
        effects
    }

    /// Acts on one command, or says why it cannot and leaves everything as
    /// it was.
    pub fn handle(&mut self, command: Command) -> (r: Result<Vec<Effect>, EngineFault>)
        ensures
            match r {
                Ok(effects) => {
                    &&& old(self)@.fault(command@.data) is None
                    &&& final(self)@ == old(self)@.handle(command@).next
                    &&& effect_views(effects@) == old(self)@.handle(command@).effects
                },
                Err(fault) => {
                    &&& old(self)@.fault(command@.data) == Some(fault)
                    &&& final(self)@ == old(self)@
                },
            },
    {
        let reply = command.reply;
        match command.data {
            CommandData::Move(id, mov) => self.move_piece(id, reply, &mov),
            CommandData::GetMove(id) => self.get_move(id, reply),
            CommandData::Register(name, id) => Ok(self.register_player(reply, name.as_str(), id)),
            CommandData::Message(_, text) => Ok(self.display_message(reply, text.as_str())),
            CommandData::Ready(id) => Ok(self.handle_ready(reply, id)),
        }
    }

    /// Acts on what the source of commands brought.
    pub fn dispatch(&mut self, polled: Result<Command, GetCommandErr>) -> (r: Result<
        Vec<Effect>,
        Halt,
    >)
        ensures
            old(self)@.polls_to(polled_view(polled), final(self)@, outcome_view(r)),
    {
        match polled {
            Ok(command) => match self.handle(command) {
                Ok(effects) => Ok(effects),
                Err(fault) => Err(Halt::Engine(fault)),
            },
            Err(GetCommandErr::NoCommands) => {
                let effects: Vec<Effect> = Vec::new();
                assert(effect_views(effects@) =~= Seq::<EffectView>::empty());
                Ok(effects)
            },
            Err(GetCommandErr::Failed(why)) => Err(Halt::Source(why)),
        }
    }

    /// Asks `source` for a command and acts on what it brings. What it
    /// brings is up to the source; whatever it is, the engine does with it
    /// what `dispatch` says.
    pub fn poll<P: CommandProducer>(&mut self, source: &mut P) -> (r: Result<Vec<Effect>, Halt>)
        ensures
            exists|polled: PolledView|
                old(self)@.polls_to(polled, final(self)@, outcome_view(r)),
    {
        let polled = source.get_command();
        let r = self.dispatch(polled);
        r
    }
}

} // verus!
