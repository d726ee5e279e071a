//! What holds of the engine whatever is put to it.

use crate::board::{grid_after_move, Colour};
use crate::command::{
    CommandDataView, CommandErrView, CommandOkView, CommandView, Move, ReplyHandle,
};
use crate::engine::{EffectView, EngineView, Step};
use crate::player::{PlayerState, PlayerView};
use vstd::prelude::*;

verus! {

/// The engine starts out well formed.
pub proof fn lemma_initial_is_well_formed()
    ensures
        EngineView::initial().wf(),
{
}

/// No command the engine acts on can leave it ill formed: there are never
/// more than two players, never two under one id, a player who waits for a
/// move always has a channel to be told on, nobody is kept waiting for a held
/// move while moves are being sent on, and the colours are white for
/// everybody until both players are ready, and white for the first player and
/// black for the second from then on.
pub proof fn lemma_handle_keeps_well_formed(s: EngineView, command: CommandView)
    requires
        s.wf(),
        s.fault(command.data) is None,
    ensures
        s.handle(command).next.wf(),
{
}

/// Letting a move through cannot leave the engine ill formed either.
pub proof fn lemma_release_keeps_well_formed(s: EngineView)
    requires
        s.wf(),
    ensures
        s.release().next.wf(),
{
}

/// Once registered, always registered: no command takes a player's seat
/// away or gives it to another id, and neither does letting a move through.
pub proof fn lemma_seats_persist(s: EngineView, command: CommandView, id: i32)
    requires
        s.wf(),
        s.fault(command.data) is None,
        s.seat_of(id) is Some,
    ensures
        s.handle(command).next.seat_of(id) == s.seat_of(id),
        s.release().next.seat_of(id) == s.seat_of(id),
{
}

/// With both seats taken, an id that holds neither is turned away because
/// the game is full, and nothing changes.
pub proof fn lemma_full_table_refuses(s: EngineView, reply: ReplyHandle, name: Seq<char>, id: i32)
    requires
        s.wf(),
        s.seats.len() == 2,
        s.seat_of(id) is None,
    ensures
        s.register(reply, name, id) == s.answering(reply, Err(CommandErrView::GameFull)),
{
}

/// After two registrations that went well, a third under yet another id is
/// turned away because the game is full.
pub proof fn lemma_third_registration_is_refused(
    s: EngineView,
    first: (ReplyHandle, Seq<char>, i32),
    second: (ReplyHandle, Seq<char>, i32),
    third: (ReplyHandle, Seq<char>, i32),
)
    requires
        s.wf(),
        s.register(first.0, first.1, first.2).effects == seq![
            EffectView::Reply(first.0, Ok(CommandOkView::Nothing)),
        ],
        s.register(first.0, first.1, first.2).next.register(second.0, second.1, second.2).effects
            == seq![EffectView::Reply(second.0, Ok(CommandOkView::Nothing))],
        third.2 != first.2,
        third.2 != second.2,
    ensures
        ({
            let full = s.register(first.0, first.1, first.2).next.register(
                second.0,
                second.1,
                second.2,
            ).next;
            full.register(third.0, third.1, third.2) == full.answering(
                third.0,
                Err(CommandErrView::GameFull),
            )
        }),
{
    let one = s.register(first.0, first.1, first.2);
    let two = one.next.register(second.0, second.1, second.2);
    assert(one.effects[0] == EffectView::Reply(first.0, Ok(CommandOkView::Nothing)));
    assert(two.effects[0] == EffectView::Reply(second.0, Ok(CommandOkView::Nothing)));
}

/// An id that holds a seat is told so when it registers again, under
/// whatever name, and nothing changes.
pub proof fn lemma_registered_id_is_refused(
    s: EngineView,
    reply: ReplyHandle,
    name: Seq<char>,
    id: i32,
)
    requires
        s.seat_of(id) is Some,
    ensures
        s.register(reply, name, id) == s.answering(reply, Err(CommandErrView::AlreadyRegistered)),
{
}

/// Registering one id twice: whatever came of the first attempt, the second
/// is refused as already registered, unless the first was turned away from a
/// full game.
pub proof fn lemma_second_registration_is_refused(
    s: EngineView,
    first: (ReplyHandle, Seq<char>),
    second: (ReplyHandle, Seq<char>),
    id: i32,
)
    requires
        s.wf(),
        s.register(first.0, first.1, id).effects != seq![
            EffectView::Reply(first.0, Err(CommandErrView::GameFull)),
        ],
    ensures
        ({
            let once = s.register(first.0, first.1, id).next;
            once.register(second.0, second.1, id) == once.answering(
                second.0,
                Err(CommandErrView::AlreadyRegistered),
            )
        }),
{
    let once = s.register(first.0, first.1, id);
    if s.seat_of(id) is None {
        if s.seats.len() < 2 {
            assert(once.next.seats[s.seats.len() as int].id == id);
        } else {
            assert(once.effects =~= seq![
                EffectView::Reply(first.0, Err(CommandErrView::GameFull)),
            ]);
        }
    }
}

/// A player who tries to move from an empty cell is told that there is no
/// piece, one who tries to move a piece of the other colour that it is the
/// wrong piece, and in both cases the board stays as it was. A player who
/// moves a piece of their own is told that all is well.
pub proof fn lemma_move_is_judged_by_the_board(
    s: EngineView,
    id: i32,
    reply: ReplyHandle,
    mov: Move,
)
    requires
        s.wf(),
        s.seat_of(id) is Some,
        s.opponent_of(id) is Some,
        mov.in_bounds(),
    ensures
        ({
            let source = s.grid[mov.sx as int][mov.sy as int];
            let colour = s.seats[s.seat_of(id).unwrap()].player.colour;
            let step = s.play(id, reply, mov);
            &&& !source.has_piece ==> step.effects[0] == EffectView::Reply(
                reply,
                Err(CommandErrView::NoPiece),
            ) && step.next.grid == s.grid
            &&& source.has_piece && source.colour != colour ==> step.effects[0]
                == EffectView::Reply(reply, Err(CommandErrView::WrongPiece)) && step.next.grid
                == s.grid
            &&& source.has_piece && source.colour == colour ==> step.effects[0]
                == EffectView::Reply(reply, Ok(CommandOkView::Nothing)) && step.next.grid
                == grid_after_move(s.grid, mov)
        }),
{
}

/// The start waits for both players. With two players at the table, neither
/// of them ready nor owed an answer, the first to say they are ready hears
/// nothing. When the other says so too, both are answered at once: the player
/// who registered first is told that they are white, the other that they are
/// black, and each is told the other's name.
pub proof fn lemma_start_waits_for_both(
    s: EngineView,
    early: int,
    early_reply: ReplyHandle,
    late_reply: ReplyHandle,
)
    requires
        s.wf(),
        s.seats.len() == 2,
        !s.seats[0].player.ready && s.seats[0].player.reply is None,
        !s.seats[1].player.ready && s.seats[1].player.reply is None,
        early == 0 || early == 1,
    ensures
        ({
            let late = 1 - early;
            let waiting = s.ready(early_reply, s.seats[early].id);
            let started = waiting.next.ready(late_reply, s.seats[late].id);
            let first_reply = if early == 0 { early_reply } else { late_reply };
            let second_reply = if early == 0 { late_reply } else { early_reply };
            &&& waiting.effects == Seq::<EffectView>::empty()
            &&& !waiting.next.all_ready()
            &&& started.effects == seq![
                EffectView::Reply(
                    first_reply,
                    Ok(CommandOkView::Ready(s.seats[1].player.name, Colour::White)),
                ),
                EffectView::Reply(
                    second_reply,
                    Ok(CommandOkView::Ready(s.seats[0].player.name, Colour::Black)),
                ),
            ]
            &&& started.next.seats[0].player.colour == Colour::White
            &&& started.next.seats[1].player.colour == Colour::Black
            &&& started.next.seats[0].player.reply is None
            &&& started.next.seats[1].player.reply is None
        }),
{
    let late = 1 - early;
    let waiting = s.ready(early_reply, s.seats[early].id);
    let started = waiting.next.ready(late_reply, s.seats[late].id);
    let first_reply = if early == 0 { early_reply } else { late_reply };
    let second_reply = if early == 0 { late_reply } else { early_reply };
    assert(s.seat_of(s.seats[early].id) == Some(early));
    assert(waiting.next.seat_of(s.seats[late].id) == Some(late));
    assert(started.effects =~= seq![
        EffectView::Reply(
            first_reply,
            Ok(CommandOkView::Ready(s.seats[1].player.name, Colour::White)),
        ),
        EffectView::Reply(
            second_reply,
            Ok(CommandOkView::Ready(s.seats[0].player.name, Colour::Black)),
        ),
    ]);
}

/// A player who asks for a move before their opponent has made one is kept
/// waiting, and is given the opponent's next move when it comes: that move,
/// once. Afterwards nothing is held for them, so letting a move through
/// gives them nothing, and asking again keeps them waiting again.
pub proof fn lemma_get_move_waits_for_the_move(
    s: EngineView,
    id: i32,
    reply: ReplyHandle,
    opponent: i32,
    opponent_reply: ReplyHandle,
    mov: Move,
    again: ReplyHandle,
)
    requires
        s.wf(),
        s.seat_of(id) is Some,
        s.seat_of(opponent) is Some,
        opponent != id,
        mov.in_bounds(),
        s.seats[s.seat_of(id).unwrap()].player.move_cache is None,
        s.seats[s.seat_of(id).unwrap()].player.reply is None,
    ensures
        ({
            let i = s.seat_of(id).unwrap();
            let asked = s.get_move(id, reply);
            let moved = asked.next.play(opponent, opponent_reply, mov);
            &&& asked.effects == Seq::<EffectView>::empty()
            &&& asked.next.seats[i].player.state == PlayerState::WaitingOnMove
            &&& moved.effects.len() == 2
            &&& moved.effects[0] is Reply
            &&& moved.effects[0]->Reply_0 == opponent_reply
            &&& moved.effects[1] == EffectView::Reply(reply, Ok(CommandOkView::Move(mov)))
            &&& moved.next.seats[i].player.state == PlayerState::Default
            &&& moved.next.seats[i].player.reply is None
            &&& moved.next.seats[i].player.move_cache is None
            &&& moved.next.first_releasable() != Some(i)
            &&& moved.next.get_move(id, again).effects == Seq::<EffectView>::empty()
        }),
{
    let i = s.seat_of(id).unwrap();
    let asked = s.get_move(id, reply);
    // Asking moves nobody, and the opponent's opponent is the one who asked.
    assert(asked.next.seat_of(id) == Some(i));
    assert(asked.next.opponent_of(opponent) == Some(i));
}

/// A player who waits for a move with none held for them goes on waiting on
/// the same channel, whatever else is put to the engine: only a move from
/// another player ends the wait. Nothing but their colour, which the start of
/// the game settles, can change about them meanwhile.
pub proof fn lemma_wait_lasts_until_a_move(s: EngineView, command: CommandView, i: int)
    requires
        s.wf(),
        s.fault(command.data) is None,
        0 <= i < s.seats.len(),
        s.seats[i].player.state == PlayerState::WaitingOnMove,
        s.seats[i].player.move_cache is None,
        !(command.data is Move && command.data->Move_0 != s.seats[i].id),
    ensures
        s.handle(command).next.seats[i].id == s.seats[i].id,
        s.handle(command).next.seats[i].player == (PlayerView {
            colour: s.handle(command).next.seats[i].player.colour,
            ..s.seats[i].player
        }),
        s.release().next.seats[i] == s.seats[i],
{
    match command.data {
        CommandDataView::Move(id, mov) => {
            // The move is the waiting player's own, and goes to the other.
            assert(s.seat_of(id) == Some(i));
            assert(s.opponent_of(id) == Some(1 - i));
        },
        _ => {},
    }
}

/// A wait for a move begins in one way only: the player asks for a move
/// and none can be given at once. Nothing goes out when it begins, and the
/// channel the player is then owed an answer on is the one that came with
/// the request.
pub proof fn lemma_wait_begins_with_get_move(s: EngineView, command: CommandView, i: int)
    requires
        s.wf(),
        s.fault(command.data) is None,
        0 <= i < s.seats.len(),
        s.seats[i].player.state == PlayerState::Default,
        s.handle(command).next.seats[i].player.state == PlayerState::WaitingOnMove,
    ensures
        command.data == CommandDataView::GetMove(s.seats[i].id),
        s.handle(command).effects == Seq::<EffectView>::empty(),
        s.handle(command).next.seats[i].player.reply == Some(command.reply),
        s.release().next.seats[i].player.state == PlayerState::Default,
{
}

/// A wait for a move ends in one way only: a move goes out to the player
/// on the channel they were waiting on. It is the move their opponent has
/// just made, or, when the operator lets a move through, the one that was
/// held for them.
pub proof fn lemma_wait_ends_with_a_move(s: EngineView, command: CommandView, i: int)
    requires
        s.wf(),
        s.fault(command.data) is None,
        0 <= i < s.seats.len(),
        s.seats[i].player.state == PlayerState::WaitingOnMove,
    ensures
        ({
            let owed = s.seats[i].player.reply.unwrap();
            let step = s.handle(command);
            let let_through = s.release();
            &&& step.next.seats[i].player.state == PlayerState::Default ==> {
                &&& command.data is Move
                &&& command.data->Move_0 != s.seats[i].id
                &&& step.effects.len() == 2
                &&& step.effects[1] == EffectView::Reply(
                    owed,
                    Ok(CommandOkView::Move(command.data->Move_1)),
                )
                &&& step.next.seats[i].player.reply is None
                &&& step.next.seats[i].player.move_cache is None
            }
            &&& let_through.next.seats[i].player.state == PlayerState::Default ==> {
                &&& s.seats[i].player.move_cache is Some
                &&& let_through.effects == seq![
                    EffectView::Reply(
                        owed,
                        Ok(CommandOkView::Move(s.seats[i].player.move_cache.unwrap())),
                    ),
                ]
                &&& let_through.next.seats[i].player.reply is None
                &&& let_through.next.seats[i].player.move_cache is None
            }
        }),
{
    match command.data {
        CommandDataView::Move(id, mov) => {
            if s.seat_of(id) == Some(i) {
                assert(s.opponent_of(id) == Some(1 - i));
            }
        },
        _ => {},
    }
}

/// No answer that is owed is lost. A player who is owed an answer on a
/// channel is, after any command, either still owed it on that channel or
/// has been given an answer on it; and the same holds when a move is let
/// through.
pub proof fn lemma_owed_answer_is_kept_or_given(s: EngineView, command: CommandView, i: int)
    requires
        s.wf(),
        s.fault(command.data) is None,
        0 <= i < s.seats.len(),
        s.seats[i].player.reply is Some,
    ensures
        ({
            let owed = s.seats[i].player.reply.unwrap();
            let step = s.handle(command);
            let let_through = s.release();
            &&& step.next.seats[i].player.reply == Some(owed) || (step.next.seats[i].player.reply
                is None && exists|k: int|
                0 <= k < step.effects.len() && (#[trigger] step.effects[k]) is Reply
                    && step.effects[k]->Reply_0 == owed)
            &&& let_through.next.seats[i].player.reply == Some(owed) || (
            let_through.next.seats[i].player.reply is None && exists|k: int|
                0 <= k < let_through.effects.len() && (#[trigger] let_through.effects[k]) is Reply
                    && let_through.effects[k]->Reply_0 == owed)
        }),
{
    let owed = s.seats[i].player.reply.unwrap();
    let step = s.handle(command);
    let let_through = s.release();
    if step.next.seats[i].player.reply != Some(owed) {
        match command.data {
            CommandDataView::Move(id, mov) => {
                assert(step.effects[1] is Reply && step.effects[1]->Reply_0 == owed);
            },
            CommandDataView::Ready(id) => {
                if i == 0 {
                    assert(step.effects[0] is Reply && step.effects[0]->Reply_0 == owed);
                } else {
                    let k = step.effects.len() - 1;
                    assert(step.effects[k] is Reply && step.effects[k]->Reply_0 == owed);
                }
            },
            _ => {},
        }
    }
    if let_through.next.seats[i].player.reply != Some(owed) {
        assert(let_through.effects[0] is Reply && let_through.effects[0]->Reply_0 == owed);
    }
}

/// Something that happens to the engine.
pub enum EventView {
    /// A command arrives.
    Command(CommandView),
    /// The operator lets a move through.
    Release,
}

impl EngineView {
    /// What the engine does when `event` happens. A command it cannot act on
    /// changes nothing.
    pub open spec fn on(self, event: EventView) -> Step {
        match event {
            EventView::Command(command) => if self.fault(command.data) is None {
                self.handle(command)
            } else {
                Step { next: self, effects: seq![] }
            },
            EventView::Release => self.release(),
        }
    }

    /// The state after all of `events` have happened, the first first.
    pub open spec fn after(self, events: Seq<EventView>) -> EngineView
        decreases events.len(),
    {
        if events.len() == 0 {
            self
        } else {
            self.after(events.drop_last()).on(events.last()).next
        }
    }
}

/// A well-formed engine stays well formed whatever happens to it, and in
/// whatever order.
pub proof fn lemma_stays_well_formed(s: EngineView, events: Seq<EventView>)
    requires
        s.wf(),
    ensures
        s.after(events).wf(),
    decreases events.len(),
{
    if events.len() > 0 {
        let before = s.after(events.drop_last());
        lemma_stays_well_formed(s, events.drop_last());
        match events.last() {
            EventView::Command(command) => {
                if before.fault(command.data) is None {
                    lemma_handle_keeps_well_formed(before, command);
                }
            },
            EventView::Release => {
                lemma_release_keeps_well_formed(before);
            },
        }
    }
}

/// At every moment of every game there are at most two players, no two of
/// them under one id, and none of them waits for a move without a channel to
/// be told on.
pub proof fn lemma_every_game_is_well_formed(events: Seq<EventView>)
    ensures
        EngineView::initial().after(events).wf(),
        EngineView::initial().after(events).seats.len() <= 2,
{
    lemma_stays_well_formed(EngineView::initial(), events);
}

/// A seat, once taken, is held for the rest of the game by the id that took
/// it.
pub proof fn lemma_seat_is_held_for_good(s: EngineView, events: Seq<EventView>, id: i32)
    requires
        s.wf(),
        s.seat_of(id) is Some,
    ensures
        s.after(events).seat_of(id) == s.seat_of(id),
    decreases events.len(),
{
    if events.len() > 0 {
        let before = s.after(events.drop_last());
        lemma_seat_is_held_for_good(s, events.drop_last(), id);
        lemma_stays_well_formed(s, events.drop_last());
        match events.last() {
            EventView::Command(command) => {
                if before.fault(command.data) is None {
                    lemma_seats_persist(before, command, id);
                }
            },
            EventView::Release => {
                assert(before.release().next.seat_of(id) == before.seat_of(id));
            },
        }
    }
}

/// Colours are settled by the start and by nothing else: as long as not
/// both players are ready everybody's colour is the one they were registered
/// with, white; and from the moment both are ready the first to have
/// registered plays white and the second black, for good.
pub proof fn lemma_colours_are_settled_by_the_start(events: Seq<EventView>)
    ensures
        ({
            let s = EngineView::initial().after(events);
            &&& s.all_ready() ==> s.seats[0].player.colour == Colour::White
                && s.seats[1].player.colour == Colour::Black
            &&& !s.all_ready() ==> forall|i: int|
                0 <= i < s.seats.len() ==> (#[trigger] s.seats[i]).player.colour == Colour::White
        }),
{
    lemma_stays_well_formed(EngineView::initial(), events);
}

} // verus!
