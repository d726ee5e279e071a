//! One registered player: who they are, and what they are waiting for.

use crate::board::Colour;
use crate::command::{Move, ReplyHandle};
use vstd::prelude::*;

verus! {

#[derive(Clone, Copy, Debug, PartialEq, Eq, Structural)]
pub enum PlayerState {
    Default,
    WaitingOnMove,
}

pub struct Player {
    pub name: String,
    pub ready: bool,
    /// Where a deferred answer is owed, while one is owed.
    pub reply: Option<ReplyHandle>,
    /// Means something only once both players are ready.
    pub colour: Colour,
    /// The opponent's latest move, held until the player asks for it.
    pub move_cache: Option<Move>,
    pub state: PlayerState,
}

pub struct PlayerView {
    pub name: Seq<char>,
    pub ready: bool,
    pub reply: Option<ReplyHandle>,
    pub colour: Colour,
    pub move_cache: Option<Move>,
    pub state: PlayerState,
}

impl View for Player {
    type V = PlayerView;

    open spec fn view(&self) -> PlayerView {
        PlayerView {
            name: self.name@,
            ready: self.ready,
            reply: self.reply,
            colour: self.colour,
            move_cache: self.move_cache,
            state: self.state,
        }
    }
}

impl PlayerView {
    /// A player as registration leaves them: not ready, owed nothing, holding
    /// no move.
    pub open spec fn fresh(name: Seq<char>) -> PlayerView {
        PlayerView {
            name,
            ready: false,
            reply: None,
            colour: Colour::White,
            move_cache: None,
            state: PlayerState::Default,
        }
    }

    /// A player who waits for a move has a channel on which to be told of it.
    pub open spec fn wf(self) -> bool {
        self.state is WaitingOnMove ==> self.reply is Some
    }

    /// The player has said they are ready and has not been told of the start.
    pub open spec fn awaits_start(self) -> bool {
        self.reply is Some && self.state is Default
    }

    /// The player waits for a move and one is already held for them.
    pub open spec fn awaits_release(self) -> bool {
        self.state is WaitingOnMove && self.move_cache is Some
    }
}

impl Player {
    /// Whether the player has said they are ready and has not been told of
    /// the start.
    pub fn awaits_start(&self) -> (r: bool)
        ensures
            r == self@.awaits_start(),
    {
        self.reply.is_some() && self.state == PlayerState::Default
    }

    /// Whether the player waits for a move and one is already held for them.
    pub fn awaits_release(&self) -> (r: bool)
        ensures
            r == self@.awaits_release(),
    {
        self.state == PlayerState::WaitingOnMove && self.move_cache.is_some()
    }

    pub fn new(name: String) -> (p: Player)
        ensures
            p@ == PlayerView::fresh(name@),
    {
        Player {
            name: name,
            ready: false,
            reply: None,
            colour: Colour::White,
            move_cache: None,
            state: PlayerState::Default,
        }
    }
}

} // verus!
