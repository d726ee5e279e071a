//! The player's side of a connection: how a request to the server is
//! worded, and how the server's answers are read.

use crate::board::Colour;
use crate::command::Move;
use crate::protocol::{
    get_move_text, is_name, is_name_char, is_name_letter, lemma_start_text_shape, move_text,
    parse_move, parse_start, read_move, ready_text, register_text, start_text, write_move,
};
use crate::server::PORT;
use crate::text::{chars_of, stands_at};
use vstd::prelude::*;
use vstd::string::*;

verus! {

/// The port the server listens on unless told otherwise.
pub fn default_server_port() -> (port: u16)
    ensures
        port == PORT,
{
    PORT
}

/// The words in which a player registers under `name`.
pub fn register_request(name: &str) -> (r: String)
    ensures
        r@ == register_text(name@, true),
{
    let mut out = "Hello, my name is ".to_owned();
    out.append(name);
    out.append(", you killed my father, prepare to die");
    out.append(";");
    proof {
        reveal_strlit(";");
    }
    out
}

/// The words in which a player moves a piece from (`mov.sx`, `mov.sy`) to
/// (`mov.dx`, `mov.dy`).
pub fn move_request(mov: &Move) -> (r: String)
    ensures
        r@ == move_text(*mov, true, true),
{
    write_move(mov, true, true)
}

/// The words in which a player asks for the opponent's next move.
pub fn get_move_request() -> (r: String)
    ensures
        r@ == get_move_text(),
{
    "Gimmeh!;".to_owned()
}

/// The words in which a player says they are ready to start.
pub fn ready_request() -> (r: String)
    ensures
        r@ == ready_text(),
{
    "Bring it, yo;".to_owned()
}

/// Reads the opponent's move off the server's answer.
pub fn read_move_reply(msg: &str) -> (r: Option<Move>)
    ensures
        r == parse_move(msg@),
{
    let chars = chars_of(msg);
    read_move(&chars)
}

/// Reads the player's colour and the opponent's name off the announcement
/// of the start.
pub fn read_start_reply(msg: &str) -> (r: Option<(Colour, String)>)
    ensures
        r is Some <==> parse_start(msg@) is Some,
        r is Some ==> r.unwrap().0 == parse_start(msg@).unwrap().0 && r.unwrap().1@
            == parse_start(msg@).unwrap().1,
{
    let chars = chars_of(msg);
    let n: usize = chars.len();
    let ghost s = chars@;
    let ghost opponent = if n >= 39 { s.subrange(18, n - 21) } else { s };
    proof {
        reveal_strlit("You are White and ");
        reveal_strlit("You are Black and ");
        reveal_strlit(" wants to batter you;");
        reveal_strlit("You are ");
        reveal_strlit("White");
        reveal_strlit("Black");
        reveal_strlit(" and ");
        lemma_start_text_shape(Colour::White, opponent);
        lemma_start_text_shape(Colour::Black, opponent);
    }
    if n < 39 {
        return None;
    }
    let colour = if stands_at(&chars, 0, "You are White and ") {
        Colour::White
    } else if stands_at(&chars, 0, "You are Black and ") {
        Colour::Black
    } else {
        proof {
            if s == start_text(Colour::White, opponent) {
                assert(s.subrange(0, 18) =~= "You are White and "@);
            }
            if s == start_text(Colour::Black, opponent) {
                assert(s.subrange(0, 18) =~= "You are Black and "@);
            }
        }
        return None;
    };
    if !stands_at(&chars, n - 21, " wants to batter you;") {
        proof {
            if s == start_text(colour, opponent) {
                assert(s.subrange(n - 21, n as int) =~= " wants to batter you;"@);
            }
            assert(s.subrange(0, 18)[8] == s[8]);
        }
        return None;
    }
    let mut i: usize = 18;
    while i < n - 21
        invariant
            n == chars.len(),
            n >= 39,
            s == chars@,
            s == msg@,
            opponent == s.subrange(18, n - 21),
            18 <= i <= n - 21,
            forall|j: int| 18 <= j < i ==> is_name_char(#[trigger] s[j]),
        decreases n - i,
    {
        if !is_name_letter(chars[i]) {
            assert(opponent[i - 18] == s[i as int]);
            return None;
        }
        i += 1;
    }
    if n == 39 {
        return None;
    }
    proof {
        assert forall|j: int| 0 <= j < opponent.len() implies is_name_char(
            #[trigger] opponent[j],
        ) by {
            assert(opponent[j] == s[j + 18]);
        }
        let tail = s.subrange(n - 21, n as int);
        assert forall|j: int| 0 <= j < n implies s[j] == start_text(colour, opponent)[j] by {
            if j < 18 {
                assert(s.subrange(0, 18)[j] == s[j]);
            } else if j >= n - 21 {
                assert(tail[j - (n - 21)] == s[j]);
            } else {
                assert(opponent[j - 18] == s[j]);
            }
        }
        assert(s =~= start_text(colour, opponent));
    }
    Some((colour, msg.substring_char(18, n - 21).to_owned()))
}

} // verus!
