//! The text protocol, as mathematics: what each message looks like on the
//! wire and which texts are read back as which message.
//!
//! Every message ends in `;`.
//!
//! | message  | text                                                              |
//! |----------|-------------------------------------------------------------------|
//! | register | `Hello, my name is NAME[, you killed my father, prepare to die];` |
//! | move     | `(SX,SY)[ ]->[ ](DX,DY);`                                         |
//! | get move | `Gimmeh!;`                                                        |
//! | ready    | `Bring it, yo;`                                                   |
//! | message  | `"TEXT";`                                                         |
//!
//! Parts in square brackets may be left out. A coordinate is one digit from
//! `0` to `7`, a name is one or more ASCII letters and digits, and the text of
//! a message is one or more characters, none of them a line feed.

use crate::board::Colour;
use crate::command::Move;
use crate::text::{chars_of, decimal, digit_char, push_decimal, stands_at};
use vstd::prelude::*;
use vstd::string::*;

verus! {

/// A message of the protocol, before it is tied to a connection.
#[derive(Clone, Debug, PartialEq, Eq)]
pub enum Request {
    Move(Move),
    Register(String),
    Message(String),
    GetMove,
    Ready,
}

impl View for Request {
    type V = RequestView;

    open spec fn view(&self) -> RequestView {
        match *self {
            Request::Move(m) => RequestView::Move(m),
            Request::Register(name) => RequestView::Register(name@),
            Request::Message(body) => RequestView::Message(body@),
            Request::GetMove => RequestView::GetMove,
            Request::Ready => RequestView::Ready,
        }
    }
}

pub enum RequestView {
    Move(Move),
    Register(Seq<char>),
    Message(Seq<char>),
    GetMove,
    Ready,
}

/// The choices the grammar leaves to whoever writes a message down.
pub struct Style {
    /// A blank before the arrow of a move.
    pub gap_before: bool,
    /// A blank after the arrow of a move.
    pub gap_after: bool,
    /// The long form of a registration.
    pub flourish: bool,
}

pub open spec fn is_coord(c: char) -> bool {
    '0' <= c <= '7'
}

/// The number a digit stands for.
pub open spec fn digit_value(c: char) -> u8 {
    (c as u32 - '0' as u32) as u8
}

pub open spec fn is_name_char(c: char) -> bool {
    ('A' <= c <= 'Z') || ('a' <= c <= 'z') || ('0' <= c <= '9')
}

pub open spec fn is_name(s: Seq<char>) -> bool {
    &&& s.len() > 0
    &&& forall|i: int| 0 <= i < s.len() ==> is_name_char(#[trigger] s[i])
}

pub open spec fn is_message_body(s: Seq<char>) -> bool {
    &&& s.len() > 0
    &&& forall|i: int| 0 <= i < s.len() ==> #[trigger] s[i] != '\n'
}

pub open spec fn gap(present: bool) -> Seq<char> {
    if present {
        seq![' ']
    } else {
        seq![]
    }
}

pub open spec fn pair_text(x: u8, y: u8) -> Seq<char> {
    seq!['('] + decimal(x) + seq![','] + decimal(y) + seq![')']
}

pub open spec fn move_text(m: Move, gap_before: bool, gap_after: bool) -> Seq<char> {
    pair_text(m.sx, m.sy) + gap(gap_before) + seq!['-', '>'] + gap(gap_after) + pair_text(
        m.dx,
        m.dy,
    ) + seq![';']
}

pub open spec fn greeting() -> Seq<char> {
    "Hello, my name is "@
}

pub open spec fn flourish() -> Seq<char> {
    ", you killed my father, prepare to die"@
}

pub open spec fn register_text(name: Seq<char>, long: bool) -> Seq<char> {
    greeting() + name + (if long {
        flourish()
    } else {
        seq![]
    }) + seq![';']
}

pub open spec fn message_text(body: Seq<char>) -> Seq<char> {
    seq!['"'] + body + seq!['"', ';']
}

pub open spec fn get_move_text() -> Seq<char> {
    "Gimmeh!;"@
}

pub open spec fn ready_text() -> Seq<char> {
    "Bring it, yo;"@
}

impl RequestView {
    /// The message is one the grammar can express.
    pub open spec fn well_formed(self) -> bool {
        match self {
            RequestView::Move(m) => m.in_bounds(),
            RequestView::Register(name) => is_name(name),
            RequestView::Message(body) => is_message_body(body),
            RequestView::GetMove => true,
            RequestView::Ready => true,
        }
    }

    /// The message written down in the given style.
    pub open spec fn text(self, style: Style) -> Seq<char> {
        match self {
            RequestView::Move(m) => move_text(m, style.gap_before, style.gap_after),
            RequestView::Register(name) => register_text(name, style.flourish),
            RequestView::Message(body) => message_text(body),
            RequestView::GetMove => get_move_text(),
            RequestView::Ready => ready_text(),
        }
    }
}

/// The move that `s` spells, if it spells one: the coordinates are read off
/// the places they must stand at, and `s` must then be that move written with
/// or without each blank.
pub open spec fn parse_move(s: Seq<char>) -> Option<Move> {
    if s.len() < 13 {
        None
    } else {
        let m = Move {
            sx: digit_value(s[1]),
            sy: digit_value(s[3]),
            dx: digit_value(s[s.len() - 5]),
            dy: digit_value(s[s.len() - 3]),
        };
        if m.in_bounds() && (s == move_text(m, false, false) || s == move_text(m, true, false) || s
            == move_text(m, false, true) || s == move_text(m, true, true)) {
            Some(m)
        } else {
            None
        }
    }
}

/// The name that `s` registers, if it is a registration in the short or the
/// long form.
pub open spec fn parse_register(s: Seq<char>) -> Option<Seq<char>> {
    let short = s.subrange(18, s.len() - 1);
    let long = s.subrange(18, s.len() - 39);
    if s.len() >= 19 && is_name(short) && s == register_text(short, false) {
        Some(short)
    } else if s.len() >= 57 && is_name(long) && s == register_text(long, true) {
        Some(long)
    } else {
        None
    }
}

/// The text that `s` carries, if it is a message to be shown.
pub open spec fn parse_message(s: Seq<char>) -> Option<Seq<char>> {
    let body = s.subrange(1, s.len() - 2);
    if s.len() >= 3 && is_message_body(body) && s == message_text(body) {
        Some(body)
    } else {
        None
    }
}

/// The message that `s` spells, if any.
pub open spec fn parse(s: Seq<char>) -> Option<RequestView> {
    if s == get_move_text() {
        Some(RequestView::GetMove)
    } else if s == ready_text() {
        Some(RequestView::Ready)
    } else if parse_move(s) is Some {
        Some(RequestView::Move(parse_move(s).unwrap()))
    } else if parse_register(s) is Some {
        Some(RequestView::Register(parse_register(s).unwrap()))
    } else if parse_message(s) is Some {
        Some(RequestView::Message(parse_message(s).unwrap()))
    } else {
        None
    }
}

/// The announcement of the start of the game to the player of `colour`.
pub open spec fn start_text(colour: Colour, opponent: Seq<char>) -> Seq<char> {
    "You are "@ + colour.label() + " and "@ + opponent + " wants to batter you;"@
}

/// The colour and the opponent that `s` announces, if it announces a start.
pub open spec fn parse_start(s: Seq<char>) -> Option<(Colour, Seq<char>)> {
    let opponent = s.subrange(18, s.len() - 21);
    if s.len() >= 39 && is_name(opponent) && s == start_text(Colour::White, opponent) {
        Some((Colour::White, opponent))
    } else if s.len() >= 39 && is_name(opponent) && s == start_text(Colour::Black, opponent) {
        Some((Colour::Black, opponent))
    } else {
        None
    }
}

/// The digits of a coordinate on the board are a single character.
pub proof fn lemma_decimal_of_coord(d: u8)
    requires
        d < 10,
    ensures
        decimal(d) == seq![digit_char(d)],
        digit_value(digit_char(d)) == d,
        d < 8 ==> is_coord(digit_char(d)),
{
}

/// Where the characters of a written move stand.
pub proof fn lemma_move_text_shape(m: Move, gap_before: bool, gap_after: bool)
    requires
        m.in_bounds(),
    ensures
        ({
            let s = move_text(m, gap_before, gap_after);
            let a: int = if gap_before { 1 } else { 0 };
            let b: int = if gap_after { 1 } else { 0 };
            &&& s.len() == 13 + a + b
            &&& s[0] == '('
            &&& s[1] == digit_char(m.sx)
            &&& s[2] == ','
            &&& s[3] == digit_char(m.sy)
            &&& s[4] == ')'
            &&& (gap_before ==> s[5] == ' ')
            &&& s[5 + a] == '-'
            &&& s[6 + a] == '>'
            &&& (gap_after ==> s[7 + a] == ' ')
            &&& s[7 + a + b] == '('
            &&& s[8 + a + b] == digit_char(m.dx)
            &&& s[9 + a + b] == ','
            &&& s[10 + a + b] == digit_char(m.dy)
            &&& s[11 + a + b] == ')'
            &&& s[12 + a + b] == ';'
        }),
{
    lemma_decimal_of_coord(m.sx);
    lemma_decimal_of_coord(m.sy);
    lemma_decimal_of_coord(m.dx);
    lemma_decimal_of_coord(m.dy);
}

/// A written move is read back as the move it was written from, whichever
/// blanks it was written with.
pub proof fn lemma_move_round_trip(m: Move, gap_before: bool, gap_after: bool)
    requires
        m.in_bounds(),
    ensures
        parse_move(move_text(m, gap_before, gap_after)) == Some(m),
{
    lemma_move_text_shape(m, gap_before, gap_after);
    lemma_decimal_of_coord(m.sx);
    lemma_decimal_of_coord(m.sy);
    lemma_decimal_of_coord(m.dx);
    lemma_decimal_of_coord(m.dy);
}

/// A written registration is read back as the name it was written for, in
/// the short form and in the long one.
pub proof fn lemma_register_round_trip(name: Seq<char>, long: bool)
    requires
        is_name(name),
    ensures
        parse_register(register_text(name, long)) == Some(name),
{
    reveal_strlit("Hello, my name is ");
    reveal_strlit(", you killed my father, prepare to die");
    let s = register_text(name, long);
    if long {
        let short = s.subrange(18, s.len() - 1);
        assert(short[name.len() as int] == ',');
        assert(s.subrange(18, s.len() - 39) =~= name);
    } else {
        assert(s.subrange(18, s.len() - 1) =~= name);
    }
}

/// A written message is read back as the text it carries.
pub proof fn lemma_message_round_trip(body: Seq<char>)
    requires
        is_message_body(body),
    ensures
        parse_message(message_text(body)) == Some(body),
{
    let s = message_text(body);
    assert(s.subrange(1, s.len() - 2) =~= body);
}

/// Every message the grammar can express is read back from its text exactly
/// as it was, in whatever style it was written.
pub proof fn lemma_request_round_trip(request: RequestView, style: Style)
    requires
        request.well_formed(),
    ensures
        parse(request.text(style)) == Some(request),
{
    reveal_strlit("Gimmeh!;");
    reveal_strlit("Bring it, yo;");
    reveal_strlit("Hello, my name is ");
    let s = request.text(style);
    match request {
        RequestView::Move(m) => {
            lemma_move_text_shape(m, style.gap_before, style.gap_after);
            lemma_move_round_trip(m, style.gap_before, style.gap_after);
        },
        RequestView::Register(name) => {
            lemma_register_round_trip(name, style.flourish);
            if parse_move(s) is Some {
                let m = parse_move(s).unwrap();
                lemma_move_text_shape(m, false, false);
                lemma_move_text_shape(m, true, false);
                lemma_move_text_shape(m, false, true);
                lemma_move_text_shape(m, true, true);
            }
        },
        RequestView::Message(body) => {
            lemma_message_round_trip(body);
            assert(s[0] == '"');
            if parse_move(s) is Some {
                let m = parse_move(s).unwrap();
                lemma_move_text_shape(m, false, false);
                lemma_move_text_shape(m, true, false);
                lemma_move_text_shape(m, false, true);
                lemma_move_text_shape(m, true, true);
            }
        },
        RequestView::GetMove => {},
        RequestView::Ready => {},
    }
}

/// Whatever is read from a text is a message the grammar can express, and
/// the text is that message written in some style: nothing else is accepted.
pub proof fn lemma_parse_is_exact(s: Seq<char>)
    requires
        parse(s) is Some,
    ensures
        parse(s).unwrap().well_formed(),
        exists|style: Style| s == #[trigger] parse(s).unwrap().text(style),
{
    let request = parse(s).unwrap();
    match request {
        RequestView::Move(m) => {
            let ff = Style { gap_before: false, gap_after: false, flourish: false };
            let tf = Style { gap_before: true, gap_after: false, flourish: false };
            let ft = Style { gap_before: false, gap_after: true, flourish: false };
            let tt = Style { gap_before: true, gap_after: true, flourish: false };
            assert(s == request.text(ff) || s == request.text(tf) || s == request.text(ft) || s
                == request.text(tt));
        },
        RequestView::Register(name) => {
            let short = Style { gap_before: false, gap_after: false, flourish: false };
            let long = Style { gap_before: false, gap_after: false, flourish: true };
            assert(s == request.text(short) || s == request.text(long));
        },
        _ => {},
    }
}

/// Where the parts of the announcement of a start stand.
pub proof fn lemma_start_text_shape(colour: Colour, opponent: Seq<char>)
    ensures
        ({
            let s = start_text(colour, opponent);
            &&& s.len() == opponent.len() + 39
            &&& s.subrange(18, s.len() - 21) == opponent
            &&& s[8] == (if colour == Colour::White {
                'W'
            } else {
                'B'
            })
        }),
{
    reveal_strlit("You are ");
    reveal_strlit("White");
    reveal_strlit("Black");
    reveal_strlit(" and ");
    reveal_strlit(" wants to batter you;");
}

/// The announcement of a start is read back as the colour and the opponent
/// it was written for.
pub proof fn lemma_start_round_trip(colour: Colour, opponent: Seq<char>)
    requires
        is_name(opponent),
    ensures
        parse_start(start_text(colour, opponent)) == Some((colour, opponent)),
{
    lemma_start_text_shape(colour, opponent);
    lemma_start_text_shape(colour.flipped(), opponent);
}

pub fn is_name_letter(c: char) -> (r: bool)
    ensures
        r == is_name_char(c),
{
    (c >= 'A' && c <= 'Z') || (c >= 'a' && c <= 'z') || (c >= '0' && c <= '9')
}

/// The coordinate that `c` stands for, if it is a digit of the board.
pub fn read_coord(c: char) -> (r: Option<u8>)
    ensures
        r is Some <==> is_coord(c),
        r is Some ==> r.unwrap() == digit_value(c) && r.unwrap() < 8,
{
    if c >= '0' && c <= '7' {
        let d: u8 = ((c as u32) - ('0' as u32)) as u8;
        Some(d)
    } else {
        None
    }
}

/// Reads a move off its characters.
pub fn read_move(chars: &Vec<char>) -> (r: Option<Move>)
    ensures
        r == parse_move(chars@),
{
    let n: usize = chars.len();
    let ghost s = chars@;
    let ghost spelled = Move {
        sx: digit_value(s[1]),
        sy: digit_value(s[3]),
        dx: digit_value(s[s.len() - 5]),
        dy: digit_value(s[s.len() - 3]),
    };
    proof {
        if n >= 13 && spelled.in_bounds() {
            lemma_move_text_shape(spelled, false, false);
            lemma_move_text_shape(spelled, true, false);
            lemma_move_text_shape(spelled, false, true);
            lemma_move_text_shape(spelled, true, true);
        }
    }
    if n < 13 || n > 15 {
        return None;
    }
    let a: usize = if chars[5] == ' ' { 1 } else { 0 };
    let b: usize = if chars[7 + a] == ' ' { 1 } else { 0 };
    if n != 13 + a + b {
        return None;
    }
    if chars[0] != '(' || chars[2] != ',' || chars[4] != ')' || chars[5 + a] != '-' || chars[6 + a]
        != '>' || chars[7 + a + b] != '(' || chars[9 + a + b] != ',' || chars[11 + a + b] != ')'
        || chars[12 + a + b] != ';' {
        return None;
    }
    let sx = read_coord(chars[1]);
    let sy = read_coord(chars[3]);
    let dx = read_coord(chars[8 + a + b]);
    let dy = read_coord(chars[10 + a + b]);
    match (sx, sy, dx, dy) {
        (Some(sx), Some(sy), Some(dx), Some(dy)) => {
            let m = Move { sx, sy, dx, dy };
            proof {
                assert(m == spelled);
                lemma_decimal_of_coord(sx);
                lemma_decimal_of_coord(sy);
                lemma_decimal_of_coord(dx);
                lemma_decimal_of_coord(dy);
                assert(s =~= move_text(m, a == 1, b == 1));
            }
            Some(m)
        },
        _ => {
            proof {
                if spelled.in_bounds() {
                    lemma_decimal_of_coord(spelled.sx);
                    lemma_decimal_of_coord(spelled.sy);
                    lemma_decimal_of_coord(spelled.dx);
                    lemma_decimal_of_coord(spelled.dy);
                }
            }
            None
        },
    }
}

/// Reads the name off a registration. `chars` holds the characters of
/// `text`.
fn read_register(text: &str, chars: &Vec<char>) -> (r: Option<String>)
    requires
        chars@ == text@,
    ensures
        r is Some <==> parse_register(chars@) is Some,
        r is Some ==> r.unwrap()@ == parse_register(chars@).unwrap(),
{
    let n: usize = chars.len();
    let ghost s = chars@;
    let ghost short = if n >= 19 { s.subrange(18, n - 1) } else { s };
    let ghost long = if n >= 57 { s.subrange(18, n - 39) } else { s };
    proof {
        reveal_strlit("Hello, my name is ");
        reveal_strlit(", you killed my father, prepare to die");
        reveal_strlit(", you killed my father, prepare to die;");
    }
    if !stands_at(chars, 0, "Hello, my name is ") {
        proof {
            // Both forms begin with the greeting.
            if n >= 19 && s == register_text(short, false) {
                assert(s.subrange(0, 18) =~= greeting());
            }
            if n >= 57 && s == register_text(long, true) {
                assert(s.subrange(0, 18) =~= greeting());
            }
        }
        return None;
    }
    let mut end: usize = 18;
    while end < n && is_name_letter(chars[end])
        invariant
            n == chars.len(),
            s == chars@,
            18 <= end <= n,
            forall|j: int| 18 <= j < end ==> is_name_char(#[trigger] s[j]),
        decreases n - end,
    {
        end += 1;
    }
    let ghost name = s.subrange(18, end as int);
    proof {
        // A name runs up to the first character that no name holds, so the
        // name of either form ends where the scan stopped.
        if n >= 19 && is_name(short) && s == register_text(short, false) {
            assert(s[n - 1] == ';');
            if end < n - 1 {
                assert(short[end - 18] == s[end as int]);
            }
            assert(end == n - 1);
        }
        if n >= 57 && is_name(long) && s == register_text(long, true) {
            assert(s[n - 39] == ',');
            if end < n - 39 {
                assert(long[end - 18] == s[end as int]);
            }
            assert(end == n - 39);
        }
    }
    if end == 18 {
        return None;
    }
    assert(is_name(name));
    if n - end == 1 && chars[end] == ';' {
        let found = text.substring_char(18, end).to_owned();
        proof {
            assert(name =~= short);
            assert(s =~= register_text(short, false));
        }
        return Some(found);
    }
    if stands_at(chars, end, ", you killed my father, prepare to die;") && n - end == 39 {
        let found = text.substring_char(18, end).to_owned();
        proof {
            assert(name =~= long);
            let tail = s.subrange(end as int, end + 39);
            assert forall|j: int| 0 <= j < 38 implies s[end + j] == flourish()[j] by {
                assert(tail[j] == s[end + j]);
            }
            assert(s[end + 38] == tail[38]);
            assert(s =~= register_text(long, true));
            // The long form is no short form of a longer name: a comma
            // stands where that name would go on.
            if n >= 19 && is_name(short) {
                assert(short[end - 18] == s[end as int]);
                assert(tail[0] == s[end as int]);
            }
        }
        return Some(found);
    }
    proof {
        if n >= 57 && is_name(long) && s == register_text(long, true) {
            assert(s.subrange(end as int, end + 39) =~= ", you killed my father, prepare to die;"@);
        }
    }
    None
}

/// Reads the text off a message to be shown. `chars` holds the characters of
/// `text`.
fn read_message(text: &str, chars: &Vec<char>) -> (r: Option<String>)
    requires
        chars@ == text@,
    ensures
        r is Some <==> parse_message(chars@) is Some,
        r is Some ==> r.unwrap()@ == parse_message(chars@).unwrap(),
{
    let n: usize = chars.len();
    let ghost s = chars@;
    if n < 4 || chars[0] != '"' || chars[n - 2] != '"' || chars[n - 1] != ';' {
        return None;
    }
    let ghost body = s.subrange(1, n - 2);
    let mut i: usize = 1;
    while i < n - 2
        invariant
            n == chars.len(),
            n >= 4,
            s == chars@,
            1 <= i <= n - 2,
            body == s.subrange(1, n - 2),
            forall|j: int| 1 <= j < i ==> #[trigger] s[j] != '\n',
        decreases n - i,
    {
        if chars[i] == '\n' {
            assert(body[i - 1] == s[i as int]);
            return None;
        }
        i += 1;
    }
    assert(is_message_body(body));
    assert(s =~= message_text(body));
    Some(text.substring_char(1, n - 2).to_owned())
}

/// Reads a message of the protocol off its text.
pub fn read_request(text: &str) -> (r: Option<Request>)
    ensures
        r is Some <==> parse(text@) is Some,
        r is Some ==> r.unwrap()@ == parse(text@).unwrap(),
{
    let chars = chars_of(text);
    proof {
        reveal_strlit("Gimmeh!;");
        reveal_strlit("Bring it, yo;");
    }
    if chars.len() == 8 && stands_at(&chars, 0, "Gimmeh!;") {
        assert(chars@.subrange(0, 8) =~= chars@);
        return Some(Request::GetMove);
    }
    if chars.len() == 13 && stands_at(&chars, 0, "Bring it, yo;") {
        assert(chars@.subrange(0, 13) =~= chars@);
        return Some(Request::Ready);
    }
    assert(chars@ != get_move_text()) by {
        if chars@ == get_move_text() {
            assert(chars@.subrange(0, 8) =~= chars@);
        }
    }
    assert(chars@ != ready_text()) by {
        if chars@ == ready_text() {
            assert(chars@.subrange(0, 13) =~= chars@);
        }
    }
    if let Some(m) = read_move(&chars) {
        return Some(Request::Move(m));
    }
    if let Some(name) = read_register(text, &chars) {
        return Some(Request::Register(name));
    }
    if let Some(body) = read_message(text, &chars) {
        return Some(Request::Message(body));
    }
    None
}

/// A move as it is written, with a blank on either side of the arrow where
/// asked for.
pub fn write_move(m: &Move, gap_before: bool, gap_after: bool) -> (r: String)
    ensures
        r@ == move_text(*m, gap_before, gap_after),
{
    proof {
        reveal_strlit("(");
        reveal_strlit(",");
        reveal_strlit(")");
        reveal_strlit(" ");
        reveal_strlit("->");
        reveal_strlit(";");
    }
    let mut out = "(".to_owned();
    push_decimal(&mut out, m.sx);
    out.append(",");
    push_decimal(&mut out, m.sy);
    out.append(")");
    if gap_before {
        out.append(" ");
    }
    out.append("->");
    if gap_after {
        out.append(" ");
    }
    out.append("(");
    push_decimal(&mut out, m.dx);
    out.append(",");
    push_decimal(&mut out, m.dy);
    out.append(")");
    out.append(";");
    out
}

/// The announcement of the start of the game to the player of `colour`.
pub fn write_start(colour: Colour, opponent: &str) -> (r: String)
    ensures
        r@ == start_text(colour, opponent@),
{
    let mut out = "You are ".to_owned();
    out.append(colour.name());
    out.append(" and ");
    out.append(opponent);
    out.append(" wants to batter you;");
    out
}

} // verus!
