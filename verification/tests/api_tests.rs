use lines_of_action::api::{
    default_server_port, get_move_request, move_request, read_move_reply, read_start_reply,
    ready_request, register_request,
};
use lines_of_action::board::Colour;
use lines_of_action::command::{CommandOk, Move};
use lines_of_action::protocol::{read_request, write_start, Request};
use lines_of_action::server::{respond, Outgoing};

#[test]
fn default_port_is_the_servers() {
    assert_eq!(default_server_port(), 1234);
}

#[test]
fn requests_are_worded() {
    assert_eq!(
        register_request("Alice"),
        "Hello, my name is Alice, you killed my father, prepare to die;"
    );
    assert_eq!(move_request(&Move::new(0, 1, 1, 1)), "(0,1) -> (1,1);");
    assert_eq!(move_request(&Move::new(7, 6, 5, 4)), "(7,6) -> (5,4);");
    assert_eq!(get_move_request(), "Gimmeh!;");
    assert_eq!(ready_request(), "Bring it, yo;");
}

#[test]
fn server_reads_what_the_player_writes() {
    assert_eq!(
        read_request(&register_request("Alice")),
        Some(Request::Register("Alice".to_string()))
    );
    assert_eq!(
        read_request(&move_request(&Move::new(2, 3, 4, 5))),
        Some(Request::Move(Move::new(2, 3, 4, 5)))
    );
    assert_eq!(read_request(&get_move_request()), Some(Request::GetMove));
    assert_eq!(read_request(&ready_request()), Some(Request::Ready));
    assert_eq!(read_request(&register_request("not a name")), None);
    assert_eq!(read_request(&move_request(&Move::new(8, 0, 0, 0))), None);
}

#[test]
fn move_reply_is_read() {
    assert_eq!(read_move_reply("(0,1)->(1,1);"), Some(Move::new(0, 1, 1, 1)));
    assert_eq!(read_move_reply("(0,1) -> (1,1);"), Some(Move::new(0, 1, 1, 1)));
    assert_eq!(read_move_reply("(7,7)->(0,0);"), Some(Move::new(7, 7, 0, 0)));
    assert_eq!(read_move_reply("(8,1)->(1,1);"), None);
    assert_eq!(read_move_reply("Move successful;"), None);
    assert_eq!(read_move_reply(""), None);
}

#[test]
fn player_reads_the_move_the_server_writes() {
    for &m in &[Move::new(0, 1, 1, 1), Move::new(7, 0, 3, 4), Move::new(5, 5, 5, 5)] {
        match respond(&Request::GetMove, &Ok(CommandOk::Move(m))) {
            Outgoing::Write(text) => assert_eq!(read_move_reply(&text), Some(m)),
            other => panic!("{:?}", other),
        }
    }
}

#[test]
fn start_reply_is_read() {
    assert_eq!(
        read_start_reply("You are White and Bob wants to batter you;"),
        Some((Colour::White, "Bob".to_string()))
    );
    assert_eq!(
        read_start_reply("You are Black and Alice9 wants to batter you;"),
        Some((Colour::Black, "Alice9".to_string()))
    );
    assert_eq!(
        read_start_reply("You are Black and B wants to batter you;"),
        Some((Colour::Black, "B".to_string()))
    );
}

#[test]
fn start_reply_must_be_exact() {
    assert_eq!(read_start_reply("You are Green and Bob wants to batter you;"), None);
    assert_eq!(read_start_reply("You are white and Bob wants to batter you;"), None);
    assert_eq!(read_start_reply("You are White and  wants to batter you;"), None);
    assert_eq!(read_start_reply("You are White and Bo b wants to batter you;"), None);
    assert_eq!(read_start_reply("You are White and Bob wants to batter you"), None);
    assert_eq!(read_start_reply("You are White and Bob wants to batter you;;"), None);
    assert_eq!(read_start_reply(" You are White and Bob wants to batter you;"), None);
    assert_eq!(read_start_reply("Who even are you?;"), None);
    assert_eq!(read_start_reply(""), None);
}

#[test]
fn player_reads_the_start_the_server_writes() {
    for &colour in &[Colour::White, Colour::Black] {
        for name in ["Alice", "Bob", "x", "A1b2C3"].iter() {
            let text = write_start(colour, name);
            assert_eq!(read_start_reply(&text), Some((colour, name.to_string())));
        }
    }
}
