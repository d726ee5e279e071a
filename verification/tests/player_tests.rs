use lines_of_action::board::Colour;
use lines_of_action::command::{Move, ReplyHandle};
use lines_of_action::player::{Player, PlayerState};

#[test]
fn new_player_is_idle() {
    let p = Player::new("Alice".to_string());
    assert_eq!(p.name, "Alice");
    assert!(!p.ready);
    assert_eq!(p.reply, None);
    assert_eq!(p.colour, Colour::White);
    assert_eq!(p.move_cache, None);
    assert_eq!(p.state, PlayerState::Default);
    assert!(!p.awaits_start());
    assert!(!p.awaits_release());
}

#[test]
fn player_awaits_start_while_owed_an_answer_and_idle() {
    let mut p = Player::new("Bob".to_string());
    p.ready = true;
    p.reply = Some(ReplyHandle { conn: 2 });
    assert!(p.awaits_start());
    p.state = PlayerState::WaitingOnMove;
    assert!(!p.awaits_start());
}

#[test]
fn player_awaits_release_while_waiting_with_a_move_held() {
    let mut p = Player::new("Bob".to_string());
    p.reply = Some(ReplyHandle { conn: 2 });
    p.state = PlayerState::WaitingOnMove;
    assert!(!p.awaits_release());
    p.move_cache = Some(Move::new(0, 1, 1, 1));
    assert!(p.awaits_release());
    p.state = PlayerState::Default;
    assert!(!p.awaits_release());
}
