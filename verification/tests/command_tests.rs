use lines_of_action::command::{
    Command, CommandData, CommandProducer, CommandQueue, GetCommandErr, Move, ReplyHandle,
};

#[test]
fn new_keeps_the_coordinates() {
    let m = Move::new(1, 2, 3, 4);
    assert_eq!((m.sx, m.sy, m.dx, m.dy), (1, 2, 3, 4));
    assert_eq!(m, Move { sx: 1, sy: 2, dx: 3, dy: 4 });
}

#[test]
fn new_vec_reads_the_coordinates_in_order() {
    let m = Move::new_vec(vec![0, 1, 1, 1]);
    assert_eq!(m, Move::new(0, 1, 1, 1));
    let m = Move::new_vec(vec![7, 6, 5, 4]);
    assert_eq!(m, Move { sx: 7, sy: 6, dx: 5, dy: 4 });
}

#[test]
fn bounds_are_those_of_the_board() {
    assert!(Move::new(0, 0, 0, 0).is_in_bounds());
    assert!(Move::new(7, 7, 7, 7).is_in_bounds());
    assert!(!Move::new(8, 0, 0, 0).is_in_bounds());
    assert!(!Move::new(0, 8, 0, 0).is_in_bounds());
    assert!(!Move::new(0, 0, 8, 0).is_in_bounds());
    assert!(!Move::new(0, 0, 0, 255).is_in_bounds());
}

#[test]
fn command_knows_its_sender() {
    assert_eq!(CommandData::Move(3, Move::new(0, 1, 1, 1)).id(), 3);
    assert_eq!(CommandData::GetMove(4).id(), 4);
    assert_eq!(CommandData::Ready(5).id(), 5);
    assert_eq!(CommandData::Register("Alice".to_string(), 6).id(), 6);
    assert_eq!(CommandData::Message(-7, "hi".to_string()).id(), -7);
}

#[test]
fn queue_hands_out_the_oldest_first() {
    let mut queue = CommandQueue::new();
    assert_eq!(queue.len(), 0);
    assert_eq!(queue.get_command(), Err(GetCommandErr::NoCommands));
    let first = Command { data: CommandData::Ready(1), reply: ReplyHandle { conn: 1 } };
    let second = Command { data: CommandData::GetMove(2), reply: ReplyHandle { conn: 2 } };
    queue.push(first.clone());
    queue.push(second.clone());
    assert_eq!(queue.len(), 2);
    assert_eq!(queue.get_command(), Ok(first));
    assert_eq!(queue.len(), 1);
    assert_eq!(queue.get_command(), Ok(second));
    assert_eq!(queue.get_command(), Err(GetCommandErr::NoCommands));
    assert_eq!(queue.len(), 0);
}
