use lines_of_action::command::{Command, CommandProducer, CommandQueue, CommandResponse, ReplyHandle};
use lines_of_action::engine::{Effect, Engine};
use lines_of_action::protocol::Request;
use lines_of_action::server::{handle_message, respond, unrecognised, Incoming, Outgoing};

/// A connection as the server keeps it: its id, the message it waits to have
/// answered, and what has been written to it.
struct Connection {
    id: i32,
    pending: Option<Request>,
    written: Vec<String>,
}

impl Connection {
    fn new(id: i32) -> Connection {
        Connection { id, pending: None, written: Vec::new() }
    }

    fn receive(&mut self, bytes: &[u8]) -> Option<Command> {
        assert!(self.pending.is_none(), "a connection sends one message at a time");
        match handle_message(bytes) {
            Incoming::Request(request) => {
                let command = request.command(self.id, ReplyHandle { conn: self.id });
                self.pending = Some(request);
                Some(command)
            }
            Incoming::Unrecognised => {
                self.written.push(unrecognised());
                None
            }
            Incoming::Malformed => panic!("no text"),
        }
    }

    fn answered(&mut self, response: CommandResponse) {
        let request = self.pending.take().expect("an answer nobody waits for");
        match respond(&request, &response) {
            Outgoing::Write(text) => self.written.push(text),
            Outgoing::Silent => {}
            Outgoing::Abort(reason) => panic!("{}", reason),
        }
    }
}

struct Table {
    engine: Engine,
    queue: CommandQueue,
    connections: Vec<Connection>,
    shown: Vec<String>,
}

impl Table {
    fn new(connections: i32) -> Table {
        Table {
            engine: Engine::new(),
            queue: CommandQueue::new(),
            connections: (1..=connections).map(Connection::new).collect(),
            shown: Vec::new(),
        }
    }

    fn carry_out(&mut self, effects: Vec<Effect>) {
        for effect in effects {
            match effect {
                Effect::Reply(to, response) => {
                    self.connections[(to.conn - 1) as usize].answered(response)
                }
                Effect::Show(text) => self.shown.push(text),
            }
        }
    }

    fn send(&mut self, id: i32, text: &str) {
        if let Some(command) = self.connections[(id - 1) as usize].receive(text.as_bytes()) {
            self.queue.push(command);
        }
        while self.queue.len() > 0 {
            let effects = self.engine.poll(&mut self.queue).expect("the engine stopped");
            self.carry_out(effects);
        }
    }

    fn release(&mut self) {
        let effects = self.engine.release_move();
        self.carry_out(effects);
    }

    fn written(&self, id: i32) -> Vec<&str> {
        self.connections[(id - 1) as usize].written.iter().map(|s| s.as_str()).collect()
    }
}

#[test]
fn alice_and_bob_play_a_move() {
    let mut table = Table::new(2);
    table.send(1, "Hello, my name is Alice, you killed my father, prepare to die;");
    assert_eq!(table.written(1), vec!["Oh, hai Alice!;"]);
    table.send(2, "Hello, my name is Bob;");
    assert_eq!(table.written(2), vec!["Oh, hai Bob!;"]);

    table.send(1, "Bring it, yo;");
    assert_eq!(table.written(1), vec!["Oh, hai Alice!;"]);
    table.send(2, "Bring it, yo;");
    assert_eq!(
        table.written(1),
        vec!["Oh, hai Alice!;", "You are White and Bob wants to batter you;"]
    );
    assert_eq!(
        table.written(2),
        vec!["Oh, hai Bob!;", "You are Black and Alice wants to batter you;"]
    );

    table.send(2, "Gimmeh!;");
    assert_eq!(table.written(2).len(), 2);
    table.release();
    assert_eq!(table.written(2).len(), 2);

    table.send(1, "(0,1) -> (1,1);");
    assert_eq!(table.written(1).last(), Some(&"Move successful;"));
    assert_eq!(table.written(1).len(), 3);
    assert_eq!(
        table.written(2),
        vec!["Oh, hai Bob!;", "You are Black and Alice wants to batter you;", "(0,1)->(1,1);"]
    );

    table.release();
    table.release();
    assert_eq!(table.written(2).len(), 3);
    assert_eq!(table.written(1).len(), 3);
}

#[test]
fn held_move_goes_out_once_when_released() {
    let mut table = Table::new(2);
    table.send(1, "Hello, my name is Alice;");
    table.send(2, "Hello, my name is Bob;");
    table.send(1, "Bring it, yo;");
    table.send(2, "Bring it, yo;");
    table.send(1, "(0,1) -> (1,1);");
    assert_eq!(table.written(1).last(), Some(&"Move successful;"));
    table.send(2, "Gimmeh!;");
    assert_eq!(table.written(2).len(), 2);
    table.release();
    assert_eq!(table.written(2).last(), Some(&"(0,1)->(1,1);"));
    assert_eq!(table.written(2).len(), 3);
    table.release();
    assert_eq!(table.written(2).len(), 3);
}

#[test]
fn errors_are_worded_for_the_connection_that_caused_them() {
    let mut table = Table::new(3);
    table.send(3, "Bring it, yo;");
    assert_eq!(table.written(3), vec!["Who even are you?;"]);
    table.send(1, "Hello, my name is Alice;");
    table.send(1, "Hello, my name is Alice;");
    assert_eq!(
        table.written(1),
        vec!["Oh, hai Alice!;", "You've already registered, you asshat;"]
    );
    table.send(2, "Hello, my name is Bob;");
    table.send(3, "Hello, my name is Carol;");
    assert_eq!(table.written(3), vec!["Who even are you?;", "The game is full, get tae;"]);
    table.send(1, "Bring it, yo;");
    table.send(2, "Bring it, yo;");
    table.send(1, "(3,3)->(4,4);");
    assert_eq!(table.written(1).last(), Some(&"You can't move air, ya numpty;"));
    table.send(1, "(1,0)->(1,1);");
    assert_eq!(table.written(1).last(), Some(&"Stick to your own pieces!;"));
    table.send(2, "(0,1)->(1,1);");
    assert_eq!(table.written(2).last(), Some(&"Stick to your own pieces!;"));
    table.send(2, "Hold on;");
    assert_eq!(table.written(2).last(), Some(&"You wot m8?;"));
    table.send(2, "\"good game\";");
    assert_eq!(table.shown, vec!["good game"]);
}

#[test]
fn queue_is_a_producer_like_any_other() {
    fn drain<P: CommandProducer>(engine: &mut Engine, source: &mut P) -> usize {
        let mut n = 0;
        while let Ok(effects) = engine.poll(source) {
            if effects.is_empty() {
                break;
            }
            n += effects.len();
        }
        n
    }
    let mut engine = Engine::new();
    let mut queue = CommandQueue::new();
    queue.push(Request::Register("Alice".to_string()).command(1, ReplyHandle { conn: 1 }));
    queue.push(Request::Register("Bob".to_string()).command(2, ReplyHandle { conn: 2 }));
    assert_eq!(drain(&mut engine, &mut queue), 2);
    assert_eq!(engine.players().len(), 2);
}
