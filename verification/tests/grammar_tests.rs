use lines_of_action::command::Move;
use lines_of_action::protocol::{read_request, Request};
use regex::Regex;

// The grammar in the notation of regular expressions, for comparison. A
// coordinate is one of the eight digits of the board.
const MOVE: &str = r"^\(([0-7]),([0-7])\) ?-> ?\(([0-7]),([0-7])\);$";
const REGISTER: &str =
    r"^Hello, my name is ([A-Za-z0-9]+)(, you killed my father, prepare to die)?;$";
const MESSAGE: &str = "^\"(.+)\";$";
const GET: &str = "^Gimmeh!;$";
const READY: &str = "^Bring it, yo;$";

fn by_pattern(text: &str) -> Option<Request> {
    if let Some(caps) = Regex::new(MOVE).unwrap().captures(text) {
        let v: Vec<u8> = (1..5).map(|i| caps.get(i).unwrap().as_str().parse::<u8>().unwrap()).collect();
        return Some(Request::Move(Move::new_vec(v)));
    }
    if let Some(caps) = Regex::new(REGISTER).unwrap().captures(text) {
        return Some(Request::Register(caps.get(1).unwrap().as_str().to_string()));
    }
    if let Some(caps) = Regex::new(MESSAGE).unwrap().captures(text) {
        return Some(Request::Message(caps.get(1).unwrap().as_str().to_string()));
    }
    if Regex::new(GET).unwrap().is_match(text) {
        return Some(Request::GetMove);
    }
    if Regex::new(READY).unwrap().is_match(text) {
        return Some(Request::Ready);
    }
    None
}

#[test]
fn reader_agrees_with_the_patterns_on_samples() {
    let samples = [
        "(0,1) -> (1,1);",
        "(0,1)->(1,1);",
        "(0,1) ->(1,1);",
        "(0,1)-> (1,1);",
        "(0,1)  -> (1,1);",
        "(8,1) -> (1,1);",
        "(0,1) -> (1,1)",
        "Hello, my name is Alice;",
        "Hello, my name is Alice, you killed my father, prepare to die;",
        "Hello, my name is Alice, you killed my father;",
        "Hello, my name is ;",
        "Hello, my name is A B;",
        "Hello, my name is Alice9;",
        "\"hello\";",
        "\"\";",
        "\"a\";",
        "\"he said \"no\"\";",
        "\"one\ntwo\";",
        "Gimmeh!;",
        "Gimmeh!",
        "Bring it, yo;",
        "Bring it, yo",
        "Gimmeh!;\n",
        "\nGimmeh!;",
        "\"hello\";\n",
        "Hello, my name is Alice;\n",
        "(0,1) -> (1,1);\n",
        "",
        ";",
        "You wot m8?;",
    ];
    for text in samples.iter() {
        assert_eq!(read_request(text), by_pattern(text), "on {:?}", text);
    }
}

#[test]
fn reader_agrees_with_the_patterns_on_every_short_text() {
    let alphabet = ['(', ')', ',', '0', '7', '8', ' ', '-', '>', ';', '"', 'a'];
    let mut texts: Vec<String> = vec![String::new()];
    let mut layer: Vec<String> = vec![String::new()];
    for _ in 0..4 {
        let mut next = Vec::new();
        for t in layer.iter() {
            for c in alphabet.iter() {
                let mut u = t.clone();
                u.push(*c);
                next.push(u);
            }
        }
        texts.extend(next.iter().cloned());
        layer = next;
    }
    let message = Regex::new(MESSAGE).unwrap();
    for text in texts.iter() {
        let want = message.captures(text).map(|c| Request::Message(c.get(1).unwrap().as_str().to_string()));
        assert_eq!(read_request(text), want, "on {:?}", text);
    }
}

#[test]
fn reader_agrees_with_the_patterns_on_damaged_moves() {
    let good = "(0,1) -> (1,1);";
    let replacements = ['(', ')', ',', '0', '7', '8', '9', ' ', '-', '>', ';', 'x'];
    let pattern = Regex::new(MOVE).unwrap();
    let chars: Vec<char> = good.chars().collect();
    for i in 0..chars.len() {
        for r in replacements.iter() {
            let mut damaged = chars.clone();
            damaged[i] = *r;
            let text: String = damaged.iter().collect();
            let want = pattern.captures(&text).map(|caps| {
                let v: Vec<u8> =
                    (1..5).map(|k| caps.get(k).unwrap().as_str().parse::<u8>().unwrap()).collect();
                Request::Move(Move::new_vec(v))
            });
            assert_eq!(read_request(&text), want, "on {:?}", text);
        }
        let mut shorter = chars.clone();
        shorter.remove(i);
        let text: String = shorter.iter().collect();
        let want = pattern.captures(&text).map(|caps| {
            let v: Vec<u8> =
                (1..5).map(|k| caps.get(k).unwrap().as_str().parse::<u8>().unwrap()).collect();
            Request::Move(Move::new_vec(v))
        });
        assert_eq!(read_request(&text), want, "on {:?}", text);
    }
}
