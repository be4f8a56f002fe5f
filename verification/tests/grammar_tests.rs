use fastdb::lexer::{Event, MalformedInput};
use fastdb::script::split_script;

// The lexical rules read off by position, a whole region at a time, to
// hold the splitter against on many inputs.

fn find(input: &[char], needle: &[char], from: usize) -> Option<usize> {
    let mut at = from;
    while at + needle.len() <= input.len() {
        if &input[at..at + needle.len()] == needle {
            return Some(at);
        }
        at += 1;
    }
    None
}

fn quote_end(input: &[char], quote: char, from: usize) -> Option<usize> {
    let mut at = from;
    while at < input.len() {
        if input[at] != quote {
            at += 1;
        } else if at + 1 < input.len() && input[at + 1] == quote {
            at += 2;
        } else {
            return Some(at);
        }
    }
    None
}

fn is_bulk_load(statement: &str) -> bool {
    let lowered = statement.to_lowercase();
    lowered.starts_with("copy") && lowered.contains("from stdin")
}

fn text_of(chars: &[char]) -> String {
    chars.iter().collect()
}

fn scan(input: &[char]) -> Result<Vec<Event>, MalformedInput> {
    let mut events = Vec::new();
    let mut text: Vec<char> = Vec::new();
    let mut at = 0;
    let mut in_data = false;
    loop {
        if in_data {
            let (line, next) = match find(input, &['\n'], at) {
                Some(end) => (&input[at..end], Some(end + 1)),
                None => (&input[at..], None),
            };
            let line = text_of(line);
            let line = line.trim_end_matches('\r');
            if line == "\\." {
                events.push(Event::BulkLoadEnd);
                in_data = false;
            } else if next.is_none() {
                return Err(MalformedInput::UnterminatedBulkLoad);
            } else if !line.trim().is_empty() {
                events.push(Event::BulkLoadLine(line.to_string()));
            }
            match next {
                Some(next) => at = next,
                None => return Ok(events),
            }
            continue;
        }
        if at >= input.len() {
            break;
        }
        let c = input[at];
        let next = input.get(at + 1).copied();
        if c == '-' && next == Some('-') {
            match find(input, &['\n'], at + 2) {
                Some(end) => at = end + 1,
                None => return Err(MalformedInput::UnterminatedComment),
            }
        } else if c == '/' && next == Some('*') {
            match find(input, &['*', '/'], at + 1) {
                Some(star) => at = star + 2,
                None => return Err(MalformedInput::UnterminatedComment),
            }
        } else if c == '$' {
            let mut tag = at + 1;
            while tag < input.len() && (input[tag].is_ascii_alphanumeric() || input[tag] == '_') {
                tag += 1;
            }
            if tag >= input.len() {
                text.extend_from_slice(&input[at..]);
                at = input.len();
            } else if input[tag] == '$' {
                let delimiter = &input[at..tag + 1];
                match find(input, delimiter, at + 1) {
                    Some(close) => {
                        text.extend_from_slice(&input[at..close + delimiter.len()]);
                        at = close + delimiter.len();
                    }
                    None => return Err(MalformedInput::UnterminatedDollarQuote),
                }
            } else {
                text.extend_from_slice(&input[at..tag + 1]);
                at = tag + 1;
            }
        } else if c == '\'' || c == '"' {
            match quote_end(input, c, at + 1) {
                Some(end) => {
                    text.extend_from_slice(&input[at..end + 1]);
                    at = end + 1;
                }
                None => return Err(MalformedInput::UnterminatedQuote),
            }
        } else if c == ';' {
            let statement = text_of(&text).trim().to_string();
            text.clear();
            at += 1;
            if statement.is_empty() {
            } else if is_bulk_load(&statement) {
                events.push(Event::BulkLoadStart(statement));
                in_data = true;
            } else {
                events.push(Event::Statement(statement));
            }
        } else {
            text.push(c);
            at += 1;
        }
    }
    let statement = text_of(&text).trim().to_string();
    if statement.is_empty() {
        Ok(events)
    } else if is_bulk_load(&statement) {
        Err(MalformedInput::MissingBulkData)
    } else {
        events.push(Event::Statement(statement));
        Ok(events)
    }
}

struct Random(u64);

impl Random {
    fn next(&mut self, below: usize) -> usize {
        self.0 = self.0.wrapping_mul(6364136223846793005).wrapping_add(1442695040888963407);
        ((self.0 >> 33) as usize) % below
    }
}

const PIECES: [&str; 30] = [
    ";", ";", "'", "''", "\"", "\"\"", "-", "--", "/", "/*", "*/", "*", "$", "$$", "$a$", "$a", "a",
    "_", "1", " ", "\n", "\r", "\r\n", "\\.", "\\.\n", "copy t from stdin", "COPY x FROM STDIN;\n",
    "select", "\u{e9}", "\t",
];

fn random_script(random: &mut Random) -> String {
    let mut script = String::new();
    for _ in 0..random.next(24) {
        script.push_str(PIECES[random.next(PIECES.len())]);
    }
    script
}

#[test]
fn splitter_follows_the_rules_on_random_scripts() {
    let mut random = Random(2024);
    let mut well_formed = 0;
    for _ in 0..20000 {
        let script = random_script(&mut random);
        let chars: Vec<char> = script.chars().collect();
        let expected = scan(&chars);
        if expected.is_ok() {
            well_formed += 1;
        }
        assert_eq!(split_script(&script), expected, "script {:?}", script);
    }
    assert!(well_formed > 1000);
}

#[test]
fn splitter_follows_the_rules_on_chosen_scripts() {
    for script in [
        "",
        ";",
        "a;b",
        "$$$;x",
        "$a$a$;x",
        "/*/;x",
        "/**/;x",
        "--\n;x",
        "-;/;",
        "'';\"\";",
        "'a'';';x",
        "$1;x;",
        "$x$ ; $y$ ; $x$;",
        "copy t from stdin;\n\\.\r\r\nx;",
        "copy t from stdin;x\n \n\\.",
        "copy t from stdin;\\.\n;;y",
        "copy t from stdin",
        "x $",
        "x $ab",
        "x -",
        "x /",
        "x '",
        "x \"\"\"",
    ] {
        let chars: Vec<char> = script.chars().collect();
        assert_eq!(split_script(script), scan(&chars), "script {:?}", script);
    }
}
