use greet::buffer::{ask_name_rust, AskError, BUFFERED_PROMPT};
use greet::read::{LineRead, ReadError};

const FILL: u8 = 0xAA;

fn line(text: &str) -> LineRead {
    LineRead::Text(text.to_string())
}

#[test]
fn prompt_has_no_line_terminator() {
    assert_eq!(BUFFERED_PROMPT, "Enter your name (Rust version): ");
    assert!(!BUFFERED_PROMPT.ends_with('\n'));
}

#[test]
fn alice_fits_a_buffer_of_32() {
    let mut buffer = [FILL; 32];
    let answer = ask_name_rust(&mut buffer, &line("Alice\n"));
    assert_eq!(answer, Ok("Hello from Rust, Alice!".to_string()));
    assert_eq!(&buffer[..6], b"Alice\0");
    assert!(buffer[6..].iter().all(|&b| b == FILL));
}

#[test]
fn long_name_is_cut_to_a_buffer_of_5() {
    let mut buffer = [FILL; 5];
    let answer = ask_name_rust(&mut buffer, &line("ThisNameIsWayTooLongForTheBuffer\n"));
    assert_eq!(&buffer, b"This\0");
    assert_eq!(
        answer,
        Ok("Hello from Rust, ThisNameIsWayTooLongForTheBuffer!".to_string())
    );
}

#[test]
fn end_of_stream_leaves_the_empty_string() {
    let mut buffer = [FILL; 8];
    let answer = ask_name_rust(&mut buffer, &line(""));
    assert_eq!(answer, Err(AskError::Read(ReadError::EndOfStream)));
    assert_eq!(buffer[0], 0);
    assert!(buffer[1..].iter().all(|&b| b == FILL));
    match answer {
        Err(AskError::Read(e)) => {
            assert_eq!(e.diagnostic(), "Error reading input: unexpected end of input")
        }
        _ => unreachable!(),
    }
}

#[test]
fn stream_error_leaves_the_empty_string() {
    let mut buffer = [FILL; 8];
    let read = LineRead::Failed("stream did not contain valid UTF-8".to_string());
    let answer = ask_name_rust(&mut buffer, &read);
    assert_eq!(
        answer,
        Err(AskError::Read(ReadError::Io(
            "stream did not contain valid UTF-8".to_string()
        )))
    );
    assert_eq!(buffer[0], 0);
    assert!(buffer[1..].iter().all(|&b| b == FILL));
}

#[test]
fn no_capacity_is_refused_and_nothing_written() {
    let mut buffer: [u8; 0] = [];
    assert_eq!(
        ask_name_rust(&mut buffer, &line("Alice\n")),
        Err(AskError::NoCapacity)
    );
    assert_eq!(
        ask_name_rust(&mut buffer, &line("")),
        Err(AskError::NoCapacity)
    );
    assert_eq!(
        ask_name_rust(&mut buffer, &LineRead::Failed("broken pipe".to_string())),
        Err(AskError::NoCapacity)
    );
}

#[test]
fn capacity_one_holds_only_the_terminator() {
    for read in [
        line("Alice\n"),
        line("\n"),
        line(""),
        line("x"),
        LineRead::Failed("broken pipe".to_string()),
    ] {
        let mut buffer = [FILL; 1];
        let _ = ask_name_rust(&mut buffer, &read);
        assert_eq!(buffer, [0]);
    }
}

#[test]
fn capacity_one_still_greets_by_the_whole_name() {
    let mut buffer = [FILL; 1];
    assert_eq!(
        ask_name_rust(&mut buffer, &line("Alice\n")),
        Ok("Hello from Rust, Alice!".to_string())
    );
}

#[test]
fn name_of_capacity_less_one_bytes_is_stored_whole() {
    // "Alice" has 5 bytes: a capacity of 6 is the least that takes all of it.
    let mut buffer = [FILL; 6];
    let _ = ask_name_rust(&mut buffer, &line("Alice\n"));
    assert_eq!(&buffer, b"Alice\0");
}

#[test]
fn name_of_capacity_bytes_loses_its_last_byte() {
    let mut buffer = [FILL; 5];
    let _ = ask_name_rust(&mut buffer, &line("Alice\n"));
    assert_eq!(&buffer, b"Alic\0");
}

#[test]
fn short_lines_are_stored_whole_with_one_terminator() {
    for capacity in 2..40usize {
        for length in 0..capacity - 1 {
            // A line of `length` bytes, terminator included.
            let text: String = if length == 0 {
                String::new()
            } else {
                let mut t = "n".repeat(length - 1);
                t.push('\n');
                t
            };
            let mut buffer = vec![FILL; capacity];
            let _ = ask_name_rust(&mut buffer, &line(&text));
            let name = text.trim().as_bytes();
            assert_eq!(&buffer[..name.len()], name);
            assert_eq!(buffer[name.len()], 0);
            assert!(name.len() + 1 <= capacity);
            assert!(buffer[name.len() + 1..].iter().all(|&b| b == FILL));
        }
    }
}

#[test]
fn long_lines_are_cut_to_capacity_less_one_bytes() {
    for capacity in 1..40usize {
        for extra in 0..5usize {
            let name = "abcdefghij".repeat(5);
            let name = &name[..capacity - 1 + extra];
            let text = format!("  {}\r\n", name);
            let mut buffer = vec![FILL; capacity];
            let answer = ask_name_rust(&mut buffer, &line(&text));
            assert_eq!(&buffer[..capacity - 1], &name.as_bytes()[..capacity - 1]);
            assert_eq!(buffer[capacity - 1], 0);
            assert_eq!(answer, Ok(format!("Hello from Rust, {}!", name)));
        }
    }
}

#[test]
fn long_line_with_a_short_name_is_stored_whole() {
    // Eight bytes of line, two bytes of name: nothing is cut.
    let mut buffer = [FILL; 5];
    let _ = ask_name_rust(&mut buffer, &line("  Al   \n"));
    assert_eq!(&buffer[..3], b"Al\0");
    assert_eq!(&buffer[3..], &[FILL, FILL]);
}

#[test]
fn inner_whitespace_stays() {
    let mut buffer = [FILL; 16];
    let answer = ask_name_rust(&mut buffer, &line(" \tMary  Ann \r\n"));
    assert_eq!(&buffer[..10], b"Mary  Ann\0");
    assert_eq!(answer, Ok("Hello from Rust, Mary  Ann!".to_string()));
}

#[test]
fn line_of_whitespace_gives_the_empty_name() {
    let mut buffer = [FILL; 4];
    let answer = ask_name_rust(&mut buffer, &line(" \t\r\n"));
    assert_eq!(buffer, [0, FILL, FILL, FILL]);
    assert_eq!(answer, Ok("Hello from Rust, !".to_string()));
}

#[test]
fn line_without_terminator_is_a_line() {
    let mut buffer = [FILL; 8];
    let answer = ask_name_rust(&mut buffer, &line("Bob"));
    assert_eq!(&buffer[..4], b"Bob\0");
    assert_eq!(answer, Ok("Hello from Rust, Bob!".to_string()));
}

#[test]
fn cut_falls_between_bytes_not_characters() {
    // "é" takes two bytes in UTF-8: 0xC3 0xA9.
    let mut buffer = [FILL; 3];
    let answer = ask_name_rust(&mut buffer, &line("héllo\n"));
    assert_eq!(buffer, [b'h', 0xC3, 0]);
    assert_eq!(answer, Ok("Hello from Rust, héllo!".to_string()));
}

#[test]
fn name_of_several_bytes_per_character_is_stored_as_utf8() {
    let mut buffer = [FILL; 16];
    let _ = ask_name_rust(&mut buffer, &line("\u{3000}Zoë 越\u{00A0}\n"));
    let name = "Zoë 越".as_bytes();
    assert_eq!(name.len(), 8);
    assert_eq!(&buffer[..8], name);
    assert_eq!(buffer[8], 0);
    assert!(buffer[9..].iter().all(|&b| b == FILL));
}

#[test]
fn second_call_owes_nothing_to_the_first() {
    let mut reused = [FILL; 12];
    let _ = ask_name_rust(&mut reused, &line("Bartholomew\n"));
    assert_eq!(&reused, b"Bartholomew\0");
    let second = ask_name_rust(&mut reused, &line("Al\n"));

    let mut fresh = [FILL; 12];
    let alone = ask_name_rust(&mut fresh, &line("Al\n"));

    assert_eq!(second, alone);
    assert_eq!(&reused[..3], b"Al\0");
    assert_eq!(&reused[..3], &fresh[..3]);
    // Behind the terminator the earlier bytes stay: they are not part of the string.
    assert_eq!(&reused[3..], &b"Bartholomew\0"[3..]);
}

#[test]
fn failure_after_a_name_empties_the_string() {
    let mut buffer = [FILL; 8];
    let _ = ask_name_rust(&mut buffer, &line("Alice\n"));
    let answer = ask_name_rust(&mut buffer, &line(""));
    assert_eq!(answer, Err(AskError::Read(ReadError::EndOfStream)));
    assert_eq!(&buffer[..6], b"\0lice\0");
}

#[test]
fn same_read_gives_the_same_answer_twice() {
    let read = line("Alice\n");
    let mut first = [FILL; 4];
    let mut second = [FILL; 4];
    assert_eq!(
        ask_name_rust(&mut first, &read),
        ask_name_rust(&mut second, &read)
    );
    assert_eq!(first, second);
    assert_eq!(&first, b"Ali\0");
}
