//! The console greeter: its prompt, and what it shows for a read.

use vstd::prelude::*;
use crate::read::{LineRead, ReadError};
use crate::text::{trim, trimmed};

verus! {

/// The prompt of the console greeter, shown before the line is read.
pub const CONSOLE_PROMPT: &'static str = "Enter your name: ";

/// The greeting of the console greeter for a name.
pub open spec fn console_greeting(name: Seq<char>) -> Seq<char> {
    "Hello "@ + name + " from Rust!"@
}

/// What the console greeter may return for a read: the greeting for the
/// trimmed line where a line was read, and the failure otherwise.
pub open spec fn greets(read: LineRead, r: Result<String, ReadError>) -> bool {
    match r {
        Ok(greeting) => read.failure() is None && greeting@ == console_greeting(
            trimmed(read.text()),
        ),
        Err(e) => read.failure() == Some(e),
    }
}

/// The console greeter's answer to what was read. `Ok` holds the greeting for
/// the standard output; `Err` holds the failure, whose `diagnostic` goes to
/// the error stream.
pub fn greet(read: &LineRead) -> (r: Result<String, ReadError>)
    ensures
        greets(*read, r),
{
    match read.line() {
        Ok(line) => {
            let mut greeting = "Hello ".to_owned();
            greeting.append(trim(line));
            greeting.append(" from Rust!");
            Ok(greeting)
        },
        Err(e) => Err(e),
    }
}

/// The read alone decides what the console greeter returns: two results for
/// one read agree, whatever was greeted before.
pub proof fn lemma_greet_depends_on_read_alone(
    read: LineRead,
    first: Result<String, ReadError>,
    second: Result<String, ReadError>,
)
    requires
        greets(read, first),
        greets(read, second),
    ensures
        first is Ok <==> second is Ok,
        first is Ok ==> first->Ok_0@ == second->Ok_0@,
        first is Err ==> first == second,
{
}

} // verus!
