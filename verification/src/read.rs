//! What one attempt to read a line gave, and when it counts as a failure.

use vstd::prelude::*;

verus! {

/// The result of one attempt to read a line from an input stream.
#[derive(Debug, PartialEq, Eq)]
pub enum LineRead {
    /// What the read delivered, the line terminator included. A stream that
    /// had already ended delivers nothing: the text is then empty.
    Text(String),
    /// The stream reported an error. The text is the error's message.
    Failed(String),
}

/// Why no line was obtained.
#[derive(Debug, PartialEq, Eq)]
pub enum ReadError {
    /// The stream ended before it delivered anything.
    EndOfStream,
    /// The stream reported an error. The text is the error's message.
    Io(String),
}

impl LineRead {
    /// The failure that this read amounts to, if it is one: an empty text is
    /// the end of the stream, and an error of the stream is that error.
    pub open spec fn failure(self) -> Option<ReadError> {
        match self {
            LineRead::Text(text) => if text@.len() == 0 {
                Some(ReadError::EndOfStream)
            } else {
                None
            },
            LineRead::Failed(message) => Some(ReadError::Io(message)),
        }
    }

    /// The line that was read, as delivered. Meaningful where `failure` is
    /// `None`.
    pub open spec fn text(self) -> Seq<char> {
        match self {
            LineRead::Text(text) => text@,
            LineRead::Failed(_) => Seq::empty(),
        }
    }

    /// The line, or the reason why there is none.
    pub fn line(&self) -> (r: Result<&str, ReadError>)
        ensures
            match r {
                Ok(line) => self.failure() is None && line@ == self.text(),
                Err(e) => self.failure() == Some(e),
            },
    {
        match self {
            LineRead::Text(text) => {
                let line = text.as_str();
                if line.is_empty() {
                    Err(ReadError::EndOfStream)
                } else {
                    Ok(line)
                }
            },
            LineRead::Failed(message) => Err(ReadError::Io(message.clone())),
        }
    }
}

impl ReadError {
    /// The error in words.
    pub open spec fn message_text(self) -> Seq<char> {
        match self {
            ReadError::EndOfStream => "unexpected end of input"@,
            ReadError::Io(message) => message@,
        }
    }

    /// The line for the error stream: a fixed lead, then the error in words.
    pub open spec fn diagnostic_text(self) -> Seq<char> {
        "Error reading input: "@ + self.message_text()
    }

    /// The error in words.
    pub fn message(&self) -> (r: String)
        ensures
            r@ == self.message_text(),
    {
        match self {
            ReadError::EndOfStream => "unexpected end of input".to_owned(),
            ReadError::Io(message) => message.clone(),
        }
    }

    /// The line to show on the error stream.
    pub fn diagnostic(&self) -> (r: String)
        ensures
            r@ == self.diagnostic_text(),
    {
        let mut line = "Error reading input: ".to_owned();
        match self {
            ReadError::EndOfStream => line.append("unexpected end of input"),
            ReadError::Io(message) => line.append(message.as_str()),
        }
        line
    }
}

} // verus!
