//! The buffered name reader: a name stored in a caller's buffer of fixed
//! capacity, cut to fit and closed by a null byte.

use vstd::prelude::*;
use vstd::math::min;
use vstd::utf8::encode_utf8;
use crate::read::{LineRead, ReadError};
use crate::text::{lemma_trimmed_takes_no_more_bytes, trim, trimmed};

verus! {

/// The prompt of the buffered name reader. It ends without a line terminator,
/// so the output has to be flushed before the read blocks.
pub const BUFFERED_PROMPT: &'static str = "Enter your name (Rust version): ";

/// Why the buffered name reader greeted nobody.
#[derive(Debug, PartialEq, Eq)]
pub enum AskError {
    /// The buffer has no byte at all, so not even the terminator fits.
    /// Nothing was written.
    NoCapacity,
    /// No line was read. The buffer holds the empty string.
    Read(ReadError),
}

/// The greeting of the buffered name reader for a name.
pub open spec fn buffered_greeting(name: Seq<char>) -> Seq<char> {
    "Hello from Rust, "@ + name + "!"@
}

/// How many of `available` name bytes a buffer of `capacity` bytes takes: all
/// of them, or as many as leave one byte for the terminator, whichever is
/// less.
pub open spec fn stored_len(available: nat, capacity: nat) -> nat
    recommends
        capacity >= 1,
{
    min(available as int, capacity - 1) as nat
}

/// A name as a terminated string that fits `capacity` bytes: the name's
/// first bytes, as many as `stored_len` allows, and a null byte behind them.
pub open spec fn terminated(name: Seq<u8>, capacity: nat) -> Seq<u8>
    recommends
        capacity >= 1,
{
    name.take(stored_len(name.len(), capacity) as int).push(0u8)
}

/// A buffer with `head` written over its first bytes. The bytes behind them
/// are as they were.
pub open spec fn overwritten(buffer: Seq<u8>, head: Seq<u8>) -> Seq<u8>
    recommends
        head.len() <= buffer.len(),
{
    head + buffer.skip(head.len() as int)
}

/// The bytes of the name that a line gives: the trimmed line in UTF-8.
pub open spec fn name_bytes(line: Seq<char>) -> Seq<u8> {
    encode_utf8(trimmed(line))
}

/// The bytes that the buffered name reader writes, from the start of a buffer
/// of `capacity` bytes, for a read: the name of the line as a terminated
/// string; the empty string where no line was read; nothing where there is
/// no room.
pub open spec fn written(capacity: nat, read: LineRead) -> Seq<u8> {
    if capacity == 0 {
        Seq::empty()
    } else if read.failure() is Some {
        seq![0u8]
    } else {
        terminated(name_bytes(read.text()), capacity)
    }
}

/// A buffer after the buffered name reader has dealt with a read.
pub open spec fn buffer_after(buffer: Seq<u8>, read: LineRead) -> Seq<u8> {
    overwritten(buffer, written(buffer.len(), read))
}

/// What the buffered name reader may return for a read and a capacity.
pub open spec fn asked(capacity: nat, read: LineRead, r: Result<String, AskError>) -> bool {
    match r {
        Ok(greeting) => capacity >= 1 && read.failure() is None && greeting@ == buffered_greeting(
            trimmed(read.text()),
        ),
        Err(AskError::NoCapacity) => capacity == 0,
        Err(AskError::Read(e)) => capacity >= 1 && read.failure() == Some(e),
    }
}

/// Stores `name` at the start of `buffer` as a terminated string, cut to
/// fit: copies `stored_len` bytes and writes a null byte behind them. The
/// bytes after the terminator stay as they were.
fn store_name(buffer: &mut [u8], name: &[u8])
    requires
        old(buffer)@.len() >= 1,
    ensures
        final(buffer)@ == overwritten(old(buffer)@, terminated(name@, old(buffer)@.len())),
{
    let kept: usize = if name.len() < buffer.len() {
        name.len()
    } else {
        buffer.len() - 1
    };
    let mut i: usize = 0;
    while i < kept
        invariant
            i <= kept,
            kept < buffer@.len(),
            kept <= name@.len(),
            buffer@.len() == old(buffer)@.len(),
            buffer@.take(i as int) == name@.take(i as int),
            buffer@.skip(kept as int) == old(buffer)@.skip(kept as int),
        decreases kept - i,
    {
        buffer[i] = name[i];
        i += 1;
    }
    let ghost copied = buffer@;
    buffer[kept] = 0u8;
    assert(buffer@ =~= overwritten(old(buffer)@, terminated(name@, old(buffer)@.len()))) by {
        assert forall|j: int| 0 <= j < kept implies buffer@[j] == name@[j] by {
            assert(buffer@[j] == copied.take(kept as int)[j]);
        }
        assert forall|j: int| kept < j < buffer@.len() implies buffer@[j] == old(buffer)@[j] by {
            assert(buffer@[j] == copied.skip(kept as int)[j - kept]);
        }
    }
}

/// The buffered name reader's answer to what was read. Where a line was
/// read, its trimmed text goes into `name` as a terminated string, cut to
/// the capacity, and `Ok` holds the greeting for the standard output. Where
/// none was read, `name` gets the empty string and `Err` holds the failure,
/// whose `diagnostic` goes to the error stream. The capacity is the length of
/// `name`; with none, nothing is written.
pub fn ask_name_rust(name: &mut [u8], read: &LineRead) -> (r: Result<String, AskError>)
    ensures
        final(name)@ == buffer_after(old(name)@, *read),
        asked(old(name)@.len(), *read, r),
{
    if name.len() == 0 {
        return Err(AskError::NoCapacity);
    }
    match read.line() {
        Ok(line) => {
            let trimmed_line = trim(line);
            store_name(name, trimmed_line.as_bytes());
            let mut greeting = "Hello from Rust, ".to_owned();
            greeting.append(trimmed_line);
            greeting.append("!");
            Ok(greeting)
        },
        Err(e) => {
            name[0] = 0u8;
            Err(AskError::Read(e))
        },
    }
}

/// What is written never exceeds the capacity, terminator included, and the
/// buffer keeps its length.
pub proof fn lemma_written_fits(buffer: Seq<u8>, read: LineRead)
    ensures
        written(buffer.len(), read).len() <= buffer.len(),
        buffer_after(buffer, read).len() == buffer.len(),
        buffer.len() >= 1 ==> written(buffer.len(), read).last() == 0u8,
{
}

/// A line of fewer bytes than the capacity less one is stored whole: what is
/// written is the trimmed line in UTF-8 and one null byte behind it, and it
/// fits the capacity.
pub proof fn lemma_short_line_stored_whole(capacity: nat, read: LineRead)
    requires
        encode_utf8(read.text()).len() < capacity - 1,
    ensures
        written(capacity, read) == name_bytes(read.text()).push(0u8),
        written(capacity, read).len() <= capacity,
{
    let name = name_bytes(read.text());
    lemma_trimmed_takes_no_more_bytes(read.text());
    assert(name.take(name.len() as int) =~= name);
    if read.failure() is Some {
        assert(trimmed(read.text()) =~= Seq::<char>::empty());
        assert(name.push(0u8) =~= seq![0u8]);
    }
}

/// A line of at least as many bytes as the capacity less one, whose trimmed
/// text has that many bytes too, is cut, not refused: what is written is the
/// first bytes of the trimmed line in UTF-8, the capacity less one of them,
/// and one null byte behind them, and it fills the buffer.
pub proof fn lemma_long_line_cut_to_fit(buffer: Seq<u8>, read: LineRead)
    requires
        buffer.len() >= 1,
        encode_utf8(read.text()).len() >= buffer.len() - 1,
        name_bytes(read.text()).len() >= buffer.len() - 1,
    ensures
        buffer_after(buffer, read) == name_bytes(read.text()).take(buffer.len() - 1).push(0u8),
{
    let name = name_bytes(read.text());
    let head = written(buffer.len(), read);
    if read.failure() is Some {
        assert(head =~= name.take(buffer.len() - 1).push(0u8));
    }
    assert(buffer_after(buffer, read) =~= head);
}

/// With a capacity of one byte the buffer ends up holding a null byte and
/// nothing else, whatever was read.
pub proof fn lemma_capacity_one(buffer: Seq<u8>, read: LineRead)
    requires
        buffer.len() == 1,
    ensures
        buffer_after(buffer, read) == seq![0u8],
{
    assert(buffer_after(buffer, read) =~= seq![0u8]);
}

/// One call leaves nothing behind for the next: what a call writes into a
/// buffer that an earlier call has filled is what it writes into any buffer
/// of that capacity, and the earlier read has no part in it.
pub proof fn lemma_calls_do_not_interfere(buffer: Seq<u8>, earlier: LineRead, read: LineRead)
    ensures
        buffer_after(buffer_after(buffer, earlier), read).take(
            written(buffer.len(), read).len() as int,
        ) == written(buffer.len(), read),
        buffer_after(buffer, read).take(written(buffer.len(), read).len() as int) == written(
            buffer.len(),
            read,
        ),
{
    let head = written(buffer.len(), read);
    lemma_written_fits(buffer, earlier);
    assert(buffer_after(buffer_after(buffer, earlier), read).take(head.len() as int) =~= head);
    assert(buffer_after(buffer, read).take(head.len() as int) =~= head);
}

/// The capacity and the read alone decide what the buffered name reader
/// returns: two results for one capacity and one read agree.
pub proof fn lemma_ask_depends_on_read_alone(
    capacity: nat,
    read: LineRead,
    first: Result<String, AskError>,
    second: Result<String, AskError>,
)
    requires
        asked(capacity, read, first),
        asked(capacity, read, second),
    ensures
        first is Ok <==> second is Ok,
        first is Ok ==> first->Ok_0@ == second->Ok_0@,
        first is Err ==> first == second,
{
}

} // verus!
