//! The tail of a growing file: a cursor, and what each look at the file
//! makes of it.
use vstd::prelude::*;
use vstd::slice::{slice_subrange, slice_to_vec};
use vstd::utf8::{encode_utf8, valid_utf8};

verus! {

/// The byte that ends a line.
pub const NEWLINE: u8 = 10;

/// New content is there and its last byte ends a line; otherwise a writer may
/// be in the middle of one.
pub open spec fn complete(cursor: int, file: Seq<u8>) -> bool {
    cursor < file.len() && file.last() == NEWLINE
}

/// Where the cursor stands after a look at the file: at the new length when
/// the file shrank below it (truncation) or grew by whole lines, and where it
/// stood otherwise.
pub open spec fn cursor_after(cursor: int, file: Seq<u8>) -> int {
    if file.len() < cursor || complete(cursor, file) {
        file.len() as int
    } else {
        cursor
    }
}

/// The chunk that a look at the file yields: the new content without the
/// newline at its end.
pub open spec fn chunk_bytes(cursor: int, file: Seq<u8>) -> Option<Seq<u8>> {
    if 0 <= cursor && complete(cursor, file) {
        Some(file.subrange(cursor, file.len() - 1))
    } else {
        None
    }
}

/// The bytes that a look at the file takes in: the chunk and its newline.
pub open spec fn taken(cursor: int, file: Seq<u8>) -> Seq<u8> {
    match chunk_bytes(cursor, file) {
        Some(chunk) => chunk.push(NEWLINE),
        None => Seq::empty(),
    }
}

/// How the length of the file stands to the cursor.
#[derive(Clone, Copy, Debug, PartialEq, Eq)]
pub enum Growth {
    /// The file is shorter than the cursor: it was truncated.
    Truncated,
    Unchanged,
    Grown,
}

/// What one look at the file came to.
#[derive(Clone, Debug, PartialEq, Eq)]
pub enum Polled {
    /// The file was truncated; the cursor went back to its end.
    Truncated,
    /// Nothing was added.
    Unchanged,
    /// The new content does not end in a newline yet; nothing was consumed.
    Incomplete,
    /// The new content is not UTF-8; it was skipped.
    Undecodable,
    /// The new content, without the newline at its end.
    Chunk(String),
}

/// Calls `String::from_utf8`, which hands the bytes back as a string when
/// they are well-formed UTF-8 and fails otherwise. An error gives `None`.
#[verifier::external_body]
fn decode(bytes: Vec<u8>) -> (text: Option<String>)
    ensures
        text is Some <==> valid_utf8(bytes@),
        text matches Some(decoded) ==> encode_utf8(decoded@) == bytes@,
{
    String::from_utf8(bytes).ok()
}

/// The position in a followed file up to which its content has been dealt with.
#[derive(Clone, Copy, Debug)]
pub struct TailState {
    cursor: u64,
}

impl View for TailState {
    type V = int;

    closed spec fn view(&self) -> int {
        self.cursor as int
    }
}

impl TailState {
    /// Starts at the end of a file of this length: what is there already is
    /// not looked at.
    pub fn new(length: u64) -> (tail: TailState)
        ensures
            tail@ == length,
    {
        TailState { cursor: length }
    }

    pub fn cursor(&self) -> (cursor: u64)
        ensures
            cursor == self@,
    {
        self.cursor
    }

    /// Goes back to the start: the path now names another file.
    pub fn rewind(&mut self)
        ensures
            final(self)@ == 0,
    {
        self.cursor = 0;
    }

    /// Compares the file's length with the cursor. After a truncation the
    /// cursor is set back to the new length.
    pub fn measure(&mut self, length: u64) -> (growth: Growth)
        ensures
            growth == (if length < old(self)@ {
                Growth::Truncated
            } else if length == old(self)@ {
                Growth::Unchanged
            } else {
                Growth::Grown
            }),
            final(self)@ == (if length < old(self)@ {
                length as int
            } else {
                old(self)@
            }),
    {
        if length < self.cursor {
            self.cursor = length;
            Growth::Truncated
        } else if length == self.cursor {
            Growth::Unchanged
        } else {
            Growth::Grown
        }
    }

    /// Where the chunk starts and how many bytes it has, in a file that has
    /// grown to `length`: all that is new but the last byte.
    pub fn pending(&self, length: u64) -> (span: (u64, u64))
        requires
            self@ < length,
        ensures
            span.0 == self@,
            span.1 == length - self@ - 1,
    {
        (self.cursor, length - self.cursor - 1)
    }

    /// Takes the chunk that was read from a file grown to `length`: the
    /// cursor moves to `length` whether or not the chunk is text.
    pub fn accept(&mut self, length: u64, chunk: Vec<u8>) -> (text: Option<String>)
        requires
            old(self)@ < length,
        ensures
            final(self)@ == length,
            text is Some <==> valid_utf8(chunk@),
            text matches Some(decoded) ==> encode_utf8(decoded@) == chunk@,
    {
        self.cursor = length;
        decode(chunk)
    }

    /// One look at the whole content of the file, held in memory.
    pub fn poll(&mut self, file: &[u8]) -> (polled: Polled)
        ensures
            final(self)@ == cursor_after(old(self)@, file@),
            match polled {
                Polled::Truncated => file@.len() < old(self)@,
                Polled::Unchanged => file@.len() == old(self)@,
                Polled::Incomplete => old(self)@ < file@.len() && file@.last() != NEWLINE,
                Polled::Undecodable => chunk_bytes(old(self)@, file@) matches Some(chunk)
                    && !valid_utf8(chunk),
                Polled::Chunk(text) => chunk_bytes(old(self)@, file@) == Some(encode_utf8(text@)),
            },
    {
        if file.len() as u64 <= self.cursor {
            if (file.len() as u64) < self.cursor {
                self.cursor = file.len() as u64;
                return Polled::Truncated;
            }
            return Polled::Unchanged;
        }
        let length: u64 = file.len() as u64;
        if file[file.len() - 1] != NEWLINE {
            return Polled::Incomplete;
        }
        let span = self.pending(length);
        let start: usize = span.0 as usize;
        let chunk = slice_to_vec(slice_subrange(file, start, file.len() - 1));
        match self.accept(length, chunk) {
            Some(text) => Polled::Chunk(text),
            None => Polled::Undecodable,
        }
    }
}

/// A truncated file sets the cursor to its new length and yields nothing.
pub proof fn lemma_truncation(cursor: int, file: Seq<u8>)
    requires
        file.len() < cursor,
    ensures
        cursor_after(cursor, file) == file.len(),
        chunk_bytes(cursor, file) is None,
        taken(cursor, file).len() == 0,
{
}

/// While a line is being written nothing is yielded and the cursor stays;
/// once the newline has landed, the next look yields all that was pending,
/// what was held back before included.
pub proof fn lemma_deferred_line(cursor: int, partial: Seq<u8>, rest: Seq<u8>)
    requires
        0 <= cursor < partial.len(),
        partial.last() != NEWLINE,
        rest.len() > 0,
        rest.last() == NEWLINE,
    ensures
        cursor_after(cursor, partial) == cursor,
        chunk_bytes(cursor, partial) is None,
        cursor_after(cursor_after(cursor, partial), partial + rest) == partial.len() + rest.len(),
        chunk_bytes(cursor_after(cursor, partial), partial + rest) == Some(
            partial.subrange(cursor, partial.len() as int) + rest.drop_last(),
        ),
{
    let whole = partial + rest;
    assert(whole.last() == rest.last());
    assert(whole.subrange(cursor, whole.len() - 1) =~= partial.subrange(
        cursor,
        partial.len() as int,
    ) + rest.drop_last());
}

/// Each content is the one before it with something appended.
pub open spec fn appended(files: Seq<Seq<u8>>) -> bool {
    forall|i: int| 0 < i < files.len() ==> (#[trigger] files[i - 1]).is_prefix_of(files[i])
}

/// The cursor after looking at each of `files` in turn.
pub open spec fn run_cursor(start: int, files: Seq<Seq<u8>>) -> int
    decreases files.len(),
{
    if files.len() == 0 {
        start
    } else {
        cursor_after(run_cursor(start, files.drop_last()), files.last())
    }
}

/// All that was taken in while looking at each of `files` in turn: the
/// chunks in the order they came, each with its newline.
pub open spec fn run_taken(start: int, files: Seq<Seq<u8>>) -> Seq<u8>
    decreases files.len(),
{
    if files.len() == 0 {
        Seq::empty()
    } else {
        run_taken(start, files.drop_last()) + taken(
            run_cursor(start, files.drop_last()),
            files.last(),
        )
    }
}

/// Following a file that only grows: the cursor never goes back and never
/// passes the end, and the chunks taken in, each with its newline, are
/// exactly the bytes of the file between where the cursor started and where
/// it stands. Once the file ends in a newline that is all that was appended.
pub proof fn lemma_appended_content(start: int, files: Seq<Seq<u8>>)
    requires
        files.len() > 0,
        0 <= start <= files[0].len(),
        appended(files),
    ensures
        start <= run_cursor(start, files.drop_last()) <= run_cursor(start, files)
            <= files.last().len(),
        run_taken(start, files) == files.last().subrange(start, run_cursor(start, files)),
        files.last().len() > 0 && files.last().last() == NEWLINE ==> run_cursor(start, files)
            == files.last().len(),
    decreases files.len(),
{
    let earlier = files.drop_last();
    let file = files.last();
    if earlier.len() == 0 {
        assert(run_cursor(start, earlier) == start);
        assert(run_taken(start, earlier) =~= Seq::<u8>::empty());
        assert(run_taken(start, files) =~= file.subrange(start, run_cursor(start, files)));
    } else {
        assert(earlier[0] == files[0]);
        assert forall|i: int| 0 < i < earlier.len() implies (#[trigger] earlier[i - 1]).is_prefix_of(
            earlier[i],
        ) by {
            assert(files[i - 1].is_prefix_of(files[i]));
        }
        lemma_appended_content(start, earlier);
        let before = earlier.last();
        let cursor = run_cursor(start, earlier);
        assert(before == files[files.len() - 2]);
        assert(before.is_prefix_of(file));
        assert(before.subrange(start, cursor) =~= file.subrange(start, cursor));
        assert(run_taken(start, files) =~= file.subrange(start, run_cursor(start, files)));
    }
}

} // verus!
