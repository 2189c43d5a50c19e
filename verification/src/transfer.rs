//! Chunked file transfer: how a file is cut into chunks for reading, and
//! how a stream of chunks is applied when writing.

use vstd::prelude::*;
use crate::service::ServiceError;

verus! {

/// The most bytes a single read chunk carries.
pub const READ_CHUNK_SIZE: usize = 65536;

/// How many chunks may wait between the reader of a file and the
/// connection before the reader is held back.
pub const READ_CHANNEL_CAPACITY: usize = 8;

/// One slice of a file on its way to the client.
#[derive(Debug, PartialEq, Eq)]
pub struct ReadFileChunk {
    pub data: Vec<u8>,
    /// Where in the file `data` begins.
    pub offset: u64,
    /// Set on the last chunk of a stream, which carries no data.
    pub eof: bool,
}

/// Mathematical value of a [`ReadFileChunk`].
pub ghost struct ChunkView {
    pub data: Seq<u8>,
    pub offset: nat,
    pub eof: bool,
}

impl View for ReadFileChunk {
    type V = ChunkView;

    open spec fn view(&self) -> ChunkView {
        ChunkView { data: self.data@, offset: self.offset as nat, eof: self.eof }
    }
}

/// The chunk that ends a stream at `offset`.
pub open spec fn terminal_chunk(offset: nat) -> ChunkView {
    ChunkView { data: Seq::empty(), offset, eof: true }
}

/// The chunk that carries `data` read at `offset`.
pub open spec fn data_chunk(data: Seq<u8>, offset: nat) -> ChunkView {
    ChunkView { data, offset, eof: false }
}

/// Where a read stands: the offset of the next byte, and how many bytes
/// may still be sent; `None` means up to the end of the file.
#[derive(Debug, PartialEq, Eq, Structural, Clone, Copy)]
pub struct ReadCursor {
    pub offset: u64,
    pub remaining: Option<u64>,
}

/// The bytes that are still wanted when `remaining` are left of the
/// request: `None` once the request is exhausted, else the chunk size or
/// what is left, whichever is less.
pub open spec fn planned_read(remaining: Option<u64>, chunk_size: nat) -> Option<nat> {
    match remaining {
        Some(left) => if left == 0 {
            None
        } else if left < chunk_size {
            Some(left as nat)
        } else {
            Some(chunk_size)
        },
        None => Some(chunk_size),
    }
}

/// What is left of a request after `n` more bytes were sent.
pub open spec fn remaining_after(remaining: Option<u64>, n: nat) -> Option<u64> {
    match remaining {
        Some(left) => Some((left - n) as u64),
        None => None,
    }
}

/// One step of a read stream: the chunk to send, and the cursor to go on
/// with unless the chunk ended the stream.
pub struct ReadStep {
    pub chunk: ReadFileChunk,
    pub next: Option<ReadCursor>,
}

impl ReadCursor {
    /// The cursor for a request that begins at `offset`; a `length` of 0
    /// asks for everything up to the end of the file.
    pub fn start(offset: u64, length: u64) -> (cursor: ReadCursor)
        ensures
            cursor.offset == offset,
            cursor.remaining == (if length == 0 {
                None
            } else {
                Some(length)
            }),
    {
        ReadCursor { offset, remaining: if length == 0 {
            None
        } else {
            Some(length)
        } }
    }

    /// How many bytes to read next; `None` when the request is exhausted
    /// and the stream is to be ended.
    pub fn plan(&self, chunk_size: usize) -> (len: Option<usize>)
        ensures
            match len {
                Some(n) => planned_read(self.remaining, chunk_size as nat) == Some(n as nat),
                None => planned_read(self.remaining, chunk_size as nat) is None,
            },
    {
        match self.remaining {
            Some(left) => if left == 0 {
                None
            } else if left < chunk_size as u64 {
                Some(left as usize)
            } else {
                Some(chunk_size)
            },
            None => Some(chunk_size),
        }
    }

    /// Ends the stream: the terminal chunk at the current offset.
    pub fn finish(self) -> (chunk: ReadFileChunk)
        ensures
            chunk@ == terminal_chunk(self.offset as nat),
    {
        ReadFileChunk { data: Vec::new(), offset: self.offset, eof: true }
    }

    /// Takes what a read returned. No bytes mean the end of the file: the
    /// stream ends with the terminal chunk. Otherwise the bytes go out as
    /// a chunk at the current offset, and the cursor moves past them.
    pub fn on_data(self, data: Vec<u8>) -> (step: ReadStep)
        requires
            self.offset + data.len() <= u64::MAX,
            self.remaining is Some ==> data.len() <= self.remaining->Some_0,
        ensures
            data.len() == 0 ==> step.chunk@ == terminal_chunk(self.offset as nat) && step.next
                is None,
            data.len() > 0 ==> step.chunk@ == data_chunk(data@, self.offset as nat) && step.next
                == Some(
                ReadCursor {
                    offset: (self.offset + data.len()) as u64,
                    remaining: remaining_after(self.remaining, data.len() as nat),
                },
            ),
    {
        let n = data.len();
        if n == 0 {
            return ReadStep { chunk: self.finish(), next: None };
        }
        let next = ReadCursor {
            offset: self.offset + n as u64,
            remaining: match self.remaining {
                Some(left) => Some(left - n as u64),
                None => None,
            },
        };
        ReadStep { chunk: ReadFileChunk { data, offset: self.offset, eof: false }, next: Some(next) }
    }
}

/// One slice of a file on its way to the server. Only the first chunk of
/// a stream needs to name the file.
#[derive(Debug, PartialEq, Eq)]
pub struct WriteFileChunk {
    pub path: String,
    pub offset: u64,
    pub data: Vec<u8>,
    pub eof: bool,
}

/// The answer to a write stream.
#[derive(Debug, PartialEq, Eq, Structural, Clone, Copy)]
pub struct WriteFileResponse {
    /// The sum of the lengths of the chunks that were applied.
    pub bytes_written: u64,
}

/// Where a write stands: the file it goes to, once a chunk has named one,
/// whether that file was opened, and the bytes written so far.
pub struct WriteSession {
    path: Option<String>,
    opened: bool,
    bytes_written: u64,
}

/// What to do with an inbound chunk.
pub struct WriteTarget {
    /// The file the stream goes to.
    pub path: String,
    /// Whether the file has to be opened, and created if absent, first.
    pub open: bool,
    /// Where in the file the chunk's data goes.
    pub offset: u64,
}

/// The file a stream goes to once a chunk naming `chunk_path` was seen:
/// the one recorded before, or else the chunk's, if it names one.
pub open spec fn target_path(recorded: Option<Seq<char>>, chunk_path: Seq<char>) -> Option<
    Seq<char>,
> {
    match recorded {
        Some(p) => Some(p),
        None => if chunk_path.len() > 0 {
            Some(chunk_path)
        } else {
            None
        },
    }
}

impl WriteSession {
    #[verifier::type_invariant]
    spec fn well_formed(self) -> bool {
        self.path is Some ==> self.path->Some_0@.len() > 0
    }

    /// The file recorded for the stream, if a chunk has named one.
    pub closed spec fn recorded(&self) -> Option<Seq<char>> {
        match self.path {
            Some(p) => Some(p@),
            None => None,
        }
    }

    /// Whether the file was opened.
    pub closed spec fn opened(&self) -> bool {
        self.opened
    }

    /// The bytes written so far.
    pub closed spec fn bytes_written(&self) -> u64 {
        self.bytes_written
    }

    /// A stream of which no chunk has arrived.
    pub fn new() -> (session: WriteSession)
        ensures
            session.recorded() is None,
            !session.opened(),
            session.bytes_written() == 0,
    {
        WriteSession { path: None, opened: false, bytes_written: 0 }
    }

    /// The bytes written so far.
    pub fn total(&self) -> (n: u64)
        ensures
            n == self.bytes_written(),
    {
        self.bytes_written
    }

    /// Takes the head of an inbound chunk. The first chunk has to name
    /// the file, which is recorded and opened once; later chunks go to
    /// the same file whatever they name. Each chunk is written at its own
    /// offset.
    pub fn accept(&mut self, chunk_path: &str, offset: u64) -> (plan: Result<
        WriteTarget,
        ServiceError,
    >)
        ensures
            final(self).bytes_written() == old(self).bytes_written(),
            final(self).recorded() == target_path(old(self).recorded(), chunk_path@),
            match plan {
                Ok(target) => {
                    &&& final(self).recorded() == Some(target.path@)
                    &&& target.path@.len() > 0
                    &&& target.open == !old(self).opened()
                    &&& target.offset == offset
                    &&& final(self).opened()
                },
                Err(e) => {
                    &&& e == ServiceError::InvalidArgument
                    &&& final(self).recorded() is None
                    &&& final(self).opened() == old(self).opened()
                },
            },
    {
        proof {
            use_type_invariant(&*self);
        }
        if self.path.is_none() && chunk_path.unicode_len() > 0 {
            self.path = Some(chunk_path.to_owned());
        }
        let path = match &self.path {
            Some(p) => p.clone(),
            None => {
                return Err(ServiceError::InvalidArgument);
            },
        };
        let open = !self.opened;
        self.opened = true;
        Ok(WriteTarget { path, open, offset })
    }

    /// Counts a chunk's data once it was written. Says whether the chunk
    /// ended the stream.
    pub fn written(&mut self, len: usize, eof: bool) -> (done: bool)
        requires
            old(self).bytes_written() + len <= u64::MAX,
        ensures
            done == eof,
            final(self).bytes_written() == old(self).bytes_written() + len,
            final(self).recorded() == old(self).recorded(),
            final(self).opened() == old(self).opened(),
    {
        proof {
            use_type_invariant(&*self);
        }
        self.bytes_written = self.bytes_written + len as u64;
        eof
    }

    /// The answer once the stream has ended: the bytes written, or an
    /// invalid argument where no chunk ever named a file.
    pub fn finish(&self) -> (reply: Result<WriteFileResponse, ServiceError>)
        ensures
            reply == (if self.recorded() is Some {
                Ok::<WriteFileResponse, ServiceError>(
                    WriteFileResponse { bytes_written: self.bytes_written() },
                )
            } else {
                Err::<WriteFileResponse, ServiceError>(ServiceError::InvalidArgument)
            }),
    {
        if self.path.is_some() {
            Ok(WriteFileResponse { bytes_written: self.bytes_written })
        } else {
            Err(ServiceError::InvalidArgument)
        }
    }
}

/// What a read of up to `n` bytes at `offset` returns from a file that
/// holds `file` and always gives as much as it has.
pub open spec fn file_read(file: Seq<u8>, offset: nat, n: nat) -> Seq<u8> {
    if offset >= file.len() {
        Seq::empty()
    } else if offset + n >= file.len() {
        file.subrange(offset as int, file.len() as int)
    } else {
        file.subrange(offset as int, (offset + n) as int)
    }
}

/// The chunks that a read stream sends for such a file, from the cursor
/// at `offset` with `remaining` left of the request.
pub open spec fn stream_of(file: Seq<u8>, offset: nat, remaining: Option<u64>, chunk_size: nat) -> Seq<
    ChunkView,
>
    decreases file.len() - offset,
{
    match planned_read(remaining, chunk_size) {
        None => seq![terminal_chunk(offset)],
        Some(n) => {
            let got = file_read(file, offset, n);
            if got.len() == 0 {
                seq![terminal_chunk(offset)]
            } else {
                seq![data_chunk(got, offset)] + stream_of(
                    file,
                    offset + got.len(),
                    remaining_after(remaining, got.len()),
                    chunk_size,
                )
            }
        },
    }
}

/// Where a request ends in a file of `file_len` bytes: at the end of the
/// file, or after the requested length if that comes first.
pub open spec fn request_end(file_len: nat, offset: nat, remaining: Option<u64>) -> nat {
    match remaining {
        Some(left) => if offset + left < file_len {
            offset + left as nat
        } else {
            file_len
        },
        None => file_len,
    }
}

/// The `i`-th data chunk of a stream over the bytes from `offset` to
/// `end`: a full chunk, or what is left before `end`.
pub open spec fn nth_data_chunk(file: Seq<u8>, offset: nat, end: nat, chunk_size: nat, i: int) -> ChunkView {
    let from = offset + i * chunk_size;
    let to = if from + chunk_size < end {
        from + chunk_size
    } else {
        end as int
    };
    data_chunk(file.subrange(from, to), from as nat)
}

/// Whether the `i`-th chunk of `s` is the `i`-th data chunk of a stream
/// over the bytes from `offset` to `end`, and has bytes to carry.
pub open spec fn is_nth_data_chunk(
    s: Seq<ChunkView>,
    file: Seq<u8>,
    offset: nat,
    end: nat,
    chunk_size: nat,
    i: int,
) -> bool {
    offset + i * chunk_size < end && s[i] == nth_data_chunk(file, offset, end, chunk_size, i)
}

/// Whether `s` sends the bytes of `file` from `offset` to `end` in order,
/// cut into full chunks but for the last one, each at its place in the
/// file, and then one terminal chunk at `end`.
pub open spec fn exact_stream(s: Seq<ChunkView>, file: Seq<u8>, offset: nat, end: nat, chunk_size: nat) -> bool {
    &&& s.len() >= 1
    &&& s[s.len() - 1] == terminal_chunk(end)
    &&& offset + (s.len() - 1) * chunk_size >= end
    &&& forall|i: int|
        0 <= i < s.len() - 1 ==> #[trigger] is_nth_data_chunk(s, file, offset, end, chunk_size, i)
}

/// A read stream is exact. It sends the requested bytes in order, cut
/// into full chunks but for the last one, each at its place in the file,
/// and ends with one terminal chunk at the offset where the request
/// ends.
pub proof fn lemma_stream_exact(file: Seq<u8>, offset: nat, remaining: Option<u64>, chunk_size: nat)
    requires
        chunk_size > 0,
        offset <= file.len(),
    ensures
        exact_stream(
            stream_of(file, offset, remaining, chunk_size),
            file,
            offset,
            request_end(file.len(), offset, remaining),
            chunk_size,
        ),
    decreases file.len() - offset,
{
    let s = stream_of(file, offset, remaining, chunk_size);
    let end = request_end(file.len(), offset, remaining);
    match planned_read(remaining, chunk_size) {
        None => {
            assert(s =~= seq![terminal_chunk(offset)]);
            assert((s.len() - 1) * chunk_size == 0) by (nonlinear_arith)
                requires
                    s.len() == 1,
            ;
        },
        Some(n) => {
            let got = file_read(file, offset, n);
            if got.len() == 0 {
                assert(s =~= seq![terminal_chunk(offset)]);
                assert((s.len() - 1) * chunk_size == 0) by (nonlinear_arith)
                    requires
                        s.len() == 1,
                ;
            } else {
                let offset2 = offset + got.len();
                let remaining2 = remaining_after(remaining, got.len());
                let rest = stream_of(file, offset2, remaining2, chunk_size);
                lemma_stream_exact(file, offset2, remaining2, chunk_size);
                assert(request_end(file.len(), offset2, remaining2) == end);
                assert(s =~= seq![data_chunk(got, offset)] + rest);
                assert(s[0] == nth_data_chunk(file, offset, end, chunk_size, 0));
                if got.len() < chunk_size {
                    assert(offset2 == end);
                    assert(rest.len() == 1) by {
                        if rest.len() > 1 {
                            assert(is_nth_data_chunk(rest, file, offset2, end, chunk_size, 0));
                        }
                    }
                    assert((s.len() - 1) * chunk_size == chunk_size) by (nonlinear_arith)
                        requires
                            s.len() == 2,
                    ;
                    assert(s[s.len() - 1] == terminal_chunk(end));
                    assert forall|i: int| 0 <= i < s.len() - 1 implies #[trigger] is_nth_data_chunk(
                        s,
                        file,
                        offset,
                        end,
                        chunk_size,
                        i,
                    ) by {
                        assert(i == 0);
                        assert(offset + 0 * chunk_size < end);
                    }
                } else {
                    assert(offset2 == offset + chunk_size);
                    assert(offset + (s.len() - 1) * chunk_size == offset2 + (rest.len() - 1)
                        * chunk_size) by (nonlinear_arith)
                        requires
                            s.len() == rest.len() + 1,
                            offset2 == offset + chunk_size,
                    ;
                    assert(s[s.len() - 1] == rest[rest.len() - 1]);
                    assert forall|i: int| 0 <= i < s.len() - 1 implies #[trigger] is_nth_data_chunk(
                        s,
                        file,
                        offset,
                        end,
                        chunk_size,
                        i,
                    ) by {
                        if i == 0 {
                            assert(offset + 0 * chunk_size < end);
                        } else {
                            assert(s[i] == rest[i - 1]);
                            assert(is_nth_data_chunk(rest, file, offset2, end, chunk_size, i - 1));
                            assert(offset + i * chunk_size == offset2 + (i - 1) * chunk_size)
                                by (nonlinear_arith)
                                requires
                                    offset2 == offset + chunk_size,
                            ;
                        }
                    }
                }
            }
        },
    }
}

} // verus!
