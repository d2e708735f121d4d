//! How a download is turned into an upload: what is refused, what is announced, and
//! which bytes are read ahead.

use crate::naming::{decoded_name, describe_file, undecoded_name, FileNameError, ResponseHead};
use crate::sizes::{format_file_size, is_file_size, law_file_size_form};
use crate::text::decimal;
use vstd::prelude::*;

verus! {

/// The largest file that is uploaded, in bytes.
pub const MAX_FILE_SIZE: u64 = 2 * 1024 * 1024 * 1024;

/// How many bytes are read ahead of a file of unknown size.
pub const PREFETCH_SIZE: usize = 32 * 1024;

/// The reply to a request for a file of no bytes.
pub const EMPTY_TEXT: &'static str = "⚠️ File is empty";

/// The reply to a request for a file that is too large.
pub const TOO_LARGE_TEXT: &'static str = "⚠️ File is too large";

/// What the status message says when no bytes came.
pub const NO_DATA_TEXT: &'static str = "⚠️ File is empty or could not be downloaded.";

/// What becomes of a download.
pub enum Opening {
    /// It is not uploaded: the text is sent in reply.
    Refuse(&'static str),
    /// It is uploaded as it comes.
    Known(Announcing),
    /// Some of it is read ahead first.
    Unknown(Reading),
}

/// A file of known size, whose status message is to be sent.
pub struct Announcing {
    name: String,
    len: u64,
}

/// A file of unknown size, of which bytes are read ahead once its first status
/// message has been sent.
pub struct Reading {
    name: String,
    buffer: Vec<u8>,
}

/// What becomes of a file of unknown size once bytes have been read ahead.
pub enum ReadAhead {
    /// There were none: the status message says so, and nothing is uploaded.
    Nothing(&'static str),
    /// There were some: the file is uploaded.
    Bytes(Telling),
}

/// A file of unknown size, whose status message is to say that it is sent.
pub struct Telling {
    name: String,
    buffer: Vec<u8>,
}

/// A file that is sent.
pub struct Sending {
    /// What it is called; this is the text below it, too.
    pub name: String,
    /// The number of bytes that the upload is announced with.
    pub size: usize,
    /// The bytes that are sent before the rest of the stream.
    pub prefix: Vec<u8>,
    /// The number of bytes by which progress is reported, if it is.
    pub total: Option<u64>,
}

/// A file of known size, in terms of texts and numbers.
pub struct AnnouncingView {
    pub name: Seq<char>,
    pub len: u64,
}

impl View for Announcing {
    type V = AnnouncingView;

    closed spec fn view(&self) -> AnnouncingView {
        AnnouncingView { name: self.name@, len: self.len }
    }
}

/// A file of unknown size, and the bytes that have been read of it.
pub struct PartialFile {
    pub name: Seq<char>,
    pub read: Seq<u8>,
}

impl View for Reading {
    type V = PartialFile;

    closed spec fn view(&self) -> PartialFile {
        PartialFile { name: self.name@, read: self.buffer@ }
    }
}

impl View for Telling {
    type V = PartialFile;

    closed spec fn view(&self) -> PartialFile {
        PartialFile { name: self.name@, read: self.buffer@ }
    }
}

/// A file that is sent, in terms of texts and bytes.
pub struct SendingView {
    pub name: Seq<char>,
    pub size: int,
    pub prefix: Seq<u8>,
    pub total: Option<u64>,
}

impl View for Sending {
    type V = SendingView;

    open spec fn view(&self) -> SendingView {
        SendingView {
            name: self.name@,
            size: self.size as int,
            prefix: self.prefix@,
            total: self.total,
        }
    }
}

/// How the file `name` of `len` bytes is sent.
pub open spec fn sending_known(name: Seq<char>, len: u64) -> SendingView {
    SendingView { name, size: len as int, prefix: Seq::empty(), total: Some(len) }
}

/// How the file `name` of unknown size is sent, of which `prefix` has been read.
pub open spec fn sending_unknown(name: Seq<char>, prefix: Seq<u8>) -> SendingView {
    SendingView { name, size: 0, prefix, total: None }
}

/// The reply to a request for a file that announces `len` bytes, where it is not
/// uploaded.
pub open spec fn refusal(len: u64) -> Option<Seq<char>> {
    if len == 0 {
        Some(EMPTY_TEXT@)
    } else if len > MAX_FILE_SIZE {
        Some(TOO_LARGE_TEXT@)
    } else {
        None
    }
}

/// Whether `opening` is what becomes of the download of the file `name`, by the
/// number of bytes that it announces, or by its announcing none.
pub open spec fn opens_as(name: Seq<char>, content_length: Option<u64>, opening: Opening) -> bool {
    match opening {
        Opening::Refuse(text) => {
            content_length is Some && refusal(content_length->0) == Some(text@)
        },
        Opening::Known(file) => {
            &&& content_length is Some
            &&& refusal(content_length->0) is None
            &&& file@ == (AnnouncingView { name, len: content_length->0 })
        },
        Opening::Unknown(file) => {
            &&& content_length is None
            &&& file@ == (PartialFile { name, read: Seq::empty() })
        },
    }
}

/// Decides what becomes of the download of the file `name`, by the number of bytes
/// that it announces.
pub fn open_transfer(name: String, content_length: Option<u64>) -> (opening: Opening)
    ensures
        opens_as(name@, content_length, opening),
{
    match content_length {
        Some(len) => if len == 0 {
            Opening::Refuse(EMPTY_TEXT)
        } else if len > MAX_FILE_SIZE {
            Opening::Refuse(TOO_LARGE_TEXT)
        } else {
            Opening::Known(Announcing { name, len })
        },
        None => {
            let buffer: Vec<u8> = Vec::new();
            assert(buffer@ =~= Seq::empty());
            Opening::Unknown(Reading { name, buffer })
        },
    }
}

/// Decides what becomes of a download once the head of its response is there, for a
/// user who asked for the name `custom` or for none.
pub fn open_download(head: &ResponseHead, custom: Option<&str>) -> (opening: Result<
    Opening,
    FileNameError,
>)
    ensures
        match opening {
            Ok(opening) => {
                let name = decoded_name(undecoded_name(head@, custom.deep_view()));
                name is Some && opens_as(name->0, head@.content_length, opening)
            },
            Err(error) => {
                &&& error == FileNameError::NotUtf8
                &&& decoded_name(undecoded_name(head@, custom.deep_view())) is None
            },
        },
{
    match describe_file(head, custom) {
        Ok(file) => Ok(open_transfer(file.name, head.content_length)),
        Err(error) => Err(error),
    }
}

/// The status message when the download of a file of known size has begun.
pub open spec fn started_message(name: Seq<char>, size: Seq<char>) -> Seq<char> {
    "<blockquote>📥 <b>Download Started</b>\n\n<b>File Name:</b> "@ + name
        + "\n<b>Size:</b> "@ + size + "</blockquote>"@
}

/// Whether `text` tells that the download of the file `name` of `len` bytes has
/// begun.
pub open spec fn tells_start(name: Seq<char>, len: u64, text: Seq<char>) -> bool {
    exists|size: Seq<char>| #[trigger]
        is_file_size(len, size) && text == started_message(name, size)
}

/// The status message when the download of a file of unknown size has begun.
pub open spec fn starting_message(name: Seq<char>) -> Seq<char> {
    "<blockquote>📥 <b>Starting download...</b>\n\n<b>File Name:</b> "@ + name
        + "\n<b>Size:</b> Unknown</blockquote>"@
}

/// The status message when a file of unknown size is about to be sent.
pub open spec fn uploading_message(name: Seq<char>) -> Seq<char> {
    "<blockquote>📤 <b>Uploading file...</b>\n\n<b>File Name:</b> "@ + name
        + "\n<b>Size:</b> Unknown (streaming)</blockquote>"@
}

/// Puts the status message for a file of known size together.
pub fn compose_started(name: &str, size: &str) -> (out: String)
    ensures
        out@ == started_message(name@, size@),
{
    let mut out = String::new();
    out.append("<blockquote>📥 <b>Download Started</b>\n\n<b>File Name:</b> ");
    out.append(name);
    out.append("\n<b>Size:</b> ");
    out.append(size);
    out.append("</blockquote>");
    assert(out@ =~= started_message(name@, size@));
    out
}

/// Writes the status message for a file of `len` bytes.
pub fn started_text(name: &str, len: u64) -> (out: String)
    ensures
        tells_start(name@, len, out@),
{
    let size = format_file_size(len);
    compose_started(name, size.as_str())
}

/// Writes the status message for a file of unknown size.
pub fn starting_text(name: &str) -> (out: String)
    ensures
        out@ == starting_message(name@),
{
    let mut out = String::new();
    out.append("<blockquote>📥 <b>Starting download...</b>\n\n<b>File Name:</b> ");
    out.append(name);
    out.append("\n<b>Size:</b> Unknown</blockquote>");
    assert(out@ =~= starting_message(name@));
    out
}

/// Writes the status message for a file of unknown size that is about to be sent.
pub fn uploading_text(name: &str) -> (out: String)
    ensures
        out@ == uploading_message(name@),
{
    let mut out = String::new();
    out.append("<blockquote>📤 <b>Uploading file...</b>\n\n<b>File Name:</b> ");
    out.append(name);
    out.append("\n<b>Size:</b> Unknown (streaming)</blockquote>");
    assert(out@ =~= uploading_message(name@));
    out
}

impl Announcing {
    /// The file is not too large to be uploaded.
    #[verifier::type_invariant]
    spec fn fits(self) -> bool {
        self.len <= MAX_FILE_SIZE
    }

    /// The status message to send.
    pub fn status(&self) -> (out: String)
        ensures
            tells_start(self@.name, self@.len, out@),
    {
        started_text(self.name.as_str(), self.len)
    }

    /// The status message has been sent.
    pub fn announced(self) -> (sending: Sending)
        ensures
            sending@ == sending_known(self@.name, self@.len),
            sending.name@ == self@.name,
            sending.size == self@.len,
            sending.prefix@.len() == 0,
            sending.total == Some(self@.len),
    {
        proof {
            use_type_invariant(&self);
        }
        let prefix: Vec<u8> = Vec::new();
        assert(prefix@ =~= Seq::empty());
        Sending { name: self.name, size: self.len as usize, prefix, total: Some(self.len) }
    }
}

/// Whether more bytes are to be read ahead.
pub open spec fn wants_more(buffer: Seq<u8>) -> bool {
    buffer.len() < PREFETCH_SIZE
}

impl Reading {
    /// The status message to send before anything is read.
    pub fn status(&self) -> (out: String)
        ensures
            out@ == starting_message(self@.name),
    {
        starting_text(self.name.as_str())
    }

    /// Takes the next bytes of the file, and tells whether still more are to be
    /// read ahead.
    pub fn push(&mut self, chunk: &[u8]) -> (more: bool)
        ensures
            final(self)@ == (PartialFile { read: old(self)@.read + chunk@, ..old(self)@ }),
            more == wants_more(final(self)@.read),
    {
        self.buffer.extend_from_slice(chunk);
        assert(self.buffer@ =~= old(self)@.read + chunk@);
        self.buffer.len() < PREFETCH_SIZE
    }

    /// No more bytes are read ahead, be it that there are enough or that the
    /// stream has ended.
    pub fn finish(self) -> (outcome: ReadAhead)
        ensures
            match outcome {
                ReadAhead::Nothing(text) => self@.read.len() == 0 && text@ == NO_DATA_TEXT@,
                ReadAhead::Bytes(file) => self@.read.len() > 0 && file@ == self@,
            },
    {
        if self.buffer.len() == 0 {
            ReadAhead::Nothing(NO_DATA_TEXT)
        } else {
            ReadAhead::Bytes(Telling { name: self.name, buffer: self.buffer })
        }
    }
}

impl Telling {
    /// What the status message is to say.
    pub fn status(&self) -> (out: String)
        ensures
            out@ == uploading_message(self@.name),
    {
        uploading_text(self.name.as_str())
    }

    /// The status message says so.
    pub fn told(self) -> (sending: Sending)
        ensures
            sending@ == sending_unknown(self@.name, self@.read),
            sending.name@ == self@.name,
            sending.size == 0,
            sending.prefix@ == self@.read,
            sending.total is None,
    {
        Sending { name: self.name, size: 0, prefix: self.buffer, total: None }
    }
}

/// What has been read ahead, and what is left of the stream, when the stream goes
/// on with `chunks` and bytes are taken as long as more are to be read.
pub open spec fn read_ahead(buffer: Seq<u8>, chunks: Seq<Seq<u8>>) -> (Seq<u8>, Seq<Seq<u8>>)
    decreases chunks.len(),
{
    if chunks.len() == 0 {
        (buffer, chunks)
    } else {
        let next = buffer + chunks[0];
        if wants_more(next) {
            read_ahead(next, chunks.skip(1))
        } else {
            (next, chunks.skip(1))
        }
    }
}

/// Law: to take one chunk is one step of reading ahead. Where more is then wanted,
/// the rest of the stream is read ahead as well, and else it is left.
pub proof fn law_push_is_one_step(buffer: Seq<u8>, chunk: Seq<u8>, rest: Seq<Seq<u8>>)
    ensures
        read_ahead(buffer, seq![chunk] + rest) == if wants_more(buffer + chunk) {
            read_ahead(buffer + chunk, rest)
        } else {
            (buffer + chunk, rest)
        },
        read_ahead(buffer, Seq::empty()) == (buffer, Seq::<Seq<u8>>::empty()),
{
    let chunks = seq![chunk] + rest;
    assert(chunks[0] == chunk);
    assert(chunks.skip(1) =~= rest);
}

/// Law: what has been read ahead and what is left of the stream are, together and
/// in order, the bytes of the file.
pub proof fn law_prefetch_keeps_the_bytes(buffer: Seq<u8>, chunks: Seq<Seq<u8>>)
    ensures
        read_ahead(buffer, chunks).0 + read_ahead(buffer, chunks).1.flatten() == buffer
            + chunks.flatten(),
    decreases chunks.len(),
{
    if chunks.len() > 0 {
        let next = buffer + chunks[0];
        assert(chunks.drop_first() =~= chunks.skip(1));
        assert(next + chunks.skip(1).flatten() =~= buffer + chunks.flatten());
        law_prefetch_keeps_the_bytes(next, chunks.skip(1));
    }
}

/// Law: reading ahead stops short of the end of the stream only with at least
/// `PREFETCH_SIZE` bytes, and finds nothing only in a stream without bytes.
pub proof fn law_prefetch_reads_enough(chunks: Seq<Seq<u8>>)
    ensures
        read_ahead(Seq::empty(), chunks).1.len() > 0 ==> read_ahead(Seq::empty(), chunks).0.len()
            >= PREFETCH_SIZE,
        read_ahead(Seq::empty(), chunks).0.len() == 0 <==> chunks.flatten().len() == 0,
{
    reads_enough(Seq::empty(), chunks);
    law_prefetch_keeps_the_bytes(Seq::empty(), chunks);
    let (bytes, rest) = read_ahead(Seq::empty(), chunks);
    assert((bytes + rest.flatten()).len() == (Seq::<u8>::empty() + chunks.flatten()).len());
    if rest.len() == 0 {
        assert(rest.flatten().len() == 0);
    }
}

proof fn reads_enough(buffer: Seq<u8>, chunks: Seq<Seq<u8>>)
    ensures
        read_ahead(buffer, chunks).1.len() > 0 ==> read_ahead(buffer, chunks).0.len()
            >= PREFETCH_SIZE,
    decreases chunks.len(),
{
    if chunks.len() > 0 {
        reads_enough(buffer + chunks[0], chunks.skip(1));
    }
}

/// Law: exactly the files of one byte up to two gigabytes are uploaded among those
/// that announce their size; an empty file is called empty, and a larger one too
/// large.
pub proof fn law_announced_sizes(len: u64)
    ensures
        refusal(len) is None <==> 1 <= len <= 2_147_483_648,
        len == 0 ==> refusal(len) == Some(EMPTY_TEXT@),
        len > 2_147_483_648 ==> refusal(len) == Some(TOO_LARGE_TEXT@),
{
}

/// Law: nothing of a file of unknown size is lost, whatever the number and the size
/// of the chunks that it comes in. The bytes that are sent first, followed by what is
/// left of the stream, are the bytes of the stream.
pub proof fn law_every_byte_is_sent(name: Seq<char>, chunks: Seq<Seq<u8>>)
    ensures
        ({
            let (bytes, rest) = read_ahead(Seq::empty(), chunks);
            sending_unknown(name, bytes).prefix + rest.flatten() == chunks.flatten()
        }),
{
    law_prefetch_keeps_the_bytes(Seq::empty(), chunks);
    assert(Seq::<u8>::empty() + chunks.flatten() =~= chunks.flatten());
}

/// Law: a file of unknown size is sent under its name, with all the bytes that have
/// been read of it, however few, and without a size.
pub proof fn law_unknown_file_is_sent_as_read(name: Seq<char>, read: Seq<u8>)
    ensures
        sending_unknown(name, read).name == name,
        sending_unknown(name, read).prefix == read,
        sending_unknown(name, read).size == 0,
        sending_unknown(name, read).total is None,
{
}

/// Law: a file of known size is sent under its name and with its size, by which
/// progress is reported, and nothing of it has been read before.
pub proof fn law_known_file_is_sent_with_its_size(name: Seq<char>, len: u64)
    ensures
        sending_known(name, len).name == name,
        sending_known(name, len).prefix.len() == 0,
        sending_known(name, len).size == len,
        sending_known(name, len).total == Some(len),
{
}

/// Law: a download is refused exactly where it announces no bytes or more than two
/// gigabytes, it is read ahead exactly where it announces nothing, and in every other
/// case it is announced with its size. It keeps its name, and nothing has been read of
/// it yet.
pub proof fn law_opening_goes_by_the_announced_size(
    name: Seq<char>,
    content_length: Option<u64>,
    opening: Opening,
)
    requires
        opens_as(name, content_length, opening),
    ensures
        opening is Unknown <==> content_length is None,
        opening is Known <==> content_length is Some && 1 <= content_length->0 <= 2_147_483_648,
        content_length == Some(0u64) ==> opening is Refuse && opening->Refuse_0@ == EMPTY_TEXT@,
        content_length is Some && content_length->0 > 2_147_483_648 ==> opening is Refuse
            && opening->Refuse_0@ == TOO_LARGE_TEXT@,
        opening is Known ==> opening->Known_0@.name == name && Some(opening->Known_0@.len)
            == content_length,
        opening is Unknown ==> opening->Unknown_0@.name == name
            && opening->Unknown_0@.read.len() == 0,
{
}

/// Law: bytes are wanted until there are 32 kilobytes of them.
pub proof fn law_enough_is_32_kilobytes(buffer: Seq<u8>)
    ensures
        wants_more(buffer) <==> buffer.len() < 32_768,
{
}

/// Law: reading ahead takes whole chunks from the front of the stream, at least one
/// where there is one, and leaves the others as they are. It takes no chunk for which
/// 32 kilobytes had been read before, and leaves none for which they had not.
pub proof fn law_prefetch_takes_no_more_than_needed(chunks: Seq<Seq<u8>>)
    ensures
        ({
            let (bytes, rest) = read_ahead(Seq::empty(), chunks);
            let taken = chunks.len() - rest.len();
            &&& 0 <= taken <= chunks.len()
            &&& chunks.len() > 0 ==> taken > 0
            &&& rest == chunks.skip(taken)
            &&& bytes == chunks.take(taken).flatten()
            &&& taken > 1 ==> chunks.take(taken - 1).flatten().len() < 32_768
            &&& taken < chunks.len() ==> bytes.len() >= 32_768
        }),
{
    takes_from_the_front(Seq::empty(), chunks);
    reads_enough(Seq::empty(), chunks);
    let (bytes, rest) = read_ahead(Seq::empty(), chunks);
    let taken = chunks.len() - rest.len();
    assert(bytes =~= chunks.take(taken).flatten());
    if taken > 1 {
        let before = chunks.take(taken - 1).flatten();
        assert(Seq::<u8>::empty() + before =~= before);
    }
}

proof fn takes_from_the_front(buffer: Seq<u8>, chunks: Seq<Seq<u8>>)
    ensures
        ({
            let (bytes, rest) = read_ahead(buffer, chunks);
            let taken = chunks.len() - rest.len();
            &&& 0 <= taken <= chunks.len()
            &&& chunks.len() > 0 ==> taken > 0
            &&& rest == chunks.skip(taken)
            &&& bytes == buffer + chunks.take(taken).flatten()
            &&& taken > 1 ==> (buffer + chunks.take(taken - 1).flatten()).len() < PREFETCH_SIZE
        }),
    decreases chunks.len(),
{
    let (bytes, rest) = read_ahead(buffer, chunks);
    if chunks.len() == 0 {
        assert(chunks.take(0).flatten() =~= Seq::<u8>::empty());
    } else {
        let next = buffer + chunks[0];
        let others = chunks.skip(1);
        let taken = chunks.len() - rest.len();
        if wants_more(next) {
            takes_from_the_front(next, others);
            front_of_flattened(chunks, taken);
            assert(bytes =~= buffer + chunks.take(taken).flatten());
            assert(rest =~= chunks.skip(taken));
            if taken > 1 {
                front_of_flattened(chunks, taken - 1);
                if taken == 2 {
                    assert(others.take(0).flatten() =~= Seq::<u8>::empty());
                }
            }
        } else {
            front_of_flattened(chunks, 1);
            assert(others.take(0).flatten() =~= Seq::<u8>::empty());
            assert(bytes =~= buffer + chunks.take(1).flatten());
        }
    }
}

proof fn front_of_flattened(chunks: Seq<Seq<u8>>, n: int)
    requires
        1 <= n <= chunks.len(),
    ensures
        chunks.take(n).flatten() == chunks[0] + chunks.skip(1).take(n - 1).flatten(),
{
    assert(chunks.take(n).drop_first() =~= chunks.skip(1).take(n - 1));
}

/// Law: each status message holds the name of the file as it is, between texts that
/// are the same for every file; that for a file of known size also ends in its size.
pub proof fn law_status_messages_hold_the_name(name: Seq<char>, size: Seq<char>)
    ensures
        ({
            let head = "<blockquote>📥 <b>Download Started</b>\n\n<b>File Name:</b> "@ + name;
            let tail = "\n<b>Size:</b> "@ + (size + "</blockquote>"@);
            started_message(name, size) == head + tail
        }),
        ({
            let head = "<blockquote>📥 <b>Starting download...</b>\n\n<b>File Name:</b> "@;
            let tail = "\n<b>Size:</b> Unknown</blockquote>"@;
            starting_message(name) == head + (name + tail)
        }),
        ({
            let head = "<blockquote>📤 <b>Uploading file...</b>\n\n<b>File Name:</b> "@;
            let tail = "\n<b>Size:</b> Unknown (streaming)</blockquote>"@;
            uploading_message(name) == head + (name + tail)
        }),
{
}

/// Law: the status message for a file of fewer than 1024 bytes names the file and
/// counts its bytes.
pub proof fn law_start_counts_bytes(name: Seq<char>, len: u64, text: Seq<char>)
    requires
        len < 1024,
    ensures
        tells_start(name, len, text) <==> text
            == "<blockquote>📥 <b>Download Started</b>\n\n<b>File Name:</b> "@ + name
            + "\n<b>Size:</b> "@ + (decimal(len as nat) + " B"@) + "</blockquote>"@,
{
    let size = decimal(len as nat) + " B"@;
    law_file_size_form(len, size);
    assert forall|other: Seq<char>| #[trigger] is_file_size(len, other) implies other == size by {
        law_file_size_form(len, other);
    }
}

/// Law: the status message for a file of known size names the file and gives its
/// size, in whatever way the size is written.
pub proof fn law_start_tells_name_and_size(name: Seq<char>, len: u64, size: Seq<char>)
    requires
        is_file_size(len, size),
    ensures
        tells_start(name, len, started_message(name, size)),
        forall|text: Seq<char>| #[trigger]
            tells_start(name, len, text) ==> exists|size: Seq<char>| #[trigger]
                is_file_size(len, size) && text == started_message(name, size),
{
}

}
