//! The decisions behind the analysis endpoints: what a request is turned
//! into, which reply each outcome gets, and how a remote file is read.
use vstd::prelude::*;

use crate::analysis::{parse_hint, spec_to_lowercase, hint_named, Hint};
use crate::decimal::{parse_bounded, parse_usize};
use crate::text::owned;

verus! {

/// The largest file, in bytes, that the service analyses.
pub const MAX_FILE_SIZE: usize = 10 * 1024 * 1024;

pub const STATUS_OK: u16 = 200;
pub const STATUS_BAD_REQUEST: u16 = 400;
pub const STATUS_UNPROCESSABLE_ENTITY: u16 = 422;
pub const STATUS_INTERNAL_SERVER_ERROR: u16 = 500;
pub const STATUS_BAD_GATEWAY: u16 = 502;
pub const STATUS_SERVICE_UNAVAILABLE: u16 = 503;

/// The body of every error reply.
pub struct AnalysisError {
    pub upstream_body: Option<String>,
    pub upstream_status_code: Option<u16>,
    pub body: Option<String>,
}

/// An error reply: its HTTP status and its body.
pub struct ErrorReply {
    pub status: u16,
    pub error: AnalysisError,
}

/// An error reply as plain values.
pub struct ErrorReplyView {
    pub status: u16,
    pub upstream_body: Option<Seq<char>>,
    pub upstream_status_code: Option<u16>,
    pub body: Option<Seq<char>>,
}

/// The characters of an optional string.
pub open spec fn opt_chars(s: Option<String>) -> Option<Seq<char>> {
    match s {
        Some(t) => Some(t@),
        None => None,
    }
}

/// The characters of an optional string slice.
pub open spec fn opt_str_chars(s: Option<&str>) -> Option<Seq<char>> {
    match s {
        Some(t) => Some(t@),
        None => None,
    }
}

impl View for ErrorReply {
    type V = ErrorReplyView;

    open spec fn view(&self) -> ErrorReplyView {
        ErrorReplyView {
            status: self.status,
            upstream_body: opt_chars(self.error.upstream_body),
            upstream_status_code: self.error.upstream_status_code,
            body: opt_chars(self.error.body),
        }
    }
}

/// A reply of the service itself, with no upstream part.
pub open spec fn own_reply(status: u16, message: Seq<char>) -> ErrorReplyView {
    ErrorReplyView {
        status: status,
        upstream_body: None,
        upstream_status_code: None,
        body: Some(message),
    }
}

/// Builds a reply of the service itself.
fn own_error(status: u16, message: &str) -> (reply: ErrorReply)
    ensures
        reply@ == own_reply(status, message@),
{
    ErrorReply {
        status: status,
        error: AnalysisError { upstream_body: None, upstream_status_code: None, body: Some(owned(message)) },
    }
}

/// The reply to a file that is larger than the service accepts.
pub fn file_too_big() -> (reply: ErrorReply)
    ensures
        reply@ == own_reply(STATUS_UNPROCESSABLE_ENTITY, "File too big"@),
{
    own_error(STATUS_UNPROCESSABLE_ENTITY, "File too big")
}

// ----------------------------------------------------------------------------
// Uploaded files

/// What an upload is analysed as.
pub struct UploadJob {
    pub bytes: Vec<u8>,
    pub hint: Option<Hint>,
    pub name: String,
}

/// The name under which an uploaded file is analysed: its own, or
/// `uploaded_file` where the upload gives none.
pub open spec fn upload_name(file_name: Option<Seq<char>>) -> Seq<char> {
    match file_name {
        Some(n) => n,
        None => "uploaded_file"@,
    }
}

/// The hint that an optional hint text asks for.
pub open spec fn requested_hint(text: Option<Seq<char>>) -> Option<Hint> {
    match text {
        Some(t) => hint_named(spec_to_lowercase(t)),
        None => None,
    }
}

/// Reads an optional hint text.
pub fn read_hint(text: Option<&str>) -> (hint: Option<Hint>)
    ensures
        hint == requested_hint(opt_str_chars(text)),
{
    match text {
        Some(t) => parse_hint(t),
        None => None,
    }
}

/// Turns an upload into the job to analyse, or into the reply to an empty file.
pub fn plan_upload(file_name: Option<String>, data: Vec<u8>, hint: Option<&str>) -> (res: Result<
    UploadJob,
    ErrorReply,
>)
    ensures
        res is Err <==> data@.len() == 0,
        res matches Err(reply) ==> reply@ == own_reply(STATUS_BAD_REQUEST, "No file provided"@),
        res matches Ok(job) ==> {
            &&& job.bytes@ == data@
            &&& job.name@ == upload_name(opt_chars(file_name))
            &&& job.hint == requested_hint(opt_str_chars(hint))
        },
{
    let name = match file_name {
        Some(n) => n,
        None => owned("uploaded_file"),
    };
    if data.len() == 0 {
        return Err(own_error(STATUS_BAD_REQUEST, "No file provided"));
    }
    let hint = read_hint(hint);
    Ok(UploadJob { bytes: data, hint: hint, name: name })
}

// ----------------------------------------------------------------------------
// Remote files

/// The name under which a remote file is analysed.
pub fn remote_file_name() -> (name: String)
    ensures
        name@ == "remote_file"@,
{
    owned("remote_file")
}

/// Whether an HTTP status is a success (2xx).
pub fn is_success_status(status: u16) -> (success: bool)
    ensures
        success == (200 <= status < 300),
{
    200 <= status && status < 300
}

/// Whether an HTTP status is a server error (5xx).
pub fn is_server_error_status(status: u16) -> (server_error: bool)
    ensures
        server_error == (500 <= status < 600),
{
    500 <= status && status < 600
}

/// The reply when the remote file could not be requested; `cause` is what
/// the failed request reports.
pub fn request_failed(cause: &str) -> (reply: ErrorReply)
    ensures
        reply@ == own_reply(STATUS_INTERNAL_SERVER_ERROR, "Request failed: "@ + cause@),
{
    let mut message = owned("Request failed: ");
    message.append(cause);
    ErrorReply {
        status: STATUS_INTERNAL_SERVER_ERROR,
        error: AnalysisError { upstream_body: None, upstream_status_code: None, body: Some(message) },
    }
}

/// The reply to a remote server that answered with an error status.
pub open spec fn upstream_reply(status: u16, body: Option<Seq<char>>) -> ErrorReplyView {
    ErrorReplyView {
        status: if 500 <= status < 600 {
            STATUS_BAD_GATEWAY
        } else {
            STATUS_INTERNAL_SERVER_ERROR
        },
        upstream_body: Some(
            match body {
                Some(b) => b,
                None => "unreadable upstream error"@,
            },
        ),
        upstream_status_code: Some(status),
        body: Some(
            if 500 <= status < 600 {
                "upstream server error"@
            } else {
                "upstream client error"@
            },
        ),
    }
}

/// A remote error is classed by the hundreds digit of its status: a status in
/// the server-error class (5xx) is answered 502 "upstream server error", any
/// other one 500 "upstream client error"; either way the reply carries the
/// remote status and the remote body (or the note that it was unreadable).
pub proof fn lemma_upstream_reply_by_class(status: u16, body: Option<Seq<char>>)
    ensures
        status as int / 100 == 5 ==> upstream_reply(status, body).status == STATUS_BAD_GATEWAY
            && upstream_reply(status, body).body == Some("upstream server error"@),
        status as int / 100 != 5 ==> upstream_reply(status, body).status
            == STATUS_INTERNAL_SERVER_ERROR && upstream_reply(status, body).body == Some(
            "upstream client error"@,
        ),
        upstream_reply(status, body).upstream_status_code == Some(status),
        body matches Some(b) ==> upstream_reply(status, body).upstream_body == Some(b),
        body is None ==> upstream_reply(status, body).upstream_body == Some(
            "unreadable upstream error"@,
        ),
{
}

/// Builds the reply to a remote server that answered with `status`; `body` is
/// the text of its answer, absent where it could not be read.
pub fn upstream_failure(status: u16, body: Option<String>) -> (reply: ErrorReply)
    ensures
        reply@ == upstream_reply(status, opt_chars(body)),
{
    let upstream_body = match body {
        Some(b) => b,
        None => owned("unreadable upstream error"),
    };
    if is_server_error_status(status) {
        ErrorReply {
            status: STATUS_BAD_GATEWAY,
            error: AnalysisError {
                upstream_body: Some(upstream_body),
                upstream_status_code: Some(status),
                body: Some(owned("upstream server error")),
            },
        }
    } else {
        ErrorReply {
            status: STATUS_INTERNAL_SERVER_ERROR,
            error: AnalysisError {
                upstream_body: Some(upstream_body),
                upstream_status_code: Some(status),
                body: Some(owned("upstream client error")),
            },
        }
    }
}

/// The size a remote file announces: its content length where the header
/// writes a number that fits a `usize`, and the largest accepted size otherwise.
pub open spec fn announced_size(header: Option<Seq<char>>) -> nat {
    match header {
        Some(h) => match parse_bounded(h, usize::MAX as nat) {
            Some(v) => v,
            None => MAX_FILE_SIZE as nat,
        },
        None => MAX_FILE_SIZE as nat,
    }
}

/// Reads the content-length header of a remote file.
pub fn declared_length(header: Option<&str>) -> (len: usize)
    ensures
        len as nat == announced_size(opt_str_chars(header)),
{
    match header {
        Some(h) => match parse_usize(h) {
            Some(v) => v,
            None => MAX_FILE_SIZE,
        },
        None => MAX_FILE_SIZE,
    }
}

/// One step in reading the body of a remote file.
pub enum Chunk {
    /// Bytes of the body arrived.
    Data(Vec<u8>),
    /// The body is complete.
    End,
    /// Reading the body failed.
    Failed,
}

/// The body of a remote file while it is read.
pub struct Download {
    bytes: Vec<u8>,
    reading: bool,
}

/// A download as plain values: the bytes received and whether it reads on.
pub struct DownloadView {
    pub received: Seq<u8>,
    pub reading: bool,
}

impl View for Download {
    type V = DownloadView;

    closed spec fn view(&self) -> DownloadView {
        DownloadView { received: self.bytes@, reading: self.reading }
    }
}

/// What a chunk does to a download: data is appended, after which reading
/// stops once the body is larger than the largest accepted size; the end of
/// the body or a failure stops reading; a download that stopped keeps what it has.
pub open spec fn absorb(d: DownloadView, chunk: Chunk) -> DownloadView {
    if !d.reading {
        d
    } else {
        match chunk {
            Chunk::Data(data) => DownloadView {
                received: d.received + data@,
                reading: d.received.len() + data@.len() <= MAX_FILE_SIZE,
            },
            _ => DownloadView { received: d.received, reading: false },
        }
    }
}

/// A download after the chunks `chunks` came, one after the other.
pub open spec fn download_run(d: DownloadView, chunks: Seq<Chunk>) -> DownloadView
    decreases chunks.len(),
{
    if chunks.len() == 0 {
        d
    } else {
        absorb(download_run(d, chunks.drop_last()), chunks.last())
    }
}

/// A download that has not received anything yet.
pub open spec fn fresh_download() -> DownloadView {
    DownloadView { received: Seq::empty(), reading: true }
}

/// Whether every chunk carries data.
pub open spec fn all_data(chunks: Seq<Chunk>) -> bool {
    forall|i: int| 0 <= i < chunks.len() ==> #[trigger] chunks[i] is Data
}

/// The bytes that the data chunks among `chunks` carry, in order.
pub open spec fn data_of(chunks: Seq<Chunk>) -> Seq<u8>
    decreases chunks.len(),
{
    if chunks.len() == 0 {
        Seq::empty()
    } else {
        data_of(chunks.drop_last()) + match chunks.last() {
            Chunk::Data(bytes) => bytes@,
            _ => Seq::empty(),
        }
    }
}

/// A download never reads on once it holds more than the largest accepted
/// size, and what it holds is always the data of the chunks that came, in
/// order, up to the one where it stopped.
pub proof fn lemma_download_within_limit(chunks: Seq<Chunk>)
    ensures
        download_run(fresh_download(), chunks).reading ==> download_run(
            fresh_download(),
            chunks,
        ).received.len() <= MAX_FILE_SIZE,
        exists|k: int|
            0 <= k <= chunks.len() && download_run(fresh_download(), chunks).received == data_of(
                #[trigger] chunks.take(k),
            ),
    decreases chunks.len(),
{
    if chunks.len() == 0 {
        assert(chunks.take(0) =~= chunks);
    } else {
        let rest = chunks.drop_last();
        lemma_download_within_limit(rest);
        let before = download_run(fresh_download(), rest);
        let k = choose|k: int| 0 <= k <= rest.len() && before.received == data_of(#[trigger] rest.take(k));
        assert(rest.take(k) =~= chunks.take(k));
        if before.reading {
            assert(before.received == data_of(rest)) by {
                lemma_reading_took_all(rest);
            }
            assert(chunks.take(chunks.len() as int) =~= chunks);
            assert(chunks.drop_last() =~= rest);
        }
    }
}

/// While a download reads on, it holds the data of every chunk that came.
proof fn lemma_reading_took_all(chunks: Seq<Chunk>)
    ensures
        download_run(fresh_download(), chunks).reading ==> download_run(
            fresh_download(),
            chunks,
        ).received == data_of(chunks),
    decreases chunks.len(),
{
    if chunks.len() > 0 {
        lemma_reading_took_all(chunks.drop_last());
    }
}

/// A file whose data all arrives within the largest accepted size is read
/// whole, and reading goes on until the end of the body.
pub proof fn lemma_whole_file_read(chunks: Seq<Chunk>)
    requires
        all_data(chunks),
        data_of(chunks).len() <= MAX_FILE_SIZE,
    ensures
        download_run(fresh_download(), chunks) == (DownloadView {
            received: data_of(chunks),
            reading: true,
        }),
    decreases chunks.len(),
{
    if chunks.len() > 0 {
        let rest = chunks.drop_last();
        assert(all_data(rest)) by {
            assert forall|i: int| 0 <= i < rest.len() implies #[trigger] rest[i] is Data by {
                assert(rest[i] == chunks[i]);
            }
        }
        assert(chunks[chunks.len() - 1] is Data);
        lemma_whole_file_read(rest);
    }
}

impl Download {
    /// Starts reading a remote file whose content-length header is `header`:
    /// a file that announces more than the largest accepted size is refused
    /// before any byte is read.
    pub fn start(header: Option<&str>) -> (res: Result<Download, ErrorReply>)
        ensures
            res is Err <==> announced_size(opt_str_chars(header)) > MAX_FILE_SIZE,
            res matches Err(reply) ==> reply@ == own_reply(
                STATUS_UNPROCESSABLE_ENTITY,
                "File too big"@,
            ),
            res matches Ok(d) ==> d@ == (DownloadView { received: Seq::empty(), reading: true }),
    {
        let len = declared_length(header);
        if len > MAX_FILE_SIZE {
            return Err(file_too_big());
        }
        Ok(Download { bytes: Vec::with_capacity(len), reading: true })
    }

    /// Whether the body should be read on.
    pub fn is_reading(&self) -> (reading: bool)
        ensures
            reading == self@.reading,
    {
        self.reading
    }

    /// Takes the next chunk of the body.
    pub fn receive(&mut self, chunk: Chunk)
        ensures
            final(self)@ == absorb(old(self)@, chunk),
    {
        if !self.reading {
            return;
        }
        match chunk {
            Chunk::Data(data) => {
                let mut data = data;
                self.bytes.append(&mut data);
                if self.bytes.len() > MAX_FILE_SIZE {
                    self.reading = false;
                }
            },
            _ => {
                self.reading = false;
            },
        }
    }

    /// The body that was read, or the reply to one that is too large.
    pub fn finish(self) -> (res: Result<Vec<u8>, ErrorReply>)
        ensures
            res is Ok <==> self@.received.len() <= MAX_FILE_SIZE,
            res matches Ok(bytes) ==> bytes@ == self@.received,
            res matches Err(reply) ==> reply@ == own_reply(
                STATUS_UNPROCESSABLE_ENTITY,
                "File too big"@,
            ),
    {
        if self.bytes.len() > MAX_FILE_SIZE {
            Err(file_too_big())
        } else {
            Ok(self.bytes)
        }
    }
}

} // verus!
