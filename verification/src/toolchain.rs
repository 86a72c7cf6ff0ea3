//! The outside tools of a conversion.
//!
//! A conversion needs two tools that live outside this library: the 6502
//! assembler and the LZSA1 compressor. The library never runs them. It is
//! handed the results of the tool runs made so far, in order, and works with
//! them as far as they reach; where it needs one more, it records the request
//! and gives up. The caller runs the tool on that request, adds the result to
//! the list, and starts the conversion again.

use vstd::prelude::*;
use vstd::string::*;
use crate::bytes::copy_range;

verus! {

/// What an outside tool is asked to do.
#[derive(Debug)]
pub enum ToolRequest {
    /// Assemble this source text to raw bytes.
    Assemble(String),
    /// Assemble this source text to raw bytes, with these files in the
    /// working directory for the source to refer to.
    AssembleWithFiles(String, Vec<DataFile>),
    /// Compress these bytes: LZSA1, raw forward stream, best ratio, shortest
    /// match of 3.
    Compress(Vec<u8>),
}

/// A file for the working directory.
#[derive(Debug)]
pub struct DataFile {
    /// Path of the file.
    pub name: String,
    /// What the file holds.
    pub content: Vec<u8>,
}

/// A request as a spec value; a file as its path and its content.
pub enum RequestView {
    Assemble(Seq<char>),
    AssembleWithFiles(Seq<char>, Seq<(Seq<char>, Seq<u8>)>),
    Compress(Seq<u8>),
}

/// The views of a list of files.
pub open spec fn file_list_view(files: Seq<DataFile>) -> Seq<(Seq<char>, Seq<u8>)> {
    Seq::new(files.len(), |i: int| (files[i].name@, files[i].content@))
}

impl View for ToolRequest {
    type V = RequestView;

    open spec fn view(&self) -> RequestView {
        match self {
            ToolRequest::Assemble(source) => RequestView::Assemble(source@),
            ToolRequest::AssembleWithFiles(source, files) => RequestView::AssembleWithFiles(
                source@,
                file_list_view(files@),
            ),
            ToolRequest::Compress(data) => RequestView::Compress(data@),
        }
    }
}

/// The result of one tool run as a spec value: the bytes, or the tool's
/// message.
pub type ReplyView = Result<Seq<u8>, Seq<char>>;

/// The view of a result.
pub open spec fn reply_view(reply: Result<Vec<u8>, String>) -> ReplyView {
    match reply {
        Ok(bytes) => Ok(bytes@),
        Err(message) => Err(message@),
    }
}

/// The message of a request that no result was there for.
pub open spec fn pending_message() -> Seq<char> {
    "Waiting for an outside tool"@
}

/// The results of the tool runs made so far, how many of them are used up,
/// and the request that no result was there for, if there was one; as a spec
/// value.
pub struct ToolState {
    pub replies: Seq<ReplyView>,
    pub cursor: nat,
    pub waiting: Option<RequestView>,
}

/// What a request returns in state `st`, and the state after it.
///
/// Where a request is waiting already, this one fails and changes nothing.
/// Where the next result is there, it is used up and returned. Where none is
/// left, the request fails and is recorded as waiting.
pub open spec fn spec_run(st: ToolState, request: RequestView) -> (ReplyView, ToolState) {
    if st.waiting is Some {
        (Err(pending_message()), st)
    } else if st.cursor < st.replies.len() {
        (st.replies[st.cursor as int], ToolState { cursor: st.cursor + 1, ..st })
    } else {
        (Err(pending_message()), ToolState { waiting: Some(request), ..st })
    }
}

/// What a request to assemble `source` returns, and the state after it.
pub open spec fn spec_assemble(st: ToolState, source: Seq<char>) -> (ReplyView, ToolState) {
    spec_run(st, RequestView::Assemble(source))
}

/// What a request to compress `data` returns, and the state after it.
pub open spec fn spec_compress(st: ToolState, data: Seq<u8>) -> (ReplyView, ToolState) {
    spec_run(st, RequestView::Compress(data))
}

/// The results of the tool runs made so far, and how far they are used up.
pub struct Toolchain {
    replies: Vec<Result<Vec<u8>, String>>,
    next: usize,
    pending: Option<ToolRequest>,
}

impl View for Toolchain {
    type V = ToolState;

    closed spec fn view(&self) -> ToolState {
        ToolState {
            replies: Seq::new(self.replies@.len(), |i: int| reply_view(self.replies@[i])),
            cursor: self.next as nat,
            waiting: match self.pending {
                Some(request) => Some(request@),
                None => None,
            },
        }
    }
}

impl Toolchain {
    #[verifier::type_invariant]
    spec fn inv(&self) -> bool {
        self.next <= self.replies@.len()
    }

    /// A toolchain with the results of the runs made so far.
    pub fn new(replies: Vec<Result<Vec<u8>, String>>) -> (r: Self)
        ensures
            r@ == (ToolState {
                replies: Seq::new(replies@.len(), |i: int| reply_view(replies@[i])),
                cursor: 0,
                waiting: None,
            }),
    {
        Toolchain { replies, next: 0, pending: None }
    }

    /// The result of running a tool on `request`.
    pub fn run(&mut self, request: ToolRequest) -> (r: Result<Vec<u8>, String>)
        ensures
            (reply_view(r), final(self)@) == spec_run(old(self)@, request@),
    {
        proof {
            use_type_invariant(&*self);
        }
        if self.pending.is_some() {
            return Err(String::from_str("Waiting for an outside tool"));
        }
        if self.next < self.replies.len() {
            let reply = match &self.replies[self.next] {
                Ok(bytes) => {
                    let copy = copy_range(bytes.as_slice(), 0, bytes.len());
                    assert(copy@ =~= bytes@);
                    Ok(copy)
                },
                Err(message) => Err(message.clone()),
            };
            self.next = self.next + 1;
            reply
        } else {
            self.pending = Some(request);
            Err(String::from_str("Waiting for an outside tool"))
        }
    }

    /// Whether a request is waiting for its result.
    pub fn is_waiting(&self) -> (r: bool)
        ensures
            r == self@.waiting is Some,
    {
        self.pending.is_some()
    }

    /// The request that is waiting for its result, if there is one.
    pub fn into_pending(self) -> (r: Option<ToolRequest>)
        ensures
            match r {
                Some(request) => self@.waiting == Some(request@),
                None => self@.waiting is None,
            },
    {
        self.pending
    }
}

} // verus!
