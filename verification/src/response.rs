//! The request that carries a payload, and what becomes of the answer.

use crate::payload::SendType;
use crate::progress::{completed, completion_event, ProgressPayload};
use vstd::prelude::*;
use vstd::string::StringExecFns;

verus! {

/// The answer to an upload.
#[derive(Clone, Debug, PartialEq, Eq)]
pub enum UploadResponse {
    /// The upload is stored; the message is the reference to it.
    Success { message: String },
    /// The upload failed; the message says why.
    Error { message: String },
}

impl UploadResponse {
    /// Whether the answer reports success.
    pub open spec fn is_ok(&self) -> bool {
        self is Success
    }

    /// The message of the answer.
    pub open spec fn text(&self) -> Seq<char> {
        match self {
            UploadResponse::Success { message } => message@,
            UploadResponse::Error { message } => message@,
        }
    }
}

/// One upload, ready for the transport: a POST to `url` with the headers
/// `format` and `share-token` and with `body` as its body.
#[derive(Clone, Debug, PartialEq, Eq)]
pub struct UploadRequest {
    pub url: String,
    pub format: String,
    pub share_token: String,
    pub body: Vec<u8>,
}

/// The request that uploads `payload` to the server at `server_url`. The
/// address is taken as it is given.
pub fn upload_request(server_url: &str, token: String, payload: &SendType) -> (r: UploadRequest)
    ensures
        r.url@ == server_url@ + "/upload"@,
        r.format@ == payload.format(),
        r.share_token == token,
        r.body@ == payload.bytes(),
{
    UploadRequest {
        url: server_url.to_owned().concat("/upload"),
        format: payload.get_type(),
        share_token: token,
        body: payload.get_bytes(),
    }
}

/// The answer that stands for a failure of the transport.
pub open spec fn failure(description: String) -> UploadResponse {
    UploadResponse::Error { message: description }
}

/// The answer that stands for a failure of the transport: callers get the
/// one shape of answer, whoever failed.
pub fn transport_failure(description: String) -> (r: UploadResponse)
    ensures
        r == failure(description),
{
    UploadResponse::Error { message: description }
}

/// What is to be done with an answer.
#[derive(Clone, Debug, PartialEq, Eq)]
pub enum Delivery {
    /// The reference is to replace what the clipboard holds.
    Copy { text: String },
    /// The failure is to be shown; the clipboard stays as it is.
    Refuse { message: String },
}

impl Delivery {
    /// What this writes to the clipboard, if anything.
    pub open spec fn clipboard(&self) -> Option<Seq<char>> {
        match self {
            Delivery::Copy { text } => Some(text@),
            Delivery::Refuse { .. } => None,
        }
    }
}

/// What is done with an answer: the reference of a success goes to the
/// clipboard, the message of a failure to the caller.
pub open spec fn delivered(response: UploadResponse) -> Delivery {
    match response {
        UploadResponse::Success { message } => Delivery::Copy { text: message },
        UploadResponse::Error { message } => Delivery::Refuse { message },
    }
}

/// Decides what is done with an answer.
pub fn deliver(response: UploadResponse) -> (r: Delivery)
    ensures
        r == delivered(response),
{
    match response {
        UploadResponse::Success { message } => Delivery::Copy { text: message },
        UploadResponse::Error { message } => Delivery::Refuse { message },
    }
}

/// The end of an upload that went well.
#[derive(Clone, Debug, PartialEq, Eq)]
pub struct Closing {
    /// The last report: all bytes are out and shown as such.
    pub event: ProgressPayload,
    /// The title of the notice to the user.
    pub title: String,
    /// The text of the notice to the user.
    pub body: String,
}

/// The reference could not be written to the clipboard.
#[derive(Clone, Copy, Debug, PartialEq, Eq, Structural)]
pub struct ClipboardWriteError;

impl ClipboardWriteError {
    /// The error in words.
    pub fn message(&self) -> (r: String)
        ensures
            r@ == "The upload is stored, but its reference could not be copied"@,
    {
        "The upload is stored, but its reference could not be copied".to_owned()
    }
}

/// Closes an upload once the reference has been handed to the clipboard.
/// Only a write that went through makes the upload a success.
pub fn close(written: bool, file_size: u64) -> (r: Result<Closing, ClipboardWriteError>)
    ensures
        match r {
            Ok(c) => written && c.event == completed(file_size) && c.title@ == "Done"@ && c.body@
                == "The file has been upload"@,
            Err(_) => !written,
        },
{
    if written {
        Ok(
            Closing {
                event: completion_event(file_size),
                title: "Done".to_owned(),
                body: "The file has been upload".to_owned(),
            },
        )
    } else {
        Err(ClipboardWriteError)
    }
}

/// A failure of the transport reaches the caller with its description, and
/// leaves the clipboard as it is.
pub proof fn lemma_failure_keeps_clipboard(description: String)
    ensures
        delivered(failure(description)) == (Delivery::Refuse { message: description }),
        delivered(failure(description)).clipboard() is None,
{
}

/// The clipboard is written exactly when the answer is a success, and then
/// with the reference that the answer holds.
pub proof fn lemma_clipboard_follows_answer(response: UploadResponse)
    ensures
        delivered(response).clipboard() == if response.is_ok() {
            Some(response.text())
        } else {
            None
        },
{
}

} // verus!
