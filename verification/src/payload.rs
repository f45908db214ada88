//! What an upload sends: text, or the bytes of a file with a hint at their
//! format.

use crate::classify::PasteType;
use crate::file_list::{first_entry, first_file_path};
use crate::text::{extension_of, lossy_text, path_extension, utf8_lossy, utf8_text};
use vstd::prelude::*;
use vstd::string::StrSliceExecFns;
use vstd::utf8::{decode_utf8, decode_utf8_encode_utf8, encode_utf8, valid_utf8};

verus! {

/// The content of one upload.
#[derive(Clone, Debug, PartialEq, Eq)]
pub enum SendType {
    /// Text from the clipboard.
    Text(String),
    /// The bytes of a file or of an image, and what they are to be read as.
    File { data: Vec<u8>, format: String },
}

/// Why no payload could be built.
#[derive(Clone, Copy, Debug, PartialEq, Eq, Structural)]
pub enum PayloadError {
    /// The clipboard could not be read.
    ClipboardRead,
    /// The file that the clipboard names could not be read.
    FileRead,
    /// The list of files on the clipboard is not UTF-8.
    Encoding,
    /// The list of files on the clipboard names no file.
    NoFile,
}

/// How far building a payload has come.
#[derive(Clone, Debug, PartialEq, Eq)]
pub enum Step {
    /// The payload is complete.
    Ready(SendType),
    /// The file at `path` has to be read; its bytes go out under `format`.
    ReadFile { path: String, format: String },
    /// There will be no payload.
    Failed(PayloadError),
}

/// The format hint for a file with this extension: the extension itself,
/// and the empty string where the path has none.
pub open spec fn format_tag(extension: Option<Seq<char>>) -> Seq<char> {
    match extension {
        Some(e) => e,
        None => Seq::<char>::empty(),
    }
}

impl SendType {
    /// The hint that tells the server how to read the bytes.
    pub open spec fn format(&self) -> Seq<char> {
        match self {
            SendType::Text(_) => "txt"@,
            SendType::File { format, .. } => format@,
        }
    }

    /// The bytes that go over the wire.
    pub open spec fn bytes(&self) -> Seq<u8> {
        match self {
            SendType::Text(text) => encode_utf8(text@),
            SendType::File { data, .. } => data@,
        }
    }

    /// The format hint: `txt` for text, and for a file the one it carries.
    pub fn get_type(&self) -> (r: String)
        ensures
            r@ == self.format(),
    {
        match self {
            SendType::Text(_) => "txt".to_owned(),
            SendType::File { format, .. } => format.clone(),
        }
    }

    /// The bytes to send: the UTF-8 of a text, the content of a file.
    pub fn get_bytes(&self) -> (r: Vec<u8>)
        ensures
            r@ == self.bytes(),
    {
        match self {
            SendType::Text(text) => text.as_str().as_bytes_vec(),
            SendType::File { data, .. } => data.clone(),
        }
    }
}

impl PayloadError {
    /// The error in words.
    pub fn message(&self) -> (r: String)
        ensures
            r@ == match *self {
                PayloadError::ClipboardRead => "Cannot read the clipboard"@,
                PayloadError::FileRead => "Cannot read the file"@,
                PayloadError::Encoding => "The list of files is not valid UTF-8"@,
                PayloadError::NoFile => "The clipboard names no file"@,
            },
    {
        match self {
            PayloadError::ClipboardRead => "Cannot read the clipboard".to_owned(),
            PayloadError::FileRead => "Cannot read the file".to_owned(),
            PayloadError::Encoding => "The list of files is not valid UTF-8".to_owned(),
            PayloadError::NoFile => "The clipboard names no file".to_owned(),
        }
    }
}

/// The format hint for a file whose path has this extension, or none.
pub fn format_for(extension: Option<String>) -> (r: String)
    ensures
        r@ == format_tag(extension.deep_view()),
{
    match extension {
        Some(e) => e,
        None => String::new(),
    }
}

/// The format hint for the file at `path`.
pub fn format_of(path: &str) -> (r: String)
    ensures
        r@ == format_tag(path_extension(path@)),
{
    format_for(extension_of(path))
}

/// A screenshot: the bytes are taken for a finished PNG image.
pub fn screenshot(data: Vec<u8>) -> (r: SendType)
    ensures
        r matches SendType::File { data: d, format } && d == data && format@ == "png"@,
{
    SendType::File { data, format: "png".to_owned() }
}

/// The step that follows reading a list of files: the first file of the
/// list is to be read, if the list names one.
pub fn file_step(list: &str) -> (r: Step)
    ensures
        match first_entry(list@) {
            Some(p) => r matches Step::ReadFile { path, format } && path@ == p && format@
                == format_tag(path_extension(p)),
            None => r == Step::Failed(PayloadError::NoFile),
        },
{
    match first_file_path(list) {
        Some(path) => {
            let format = format_of(path.as_str());
            Step::ReadFile { path, format }
        },
        None => Step::Failed(PayloadError::NoFile),
    }
}

/// The first step of building a payload, from the kind of content and what
/// reading the clipboard gave (`None`: it could not be read). Text is taken
/// as it is, bytes that are not UTF-8 read leniently; a screenshot is taken
/// as it is; a list of files has to be UTF-8 and leads to reading its first
/// file.
pub fn from_clipboard(kind: PasteType, content: Option<Vec<u8>>) -> (r: Step)
    ensures
        content is None ==> r == Step::Failed(PayloadError::ClipboardRead),
        content matches Some(b) ==> match kind {
            PasteType::Text => r matches Step::Ready(SendType::Text(t)) && t@ == utf8_lossy(b@)
                && (valid_utf8(b@) ==> t@ == decode_utf8(b@) && r->Ready_0.bytes() == b@),
            PasteType::Screenshot => r matches Step::Ready(SendType::File { data, format })
                && data@ == b@ && format@ == "png"@,
            PasteType::File => if valid_utf8(b@) {
                match first_entry(decode_utf8(b@)) {
                    Some(p) => r matches Step::ReadFile { path, format } && path@ == p && format@
                        == format_tag(path_extension(p)),
                    None => r == Step::Failed(PayloadError::NoFile),
                }
            } else {
                r == Step::Failed(PayloadError::Encoding)
            },
        },
{
    match content {
        None => Step::Failed(PayloadError::ClipboardRead),
        Some(bytes) => match kind {
            PasteType::Text => {
                proof {
                    if valid_utf8(bytes@) {
                        decode_utf8_encode_utf8(bytes@);
                    }
                }
                Step::Ready(SendType::Text(lossy_text(bytes.as_slice())))
            },
            PasteType::Screenshot => Step::Ready(screenshot(bytes)),
            PasteType::File => match utf8_text(bytes.as_slice()) {
                Some(list) => file_step(list.as_str()),
                None => Step::Failed(PayloadError::Encoding),
            },
        },
    }
}

/// The last step for a file, from what reading it gave (`None`: it could not
/// be read).
pub fn from_file(format: String, content: Option<Vec<u8>>) -> (r: Result<SendType, PayloadError>)
    ensures
        match content {
            Some(data) => r == Ok::<SendType, PayloadError>(SendType::File { data, format }),
            None => r == Err::<SendType, PayloadError>(PayloadError::FileRead),
        },
{
    match content {
        Some(data) => Ok(SendType::File { data, format }),
        None => Err(PayloadError::FileRead),
    }
}

} // verus!
