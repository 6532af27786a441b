//! Clipboard abstraction layer.
//!
//! The content that can live on a clipboard, the backend trait through which
//! a clipboard is read and written, an in-memory backend, and the parsing of
//! the backend specification string.
use vstd::prelude::*;
use vstd::string::*;
use vstd::utf8::encode_utf8;

use sha2::Digest;

verus! {

/// The content that can live on a clipboard.
#[derive(Debug, PartialEq, Eq)]
pub enum ClipContent {
    /// UTF-8 text content.
    Text { text: String },
}

impl View for ClipContent {
    type V = Seq<char>;

    /// The text held by the content.
    open spec fn view(&self) -> Seq<char> {
        match self {
            ClipContent::Text { text } => text@,
        }
    }
}

/// The text of an optional content.
pub open spec fn clip_text(c: Option<ClipContent>) -> Option<Seq<char>> {
    match c {
        Some(content) => Some(content@),
        None => None,
    }
}

/// The SHA-256 digest of a byte sequence, as the `sha2` crate computes it.
pub uninterp spec fn sha256_of(data: Seq<u8>) -> Seq<u8>;

/// Calls `sha2::Sha256::digest` on the bytes and copies the 32-byte digest
/// into an array. The digest is named by `sha256_of`.
#[verifier::external_body]
fn sha256_digest(data: &[u8]) -> (r: [u8; 32])
    ensures
        r@ == sha256_of(data@),
{
    let digest = sha2::Sha256::digest(data);
    let mut out = [0u8; 32];
    out.copy_from_slice(&digest);
    out
}

impl ClipContent {
    /// The UTF-8 bytes of the content.
    pub open spec fn bytes(self) -> Seq<u8> {
        match self {
            ClipContent::Text { text } => encode_utf8(text@),
        }
    }

    /// The size of the content in bytes, as the `usize` that `str::len`
    /// reports for it.
    pub open spec fn byte_len(self) -> usize {
        self.bytes().len() as usize
    }

    /// The content hash: the SHA-256 digest of the content's bytes.
    pub open spec fn hash_view(self) -> Seq<u8> {
        sha256_of(self.bytes())
    }

    /// Size of the content in bytes (its UTF-8 length for text).
    pub fn byte_size(&self) -> (r: usize)
        ensures
            r == self.byte_len(),
    {
        match self {
            ClipContent::Text { text } => text.as_str().len(),
        }
    }

    /// SHA-256 digest of the content's bytes.
    pub fn content_hash(&self) -> (r: [u8; 32])
        ensures
            r@ == self.hash_view(),
    {
        match self {
            ClipContent::Text { text } => sha256_digest(text.as_str().as_bytes()),
        }
    }

    /// Whether two contents hold the same text.
    pub fn same_as(&self, other: &ClipContent) -> (r: bool)
        ensures
            r == (self@ == other@),
    {
        match (self, other) {
            (ClipContent::Text { text: a }, ClipContent::Text { text: b }) => a.eq(b),
        }
    }
}

impl Clone for ClipContent {
    fn clone(&self) -> (r: Self)
        ensures
            r == *self,
    {
        match self {
            ClipContent::Text { text } => ClipContent::Text { text: text.clone() },
        }
    }
}

/// Errors that can occur when reading or writing the clipboard.
#[derive(Debug)]
pub enum ClipboardError {
    /// The clipboard could not be accessed, with a human-readable reason.
    Access(String),
}

/// An abstraction over a clipboard (OS clipboard, in-memory buffer, etc.).
pub trait ClipboardBackend {
    /// Reading the clipboard, in this state, may give `text` (`None`: empty
    /// or non-text). A backend that says nothing more may read as anything.
    open spec fn reads(&self, text: Option<Seq<char>>) -> bool {
        true
    }

    /// Reading the clipboard, in this state, may fail with `error`. A
    /// backend that says nothing more may fail with any error.
    open spec fn fails_with(&self, error: ClipboardError) -> bool {
        true
    }

    /// Read the current contents of the clipboard: `Ok(Some(content))` when
    /// it holds text, `Ok(None)` when it is empty or holds non-text data,
    /// `Err` when reading failed. Reading does not change what the clipboard
    /// may read as.
    fn get(&mut self) -> (r: Result<Option<ClipContent>, ClipboardError>)
        ensures
            match r {
                Ok(c) => old(self).reads(clip_text(c)),
                Err(e) => old(self).fails_with(e),
            },
            forall|t: Option<Seq<char>>| #[trigger] final(self).reads(t) == old(self).reads(t),
            forall|e: ClipboardError| #[trigger] final(self).fails_with(e) == old(self).fails_with(e),
    ;

    /// Set the contents of the clipboard.
    fn set(&mut self, content: &ClipContent) -> Result<(), ClipboardError>;
}

/// An in-memory clipboard, which simply stores the content.
#[derive(Debug, Default, Clone)]
pub struct MemoryClipboard {
    content: Option<ClipContent>,
}

impl View for MemoryClipboard {
    type V = Option<Seq<char>>;

    /// The text held by the clipboard, if any.
    closed spec fn view(&self) -> Option<Seq<char>> {
        clip_text(self.content)
    }
}

impl MemoryClipboard {
    /// Create a new, empty in-memory clipboard.
    pub fn new() -> (r: MemoryClipboard)
        ensures
            r@ is None,
    {
        MemoryClipboard { content: None }
    }
}

impl ClipboardBackend for MemoryClipboard {
    /// It reads as exactly the stored text.
    open spec fn reads(&self, text: Option<Seq<char>>) -> bool {
        text == self@
    }

    /// It never fails.
    open spec fn fails_with(&self, error: ClipboardError) -> bool {
        false
    }

    /// Gives back a copy of the stored content; never fails.
    fn get(&mut self) -> (r: Result<Option<ClipContent>, ClipboardError>)
        ensures
            final(self)@ == old(self)@,
            r matches Ok(c) && clip_text(c) == old(self)@,
    {
        let r = match &self.content {
            Some(c) => Some(c.clone()),
            None => None,
        };
        Ok(r)
    }

    /// Stores a copy of the content; never fails.
    fn set(&mut self, content: &ClipContent) -> (r: Result<(), ClipboardError>)
        ensures
            final(self)@ == Some(content@),
            r is Ok,
    {
        self.content = Some(content.clone());
        Ok(())
    }
}

/// A later read of an in-memory clipboard gives back what the last write
/// stored: the state that `set` leaves is the one that `get` reports.
pub proof fn lemma_memory_clipboard_read_after_write(
    written: ClipContent,
    after_set: MemoryClipboard,
    read: Option<ClipContent>,
)
    requires
        after_set@ == Some(written@),
        clip_text(read) == after_set@,
    ensures
        read matches Some(c) && c@ == written@,
{
}

/// The clipboard backend named by a specification string.
#[derive(Debug, PartialEq, Eq)]
pub enum BackendSpec {
    /// The real operating-system clipboard.
    System,
    /// An in-memory clipboard, for testing.
    Memory,
    /// A file acting as the clipboard, at the given path.
    File { path: String },
}

/// The text of the error for a specification that names no backend.
pub open spec fn unknown_backend_message(spec: Seq<char>) -> Seq<char> {
    "unknown clipboard backend: "@ + spec + " (expected 'system', 'memory', or 'file:<path>')"@
}

/// Whether two strings hold the same characters.
fn str_equals(a: &str, b: &str) -> (r: bool)
    ensures
        r == (a@ == b@),
{
    let n = a.unicode_len();
    let m = b.unicode_len();
    if n != m {
        return false;
    }
    let mut i: usize = 0;
    while i < n
        invariant
            n == a@.len(),
            m == b@.len(),
            n == m,
            i <= n,
            forall|j: int| 0 <= j < i ==> a@[j] == b@[j],
        decreases n - i,
    {
        if a.get_char(i) != b.get_char(i) {
            return false;
        }
        i = i + 1;
    }
    assert(a@ =~= b@);
    true
}

/// Choose a clipboard backend from a specification string.
///
/// - `None` or `"system"`: the OS clipboard.
/// - `"memory"`: an in-memory clipboard.
/// - `"file:<path>"`: a file-backed clipboard at `<path>`.
/// - anything else: an `Access` error that names the specification.
pub fn create_backend_from_spec(spec: Option<&str>) -> (r: Result<BackendSpec, ClipboardError>)
    ensures
        match spec {
            None => r == Ok::<BackendSpec, ClipboardError>(BackendSpec::System),
            Some(s) => if s@ == "system"@ {
                r == Ok::<BackendSpec, ClipboardError>(BackendSpec::System)
            } else if s@ == "memory"@ {
                r == Ok::<BackendSpec, ClipboardError>(BackendSpec::Memory)
            } else if s@.len() >= 5 && s@.subrange(0, 5) == "file:"@ {
                r matches Ok(BackendSpec::File { path }) && path@ == s@.subrange(5, s@.len() as int)
            } else {
                r matches Err(ClipboardError::Access(msg)) && msg@ == unknown_backend_message(s@)
            },
        },
{
    match spec {
        None => Ok(BackendSpec::System),
        Some(s) => {
            if str_equals(s, "system") {
                Ok(BackendSpec::System)
            } else if str_equals(s, "memory") {
                Ok(BackendSpec::Memory)
            } else {
                let n = s.unicode_len();
                if n >= 5 && str_equals(s.substring_char(0, 5), "file:") {
                    let path = s.substring_char(5, n).to_owned();
                    Ok(BackendSpec::File { path })
                } else {
                    let mut msg = "unknown clipboard backend: ".to_owned();
                    msg.append(s);
                    msg.append(" (expected 'system', 'memory', or 'file:<path>')");
                    Err(ClipboardError::Access(msg))
                }
            }
        },
    }
}

} // verus!
