//! uclip — a cross-platform universal clipboard.
//!
//! The domain types, the sans-I/O sync engine and the clipboard abstraction
//! of the uclip daemon and CLI, with their contracts.
pub mod clipboard;
pub mod engine;
pub mod proto;
pub mod suppress;
pub mod watcher;

pub use clipboard::{
    create_backend_from_spec, BackendSpec, ClipContent, ClipboardBackend, ClipboardError,
    MemoryClipboard,
};
pub use engine::{Action, Engine, LamportClock, UpdateId};
pub use proto::{Capability, GoodbyeReason, Message, PROTOCOL_VERSION};
pub use watcher::{ClipEvent, PollingWatcher};


use vstd::prelude::*;

verus! {

/// The hyphenated lowercase text of a 128-bit identifier: 32 hex digits,
/// most significant first, split 8-4-4-4-12 by hyphens.
pub open spec fn hex_char(n: int) -> char {
    if n < 10 {
        ('0' as int + n) as char
    } else {
        ('a' as int + (n - 10)) as char
    }
}

/// The `n` lowest hex digits of `v`, most significant first.
pub open spec fn hex_digits(v: nat, n: nat) -> Seq<char>
    decreases n,
{
    if n == 0 {
        Seq::empty()
    } else {
        hex_digits(v / 16, (n - 1) as nat).push(hex_char((v % 16) as int))
    }
}

/// The canonical text form of a UUID whose big-endian value is `v`.
pub open spec fn uuid_hyphenated(v: u128) -> Seq<char> {
    let d = hex_digits(v as nat, 32);
    d.subrange(0, 8) + seq!['-'] + d.subrange(8, 12) + seq!['-'] + d.subrange(12, 16) + seq![
        '-',
    ] + d.subrange(16, 20) + seq!['-'] + d.subrange(20, 32)
}

/// What `uuid::Uuid::parse_str` yields on a text: the big-endian value of the
/// parsed UUID, or nothing when the text is refused.
pub uninterp spec fn uuid_parsed(text: Seq<char>) -> Option<u128>;

/// Declares `uuid::Error`, the error of a refused UUID text, as an opaque type.
#[verifier::external_type_specification]
#[verifier::external_body]
pub struct ExUuidError(uuid::Error);

/// Calls `uuid::Uuid::new_v4` and returns its big-endian value.
/// The value is random; what holds of every outcome is that the version
/// nibble is 4 and the variant bits are `10`, as the crate's source sets them.
#[verifier::external_body]
pub(crate) fn random_uuid() -> (r: u128)
    ensures
        (r >> 76u128) & 0xfu128 == 4,
        (r >> 62u128) & 0x3u128 == 2,
{
    uuid::Uuid::new_v4().as_u128()
}

/// Calls `uuid::Uuid::from_u128` and formats the UUID with `Display`, which
/// writes the hyphenated lowercase form of its big-endian value; `parse_str`
/// reads that form back to the same value.
#[verifier::external_body]
fn uuid_text(v: u128) -> (r: String)
    ensures
        r@ == uuid_hyphenated(v),
        uuid_parsed(r@) == Some(v),
{
    uuid::Uuid::from_u128(v).to_string()
}

/// Calls `uuid::Uuid::parse_str`. The result is named by `uuid_parsed`: which
/// texts the crate accepts (hyphenated, braced, URN and simple forms, in either
/// case) is left to the name.
#[verifier::external_body]
fn uuid_parse(s: &str) -> (r: Result<u128, uuid::Error>)
    ensures
        r is Ok == uuid_parsed(s@) is Some,
        r is Ok ==> uuid_parsed(s@) == Some(r->Ok_0),
{
    match uuid::Uuid::parse_str(s) {
        Ok(u) => Ok(u.as_u128()),
        Err(e) => Err(e),
    }
}

/// A unique identifier for a device running uclip, held as the big-endian
/// value of its UUID (so that the order of values is the order of UUIDs).
#[derive(Debug, Clone, Copy, PartialEq, Eq, Structural, Hash, PartialOrd, Ord)]
pub struct DeviceId(u128);

impl View for DeviceId {
    type V = u128;

    closed spec fn view(&self) -> u128 {
        self.0
    }
}

/// Two device ids are equal exactly when their values are.
pub proof fn lemma_device_id_view_injective(a: DeviceId, b: DeviceId)
    ensures
        (a@ == b@) == (a == b),
{
}

impl DeviceId {
    /// Generate a new random device ID (a version-4 UUID).
    pub fn new() -> (r: DeviceId)
        ensures
            (r@ >> 76u128) & 0xfu128 == 4,
            (r@ >> 62u128) & 0x3u128 == 2,
    {
        DeviceId(random_uuid())
    }

    /// The device id whose UUID has the big-endian value `v`.
    pub fn from_u128(v: u128) -> (r: DeviceId)
        ensures
            r@ == v,
    {
        DeviceId(v)
    }

    /// The big-endian value of this device's UUID.
    pub fn as_u128(&self) -> (r: u128)
        ensures
            r == self@,
    {
        self.0
    }

    /// `self` orders no later than `other` (the order of their UUIDs).
    pub fn is_at_most(&self, other: &DeviceId) -> (r: bool)
        ensures
            r == (self@ <= other@),
    {
        self.0 <= other.0
    }

    /// The hyphenated lowercase UUID text of this id; it parses back to this id.
    pub fn to_string(&self) -> (r: String)
        ensures
            r@ == uuid_hyphenated(self@),
            uuid_parsed(r@) == Some(self@),
    {
        uuid_text(self.0)
    }

    /// Parse a UUID text into a device id. A text that the UUID parser reads
    /// as the value of `id` (such as `id.to_string()`) gives back `id` itself.
    pub fn parse(s: &str) -> (r: Result<DeviceId, uuid::Error>)
        ensures
            match r {
                Ok(id) => uuid_parsed(s@) == Some(id@),
                Err(_) => uuid_parsed(s@) is None,
            },
            forall|id: DeviceId| uuid_parsed(s@) == Some(id@) ==> r == Ok::<DeviceId, uuid::Error>(id),
    {
        match uuid_parse(s) {
            Ok(v) => {
                let r = DeviceId(v);
                proof {
                    assert forall|id: DeviceId| uuid_parsed(s@) == Some(id@) implies r == id by {
                        lemma_device_id_view_injective(r, id);
                    }
                }
                Ok(r)
            },
            Err(e) => Err(e),
        }
    }
}

impl Default for DeviceId {
    /// A new random device ID.
    fn default() -> (r: DeviceId)
        ensures
            (r@ >> 76u128) & 0xfu128 == 4,
            (r@ >> 62u128) & 0x3u128 == 2,
    {
        DeviceId::new()
    }
}

impl core::str::FromStr for DeviceId {
    type Err = uuid::Error;

    /// Parse a UUID text into a device id, as `DeviceId::parse` does.
    fn from_str(s: &str) -> (r: Result<DeviceId, uuid::Error>)
        ensures
            match r {
                Ok(id) => uuid_parsed(s@) == Some(id@),
                Err(_) => uuid_parsed(s@) is None,
            },
            forall|id: DeviceId| uuid_parsed(s@) == Some(id@) ==> r == Ok::<DeviceId, uuid::Error>(id),
    {
        DeviceId::parse(s)
    }
}

/// The text starts with a Windows verbatim prefix, `\\?\`.
pub open spec fn has_verbatim_prefix(text: Seq<char>) -> bool {
    text.len() >= 4 && text[0] == '\\' && text[1] == '\\' && text[2] == '?' && text[3] == '\\'
}

/// Whether `joined` is the file `name` inside the directory `base`, as a
/// relative file name is joined onto a directory on any platform:
/// - under a verbatim base, the base is normalized (`.` and `..` go) and
///   `joined` ends with `name`;
/// - `name` itself when `base` is empty;
/// - `base` and `name` with nothing between when `base` ends with `/`;
/// - when `base` ends with `\` or is a bare drive such as `C:`, nothing
///   between (Windows) or a separator between (elsewhere);
/// - otherwise `base` and `name` with the platform's separator (`/` or `\`)
///   between.
pub open spec fn is_path_join(base: Seq<char>, name: Seq<char>, joined: Seq<char>) -> bool {
    if has_verbatim_prefix(base) {
        joined.len() >= name.len() && joined.subrange(joined.len() - name.len(), joined.len() as int)
            == name
    } else if base.len() == 0 {
        joined == name
    } else if base.last() == '/' {
        joined == base + name
    } else if base.last() == '\\' || (base.len() == 2 && base[1] == ':') {
        ||| joined == base + name
        ||| joined == base + seq!['/'] + name
        ||| joined == base + seq!['\\'] + name
    } else {
        ||| joined == base + seq!['/'] + name
        ||| joined == base + seq!['\\'] + name
    }
}

/// Calls `std::path::Path::join` to join the file name `name` onto the
/// directory `base`, and turns the path back into text. Joining a relative
/// name extends the path with it, with the platform's separator between
/// unless the base is empty or already ends with a separator; on Windows a
/// bare drive takes no separator, and a verbatim base is normalized. Which
/// separator is left to the platform.
#[verifier::external_body]
fn join_path(base: &str, name: &str) -> (r: String)
    requires
        name@ == "config.toml"@ || name@ == "identity.key"@,
    ensures
        is_path_join(base@, name@, r@),
{
    std::path::Path::new(base).join(name).to_string_lossy().into_owned()
}

/// The directories of a `Paths`.
pub struct PathsView {
    pub config_dir: Seq<char>,
    pub data_dir: Seq<char>,
}

/// Where uclip stores its config and data.
#[derive(Debug, Clone)]
pub struct Paths {
    /// The root directory for configuration files (e.g., settings.toml).
    config_dir: String,
    /// The root directory for data files (e.g., identity keys, database).
    data_dir: String,
}

impl View for Paths {
    type V = PathsView;

    closed spec fn view(&self) -> PathsView {
        PathsView { config_dir: self.config_dir@, data_dir: self.data_dir@ }
    }
}

impl Paths {
    /// Resolve the directories: `uclip_home` (the `UCLIP_HOME` override)
    /// when it is set, for both config and data; otherwise the OS's
    /// per-project config and data directories, when the OS has them.
    pub fn new(uclip_home: Option<String>, os_dirs: Option<(String, String)>) -> (r: Option<
        Paths,
    >)
        ensures
            match uclip_home {
                Some(home) => r matches Some(p) && p@ == (PathsView {
                    config_dir: home@,
                    data_dir: home@,
                }),
                None => match os_dirs {
                    Some((config, data)) => r matches Some(p) && p@ == (PathsView {
                        config_dir: config@,
                        data_dir: data@,
                    }),
                    None => r is None,
                },
            },
    {
        match uclip_home {
            Some(home) => Some(Paths { config_dir: home.clone(), data_dir: home }),
            None => match os_dirs {
                Some((config, data)) => Some(Paths { config_dir: config, data_dir: data }),
                None => None,
            },
        }
    }

    /// The root directory for configuration files.
    pub fn config_dir(&self) -> (r: &str)
        ensures
            r@ == self@.config_dir,
    {
        self.config_dir.as_str()
    }

    /// The root directory for data files.
    pub fn data_dir(&self) -> (r: &str)
        ensures
            r@ == self@.data_dir,
    {
        self.data_dir.as_str()
    }

    /// The path to the main configuration file, `config.toml` in the config directory.
    pub fn config_file(&self) -> (r: String)
        ensures
            is_path_join(self@.config_dir, "config.toml"@, r@),
    {
        join_path(self.config_dir.as_str(), "config.toml")
    }

    /// The path to the device identity key, `identity.key` in the data directory.
    pub fn identity_file(&self) -> (r: String)
        ensures
            is_path_join(self@.data_dir, "identity.key"@, r@),
    {
        join_path(self.data_dir.as_str(), "identity.key")
    }
}

/// User preferences saved in `config.toml`.
#[derive(Debug, Clone, PartialEq, Eq, Structural)]
pub struct Settings {
    /// The port the daemon listens on for incoming sync requests.
    pub port: u16,
    /// If false, the daemon pauses syncing completely.
    pub sync_enabled: bool,
}

impl Default for Settings {
    /// Port 8443, syncing enabled.
    fn default() -> (r: Settings)
        ensures
            r.port == 8443,
            r.sync_enabled,
    {
        Settings { port: 8443, sync_enabled: true }
    }
}

/// Information about this specific device, saved in `identity.key`.
#[derive(Debug, Clone, PartialEq, Eq)]
pub struct DeviceInfo {
    /// The unique identifier of this device.
    pub id: DeviceId,
    /// A human-readable name, e.g., "Howie's MacBook".
    pub name: String,
}

} // verus!
