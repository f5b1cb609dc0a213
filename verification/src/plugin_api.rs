//! The plugin ABI's plain values: plugin kinds, fixed-size C string
//! buffers, the C result type and the records a plugin hands to the host.

use vstd::prelude::*;

verus! {

/// What capability a plugin provides to the host.
#[derive(Debug, Clone, Copy, PartialEq, Eq, Structural)]
pub enum PluginType {
    /// Island content (music, notification, status, ...).
    Content,
    /// Theme colours and animation configuration.
    Theme,
    /// Keyboard shortcuts and quick actions.
    Shortcut,
}

impl PluginType {
    /// The C ABI discriminant of a plugin kind.
    pub open spec fn code(self) -> u32 {
        match self {
            PluginType::Content => 1,
            PluginType::Theme => 2,
            PluginType::Shortcut => 3,
        }
    }

    /// Converts a raw `u32` discriminant from the C ABI into a `PluginType`;
    /// `None` for unknown values.
    pub fn from_u32(v: u32) -> (r: Option<PluginType>)
        ensures
            match r {
                Some(t) => t.code() == v,
                None => v != 1 && v != 2 && v != 3,
            },
    {
        if v == 1 {
            Some(PluginType::Content)
        } else if v == 2 {
            Some(PluginType::Theme)
        } else if v == 3 {
            Some(PluginType::Shortcut)
        } else {
            None
        }
    }

    /// The C ABI discriminant of this plugin kind.
    pub fn as_u32(&self) -> (r: u32)
        ensures
            r == self.code(),
    {
        match self {
            PluginType::Content => 1,
            PluginType::Theme => 2,
            PluginType::Shortcut => 3,
        }
    }
}

/// Every plugin kind survives the trip through its C discriminant, and a
/// discriminant that converts names the kind it came from.
pub proof fn plugin_type_round_trip(t: PluginType, v: u32)
    ensures
        (match t {
            PluginType::Content => 1u32,
            PluginType::Theme => 2u32,
            PluginType::Shortcut => 3u32,
        }) == t.code(),
        (v == 1 || v == 2 || v == 3) ==> exists|u: PluginType| u.code() == v,
        forall|a: PluginType, b: PluginType| a.code() == b.code() ==> a == b,
{
    if v == 1 {
        assert(PluginType::Content.code() == v);
    } else if v == 2 {
        assert(PluginType::Theme.code() == v);
    } else if v == 3 {
        assert(PluginType::Shortcut.code() == v);
    }
}

/// The decoding of `bytes` that `String::from_utf8_lossy` computes.
pub uninterp spec fn lossy_utf8(bytes: Seq<u8>) -> Seq<char>;

/// `String::from_utf8_lossy`: decodes `bytes`, replacing each invalid
/// sequence by U+FFFD; the result is named `lossy_utf8`, for valid UTF-8
/// it is the decoded text itself, and it is empty only for no bytes (every
/// byte belongs to a decoded character or to a replaced sequence).
#[verifier::external_body]
pub(crate) fn from_utf8_lossy(bytes: &[u8]) -> (r: String)
    ensures
        r@ == lossy_utf8(bytes@),
        vstd::utf8::valid_utf8(bytes@) ==> r@ == vstd::utf8::decode_utf8(bytes@),
        r@.len() == 0 <==> bytes@.len() == 0,
{
    String::from_utf8_lossy(bytes).into_owned()
}

/// The bytes of a fixed buffer up to its first NUL (all of it when it
/// holds none).
pub open spec fn c_str_bytes(buf: Seq<u8>) -> Seq<u8> {
    if exists|i: int| 0 <= i < buf.len() && buf[i] == 0 {
        buf.take(choose|i: int| 0 <= i < buf.len() && buf[i] == 0 && forall|j: int| 0 <= j < i ==> buf[j] != 0)
    } else {
        buf
    }
}

/// The index of the first NUL of `buf`, or its length.
pub fn c_str_end(buf: &[u8]) -> (r: usize)
    ensures
        r <= buf@.len(),
        buf@.take(r as int) == c_str_bytes(buf@),
        forall|j: int| 0 <= j < r ==> buf@[j] != 0,
        r < buf@.len() ==> buf@[r as int] == 0,
{
    let mut i: usize = 0;
    while i < buf.len() && buf[i] != 0
        invariant
            i <= buf@.len(),
            forall|j: int| 0 <= j < i ==> buf@[j] != 0,
        decreases buf.len() - i,
    {
        i = i + 1;
    }
    proof {
        if i < buf@.len() {
            assert(buf@[i as int] == 0);
            let k = choose|k: int| 0 <= k < buf@.len() && buf@[k] == 0 && forall|j: int| 0 <= j < k ==> buf@[j] != 0;
            if k < i {
                assert(buf@[k] != 0);
            }
            if i < k {
                assert(buf@[i as int] != 0);
            }
        } else {
            assert(buf@.take(i as int) == buf@);
        }
    }
    i
}

/// The bytes `s[a..b]` of a slice.
fn slice_bytes(s: &[u8], a: usize, b: usize) -> (r: Vec<u8>)
    requires
        a <= b <= s@.len(),
    ensures
        r@ == s@.subrange(a as int, b as int),
{
    let mut r: Vec<u8> = Vec::new();
    let mut i: usize = a;
    while i < b
        invariant
            a <= i <= b <= s@.len(),
            r@ == s@.subrange(a as int, i as int),
        decreases b - i,
    {
        r.push(s[i]);
        i = i + 1;
    }
    r
}

/// The text of a NUL-terminated fixed buffer, decoded leniently.
pub fn read_c_str(buf: &[u8]) -> (r: String)
    ensures
        r@ == lossy_utf8(c_str_bytes(buf@)),
        vstd::utf8::valid_utf8(c_str_bytes(buf@)) ==> r@ == vstd::utf8::decode_utf8(c_str_bytes(buf@)),
        r@.len() == 0 <==> buf@.len() == 0 || buf@[0] == 0,
{
    let end = c_str_end(buf);
    let bytes = slice_bytes(buf, 0, end);
    assert(bytes@ == c_str_bytes(buf@));
    assert(bytes@.len() == 0 <==> buf@.len() == 0 || buf@[0] == 0);
    from_utf8_lossy(bytes.as_slice())
}

/// The text of a fixed buffer, or `None` when it decodes to nothing.
pub fn read_opt_c_str(buf: &[u8]) -> (r: Option<String>)
    ensures
        r is None <==> buf@.len() == 0 || buf@[0] == 0,
        match r {
            None => lossy_utf8(c_str_bytes(buf@)).len() == 0,
            Some(s) => s@ == lossy_utf8(c_str_bytes(buf@)) && s@.len() > 0,
        },
{
    let s = read_c_str(buf);
    if s.as_str().is_empty() {
        None
    } else {
        Some(s)
    }
}

/// `buf` holds `content` followed by zeros.
pub open spec fn zero_filled_with(buf: Seq<u8>, content: Seq<u8>) -> bool {
    &&& content.len() <= buf.len()
    &&& buf.take(content.len() as int) == content
    &&& forall|i: int| content.len() <= i < buf.len() ==> buf[i] == 0
}

/// A fixed buffer of `N` bytes holding the UTF-8 bytes of `s`, cut to
/// `N - 1` bytes, and zeros after them.
pub fn str_to_fixed<const N: usize>(s: &str) -> (r: [u8; N])
    requires
        N > 0,
    ensures
        zero_filled_with(r@, vstd::utf8::encode_utf8(s@).take(
            if vstd::utf8::encode_utf8(s@).len() < N - 1 { vstd::utf8::encode_utf8(s@).len() as int } else { N - 1 },
        )),
{
    let mut buf: [u8; N] = [0u8; N];
    let bytes = s.as_bytes();
    let len = if bytes.len() < N - 1 { bytes.len() } else { N - 1 };
    let mut i: usize = 0;
    while i < len
        invariant
            i <= len <= bytes@.len(),
            len < N,
            buf@.len() == N,
            forall|j: int| 0 <= j < i ==> buf@[j] == bytes@[j],
            forall|j: int| i <= j < N ==> buf@[j] == 0,
        decreases len - i,
    {
        buf[i] = bytes[i];
        i = i + 1;
    }
    assert(buf@.take(len as int) =~= bytes@.take(len as int));
    buf
}

/// A C-compatible equivalent of `Result<(), String>` for plugin calls.
pub struct PluginResultC {
    /// `true` for success, `false` for failure.
    pub ok: bool,
    /// NUL-terminated UTF-8 error message (at most 255 bytes and a NUL).
    pub error: [u8; 256],
}

/// The error bytes that `PluginResultC::err` stores for `msg`: its UTF-8
/// bytes cut to 255.
pub open spec fn error_bytes(msg: Seq<char>) -> Seq<u8> {
    let b = vstd::utf8::encode_utf8(msg);
    if b.len() < 255 {
        b
    } else {
        b.take(255)
    }
}

impl PluginResultC {
    /// A success result.
    pub fn ok() -> (r: PluginResultC)
        ensures
            r.ok,
            forall|i: int| 0 <= i < 256 ==> r.error@[i] == 0,
    {
        PluginResultC { ok: true, error: [0u8; 256] }
    }

    /// An error result carrying `msg`, cut to 255 bytes.
    pub fn err(msg: &str) -> (r: PluginResultC)
        ensures
            !r.ok,
            zero_filled_with(r.error@, error_bytes(msg@)),
    {
        let error: [u8; 256] = str_to_fixed(msg);
        let ghost b = vstd::utf8::encode_utf8(msg@);
        assert(b.take(b.len() as int) == b);
        PluginResultC { ok: false, error }
    }

    /// Converts back into a Rust `Result`: the message is the error buffer
    /// up to its first NUL, decoded leniently.
    pub fn into_result(self) -> (r: Result<(), String>)
        ensures
            self.ok ==> r is Ok,
            !self.ok ==> (r matches Err(e) && e@ == lossy_utf8(c_str_bytes(self.error@))),
            !self.ok && vstd::utf8::valid_utf8(c_str_bytes(self.error@)) ==> (r matches Err(e) && e@
                == vstd::utf8::decode_utf8(c_str_bytes(self.error@))),
    {
        if self.ok {
            Ok(())
        } else {
            Err(read_c_str(self.error.as_slice()))
        }
    }
}

/// An error message of at most 255 UTF-8 bytes and without NUL survives
/// `PluginResultC::err` followed by `into_result`.
pub proof fn error_message_round_trip(msg: Seq<char>, r: PluginResultC)
    requires
        vstd::utf8::encode_utf8(msg).len() <= 255,
        !vstd::utf8::encode_utf8(msg).contains(0u8),
        zero_filled_with(r.error@, error_bytes(msg)),
    ensures
        lossy_utf8(c_str_bytes(r.error@)) == lossy_utf8(vstd::utf8::encode_utf8(msg)),
        vstd::utf8::decode_utf8(c_str_bytes(r.error@)) == msg,
        vstd::utf8::valid_utf8(c_str_bytes(r.error@)),
{
    let b = vstd::utf8::encode_utf8(msg);
    assert(error_bytes(msg) == b);
    assert(r.error@.len() == 256);
    let n = b.len() as int;
    assert(r.error@[n] == 0);
    assert(exists|i: int| 0 <= i < r.error@.len() && r.error@[i] == 0);
    let k = choose|i: int| 0 <= i < r.error@.len() && r.error@[i] == 0 && forall|j: int| 0 <= j < i ==> r.error@[j] != 0;
    assert forall|j: int| 0 <= j < n implies r.error@[j] != 0 by {
        assert(r.error@[j] == r.error@.take(n)[j]);
        assert(b[j] != 0u8) by {
            if b[j] == 0u8 {
                assert(b.contains(0u8));
            }
        }
    }
    if k < n {
        assert(r.error@[k] != 0);
    }
    if n < k {
        assert(r.error@[n] != 0);
    }
    assert(c_str_bytes(r.error@) == b);
    vstd::utf8::encode_utf8_valid_utf8(msg);
    vstd::utf8::encode_utf8_decode_utf8(msg);
}

} // verus!

verus! {

/// Fixed-width plugin metadata exchanged over FFI.
pub struct PluginMetadataC {
    /// Unique identifier, at most 63 bytes and a NUL.
    pub id: [u8; 64],
    /// Human-readable name, at most 127 bytes and a NUL.
    pub name: [u8; 128],
    /// Version string, at most 31 bytes and a NUL.
    pub version: [u8; 32],
    /// Author name, at most 127 bytes and a NUL.
    pub author: [u8; 128],
    /// Description, at most 255 bytes and a NUL.
    pub description: [u8; 256],
}

/// Content data pushed to the island display; `tag` selects the variant.
pub struct IslandContentC {
    pub tag: u32,
    pub title: [u8; 256],
    pub artist: [u8; 256],
    pub cover_url: [u8; 512],
    pub is_playing: bool,
    pub message: [u8; 256],
    pub label: [u8; 128],
    pub value: [u8; 128],
}

/// Content variant: music playback info with cover art.
pub const ISLAND_CONTENT_TAG_MUSIC: u32 = 1;
/// Content variant: system or app notification.
pub const ISLAND_CONTENT_TAG_NOTIFICATION: u32 = 2;
/// Content variant: status metric.
pub const ISLAND_CONTENT_TAG_STATUS: u32 = 3;

/// Colour palette returned by a theme plugin, each `[R, G, B, A]`.
pub struct ThemeColorsC {
    pub primary: [u8; 4],
    pub secondary: [u8; 4],
    pub background: [u8; 4],
    pub text: [u8; 4],
    pub border: [u8; 4],
}

/// A keyboard shortcut or quick action exposed by a plugin.
pub struct ShortcutC {
    pub id: [u8; 64],
    pub name: [u8; 128],
    pub description: [u8; 256],
    pub icon: [u8; 256],
    pub hotkey: [u8; 32],
}

impl ShortcutC {
    /// An all-zero record for a plugin to fill.
    pub fn zeroed() -> (r: ShortcutC)
        ensures
            forall|i: int| 0 <= i < 64 ==> r.id@[i] == 0,
            forall|i: int| 0 <= i < 128 ==> r.name@[i] == 0,
            forall|i: int| 0 <= i < 256 ==> r.description@[i] == 0 && r.icon@[i] == 0,
            forall|i: int| 0 <= i < 32 ==> r.hotkey@[i] == 0,
    {
        ShortcutC {
            id: [0u8; 64],
            name: [0u8; 128],
            description: [0u8; 256],
            icon: [0u8; 256],
            hotkey: [0u8; 32],
        }
    }
}

} // verus!
