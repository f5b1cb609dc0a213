//! Host-side plugin values: what the host reads out of a plugin's C
//! records, the errors of plugin handling and the checks a freshly loaded
//! plugin instance must pass.

use vstd::prelude::*;
use crate::plugin_api::{
    c_str_bytes, lossy_utf8, read_c_str, read_opt_c_str, IslandContentC, PluginMetadataC,
    PluginType, ShortcutC, ThemeColorsC, ISLAND_CONTENT_TAG_MUSIC, ISLAND_CONTENT_TAG_NOTIFICATION,
    ISLAND_CONTENT_TAG_STATUS,
};
use crate::text::{chars_of, concat2, concat3, decimal, decimal_chars, owned, push_str, string_of};

verus! {

#[verifier::external_type_specification]
#[verifier::external_body]
pub struct ExJsonValue(serde_json::Value);

/// The text the host shows for a fixed C string buffer.
pub open spec fn c_text(buf: Seq<u8>) -> Seq<char> {
    lossy_utf8(c_str_bytes(buf))
}

/// The optional text of a fixed C string buffer: `None` when it is empty.
pub open spec fn c_opt_text(buf: Seq<u8>) -> Option<Seq<char>> {
    if c_text(buf).len() == 0 {
        None
    } else {
        Some(c_text(buf))
    }
}

pub open spec fn opt_view(o: Option<String>) -> Option<Seq<char>> {
    match o {
        Some(s) => Some(s@),
        None => None,
    }
}

/// Plugin identity as the host keeps it.
pub struct PluginMetadata {
    pub id: String,
    pub name: String,
    pub version: String,
    pub author: String,
    pub description: String,
}

impl PluginMetadata {
    /// Reads the metadata out of its C record.
    pub fn from_c(c: &PluginMetadataC) -> (r: PluginMetadata)
        ensures
            r.id@ == c_text(c.id@),
            r.name@ == c_text(c.name@),
            r.version@ == c_text(c.version@),
            r.author@ == c_text(c.author@),
            r.description@ == c_text(c.description@),
    {
        PluginMetadata {
            id: read_c_str(c.id.as_slice()),
            name: read_c_str(c.name.as_slice()),
            version: read_c_str(c.version.as_slice()),
            author: read_c_str(c.author.as_slice()),
            description: read_c_str(c.description.as_slice()),
        }
    }
}

/// Island content as the host renders it.
pub enum IslandContent {
    Music { title: String, artist: String, cover_url: Option<String>, is_playing: bool },
    Notification { title: String, message: String, icon_url: Option<String> },
    Status { label: String, value: String, icon: Option<String> },
    Shortcut { name: String, icon: Option<String>, action_id: String },
    Custom(serde_json::Value),
}

impl IslandContent {
    /// The empty status content that stands in for unknown content tags.
    pub open spec fn is_empty_status(self) -> bool {
        self matches IslandContent::Status { label, value, icon } && label@.len() == 0
            && value@.len() == 0 && icon is None
    }

    /// Reads island content out of its C record: the tag picks music,
    /// notification or status; tag 0 and unknown tags give an empty status.
    pub fn from_c(c: &IslandContentC) -> (r: IslandContent)
        ensures
            c.tag == ISLAND_CONTENT_TAG_MUSIC ==> (r matches IslandContent::Music { title, artist, cover_url, is_playing }
                && title@ == c_text(c.title@) && artist@ == c_text(c.artist@)
                && opt_view(cover_url) == c_opt_text(c.cover_url@) && is_playing == c.is_playing),
            c.tag == ISLAND_CONTENT_TAG_NOTIFICATION ==> (r matches IslandContent::Notification { title, message, icon_url }
                && title@ == c_text(c.title@) && message@ == c_text(c.message@)
                && opt_view(icon_url) == c_opt_text(c.cover_url@)),
            c.tag == ISLAND_CONTENT_TAG_STATUS ==> (r matches IslandContent::Status { label, value, icon }
                && label@ == c_text(c.label@) && value@ == c_text(c.value@)
                && opt_view(icon) == c_opt_text(c.cover_url@)),
            (c.tag != 1 && c.tag != 2 && c.tag != 3) ==> r.is_empty_status(),
    {
        if c.tag == ISLAND_CONTENT_TAG_MUSIC {
            IslandContent::Music {
                title: read_c_str(c.title.as_slice()),
                artist: read_c_str(c.artist.as_slice()),
                cover_url: read_opt_c_str(c.cover_url.as_slice()),
                is_playing: c.is_playing,
            }
        } else if c.tag == ISLAND_CONTENT_TAG_NOTIFICATION {
            IslandContent::Notification {
                title: read_c_str(c.title.as_slice()),
                message: read_c_str(c.message.as_slice()),
                icon_url: read_opt_c_str(c.cover_url.as_slice()),
            }
        } else if c.tag == ISLAND_CONTENT_TAG_STATUS {
            IslandContent::Status {
                label: read_c_str(c.label.as_slice()),
                value: read_c_str(c.value.as_slice()),
                icon: read_opt_c_str(c.cover_url.as_slice()),
            }
        } else {
            IslandContent::Status { label: String::new(), value: String::new(), icon: None }
        }
    }
}

/// Theme colours as `(R, G, B, A)`.
pub struct ThemeColors {
    pub primary: (u8, u8, u8, u8),
    pub secondary: (u8, u8, u8, u8),
    pub background: (u8, u8, u8, u8),
    pub text: (u8, u8, u8, u8),
    pub border: (u8, u8, u8, u8),
}

pub open spec fn rgba(a: Seq<u8>) -> (u8, u8, u8, u8) {
    (a[0], a[1], a[2], a[3])
}

impl ThemeColors {
    /// Reads the palette out of its C record.
    pub fn from_c(c: &ThemeColorsC) -> (r: ThemeColors)
        ensures
            r.primary == rgba(c.primary@),
            r.secondary == rgba(c.secondary@),
            r.background == rgba(c.background@),
            r.text == rgba(c.text@),
            r.border == rgba(c.border@),
    {
        ThemeColors {
            primary: (c.primary[0], c.primary[1], c.primary[2], c.primary[3]),
            secondary: (c.secondary[0], c.secondary[1], c.secondary[2], c.secondary[3]),
            background: (c.background[0], c.background[1], c.background[2], c.background[3]),
            text: (c.text[0], c.text[1], c.text[2], c.text[3]),
            border: (c.border[0], c.border[1], c.border[2], c.border[3]),
        }
    }

    /// The palette the host uses for a theme plugin that provides none.
    pub fn fallback() -> (r: ThemeColors)
        ensures
            r.primary == (255u8, 255u8, 255u8, 255u8),
            r.secondary == (200u8, 200u8, 200u8, 255u8),
            r.background == (30u8, 30u8, 30u8, 255u8),
            r.text == (255u8, 255u8, 255u8, 255u8),
            r.border == (100u8, 100u8, 100u8, 255u8),
    {
        ThemeColors {
            primary: (255, 255, 255, 255),
            secondary: (200, 200, 200, 255),
            background: (30, 30, 30, 255),
            text: (255, 255, 255, 255),
            border: (100, 100, 100, 255),
        }
    }
}

/// A shortcut as the host lists it.
pub struct Shortcut {
    pub id: String,
    pub name: String,
    pub description: String,
    pub icon: Option<String>,
    pub hotkey: Option<String>,
}

impl Shortcut {
    /// Reads a shortcut out of its C record.
    pub fn from_c(c: &ShortcutC) -> (r: Shortcut)
        ensures
            r.id@ == c_text(c.id@),
            r.name@ == c_text(c.name@),
            r.description@ == c_text(c.description@),
            opt_view(r.icon) == c_opt_text(c.icon@),
            opt_view(r.hotkey) == c_opt_text(c.hotkey@),
    {
        Shortcut {
            id: read_c_str(c.id.as_slice()),
            name: read_c_str(c.name.as_slice()),
            description: read_c_str(c.description.as_slice()),
            icon: read_opt_c_str(c.icon.as_slice()),
            hotkey: read_opt_c_str(c.hotkey.as_slice()),
        }
    }
}

/// Errors of plugin handling.
pub enum PluginError {
    NotFound(String),
    LoadFailed(String),
    InvalidPlugin(String),
    ExecutionError(String),
}

impl PluginError {
    /// The text of the error as the host reports it.
    pub open spec fn message_spec(self) -> Seq<char> {
        match self {
            PluginError::NotFound(m) => "Plugin not found: "@ + m@,
            PluginError::LoadFailed(m) => "Failed to load plugin: "@ + m@,
            PluginError::InvalidPlugin(m) => "Invalid plugin: "@ + m@,
            PluginError::ExecutionError(m) => "Plugin execution error: "@ + m@,
        }
    }

    /// The text of the error as the host reports it.
    pub fn message(&self) -> (r: String)
        ensures
            r@ == self.message_spec(),
    {
        match self {
            PluginError::NotFound(m) => concat2("Plugin not found: ", m.as_str()),
            PluginError::LoadFailed(m) => concat2("Failed to load plugin: ", m.as_str()),
            PluginError::InvalidPlugin(m) => concat2("Invalid plugin: ", m.as_str()),
            PluginError::ExecutionError(m) => concat2("Plugin execution error: ", m.as_str()),
        }
    }
}

/// A loaded plugin.
pub trait Plugin {
    fn metadata(&self) -> &PluginMetadata;

    fn plugin_type(&self) -> PluginType;
}

/// A plugin that provides island content.
pub trait ContentProvider: Plugin {
    fn get_content(&self) -> Option<IslandContent>;

    fn on_click(&mut self);

    fn on_expanded(&mut self, expanded: bool);

    fn supports_expand(&self) -> bool;
}

/// A plugin that provides shortcuts.
pub trait ShortcutProvider: Plugin {
    fn get_shortcuts(&self) -> Vec<Shortcut>;

    fn execute(&mut self, shortcut_id: &str) -> Result<(), String>;
}

} // verus!

verus! {

/// A plugin id is non-empty and made of alphanumeric characters, `-` and `_`.
pub open spec fn valid_plugin_id(id: Seq<char>) -> bool {
    id.len() > 0 && forall|i: int| 0 <= i < id.len() ==> (crate::text::alnum(#[trigger] id[i])
        || id[i] == '-' || id[i] == '_')
}

/// Whether `id` is a valid plugin id.
pub fn is_valid_plugin_id(id: &str) -> (r: bool)
    ensures
        r == valid_plugin_id(id@),
{
    let cs = chars_of(id);
    if cs.len() == 0 {
        return false;
    }
    let mut i: usize = 0;
    while i < cs.len()
        invariant
            i <= cs@.len(),
            cs@ == id@,
            forall|j: int| 0 <= j < i ==> (crate::text::alnum(#[trigger] cs@[j]) || cs@[j] == '-'
                || cs@[j] == '_'),
        decreases cs.len() - i,
    {
        let c = cs[i];
        if !(crate::text::is_alphanumeric(c) || c == '-' || c == '_') {
            return false;
        }
        i = i + 1;
    }
    true
}

/// What a loaded plugin instance must satisfy before the host calls into
/// it, checked in this order: a non-null handle, a non-null function
/// table, a valid id, a known plugin type. `path` names the plugin file.
pub fn check_plugin_instance(
    path: &str,
    handle_is_null: bool,
    vtable_is_null: bool,
    metadata: &PluginMetadataC,
    plugin_type: u32,
) -> (r: Result<(PluginMetadata, PluginType), PluginError>)
    ensures
        handle_is_null ==> (r matches Err(PluginError::LoadFailed(m))
            && m@ == "Plugin '"@ + path@ + "' returned null handle"@),
        !handle_is_null && vtable_is_null ==> (r matches Err(PluginError::InvalidPlugin(m))
            && m@ == "Plugin '"@ + path@ + "' returned null vtable"@),
        !handle_is_null && !vtable_is_null && !valid_plugin_id(c_text(metadata.id@)) ==> (r matches Err(
            PluginError::InvalidPlugin(m),
        ) && m@ == "Plugin '"@ + c_text(metadata.id@)
            + "' has invalid id: only alphanumeric, '-' and '_' allowed"@),
        !handle_is_null && !vtable_is_null && valid_plugin_id(c_text(metadata.id@)) && !(1 <= plugin_type
            <= 3) ==> (r matches Err(PluginError::InvalidPlugin(m))
            && m@ == "Plugin '"@ + path@ + "' has unknown plugin_type: "@ + decimal(plugin_type as nat)),
        r is Ok <==> !handle_is_null && !vtable_is_null && valid_plugin_id(c_text(metadata.id@)) && 1
            <= plugin_type <= 3,
        r matches Ok((meta, t)) ==> meta.id@ == c_text(metadata.id@) && meta.name@ == c_text(metadata.name@)
            && meta.version@ == c_text(metadata.version@) && meta.author@ == c_text(metadata.author@)
            && meta.description@ == c_text(metadata.description@) && t.code() == plugin_type,
{
    if handle_is_null {
        return Err(PluginError::LoadFailed(concat3("Plugin '", path, "' returned null handle")));
    }
    if vtable_is_null {
        return Err(PluginError::InvalidPlugin(concat3("Plugin '", path, "' returned null vtable")));
    }
    let meta = PluginMetadata::from_c(metadata);
    if !is_valid_plugin_id(meta.id.as_str()) {
        return Err(
            PluginError::InvalidPlugin(
                concat3("Plugin '", meta.id.as_str(), "' has invalid id: only alphanumeric, '-' and '_' allowed"),
            ),
        );
    }
    match PluginType::from_u32(plugin_type) {
        Some(t) => Ok((meta, t)),
        None => {
            let mut m = concat3("Plugin '", path, "' has unknown plugin_type: ");
            let digits = string_of(&decimal_chars(plugin_type as u64));
            push_str(&mut m, digits.as_str());
            Err(PluginError::InvalidPlugin(m))
        },
    }
}

/// The error for a plugin whose required functions (load, unload,
/// destroy) are missing.
pub fn missing_required_functions(id: &str) -> (r: PluginError)
    ensures
        r matches PluginError::InvalidPlugin(m) && m@ == "Plugin '"@ + id@
            + "' has null function pointer in required vtable fields"@,
{
    PluginError::InvalidPlugin(concat3("Plugin '", id, "' has null function pointer in required vtable fields"))
}

/// What the plugin's load hook answered, as the host's result.
pub fn on_load_outcome(id: &str, result: crate::plugin_api::PluginResultC) -> (r: Result<(), PluginError>)
    ensures
        result.ok ==> r is Ok,
        !result.ok ==> (r matches Err(PluginError::ExecutionError(m)) && m@ == "Plugin '"@ + id@
            + "' on_load failed: "@ + c_text(result.error@)),
{
    match result.into_result() {
        Ok(()) => Ok(()),
        Err(e) => {
            let mut m = concat3("Plugin '", id, "' on_load failed: ");
            push_str(&mut m, e.as_str());
            Err(PluginError::ExecutionError(m))
        },
    }
}

/// The C buffer that carries a shortcut id to the plugin: its UTF-8 bytes
/// cut to 127, as signed C chars, then zeros.
pub fn shortcut_id_buffer(shortcut_id: &str) -> (r: [i8; 128])
    ensures
        ({
            let b = vstd::utf8::encode_utf8(shortcut_id@);
            let n = if b.len() < 127 { b.len() as int } else { 127 };
            &&& forall|i: int| 0 <= i < n ==> r@[i] == b[i] as i8
            &&& forall|i: int| n <= i < 128 ==> r@[i] == 0
        }),
{
    let mut buf: [i8; 128] = [0i8; 128];
    let bytes = shortcut_id.as_bytes();
    let len = if bytes.len() < 127 { bytes.len() } else { 127 };
    let mut i: usize = 0;
    while i < len
        invariant
            i <= len <= bytes@.len(),
            len <= 127,
            buf@.len() == 128,
            forall|j: int| 0 <= j < i ==> buf@[j] == bytes@[j] as i8,
            forall|j: int| i <= j < 128 ==> buf@[j] == 0,
        decreases len - i,
    {
        buf[i] = bytes[i] as i8;
        i = i + 1;
    }
    buf
}

/// The answer to a shortcut call on a plugin without a shortcut runner.
pub fn shortcut_unsupported() -> (r: Result<(), String>)
    ensures
        r matches Err(m) && m@ == "Plugin does not support execute_shortcut"@,
{
    Err(owned("Plugin does not support execute_shortcut"))
}

} // verus!
