//! The `plugin.yml` manifest that a plugin package carries: its required
//! fields, the directory name it installs under and its signing payload.

use vstd::prelude::*;
use crate::text::{alnum, chars_of, is_alphanumeric, owned, string_of, trim};

verus! {

/// A text is blank when trimming leaves nothing of it.
pub fn is_blank(s: &str) -> (r: bool)
    ensures
        r == (trim(s@).len() == 0),
{
    let cs = chars_of(s);
    let t = crate::text::trim_chars(&cs);
    t.len() == 0
}

/// The first of name, author, version and description that is blank, as
/// the validation error; `None` when all four are filled.
pub open spec fn missing_package_field(name: Seq<char>, author: Seq<char>, version: Seq<char>,
    description: Seq<char>) -> Option<Seq<char>> {
    if trim(name).len() == 0 {
        Some("'name' is empty"@)
    } else if trim(author).len() == 0 {
        Some("'author' is empty"@)
    } else if trim(version).len() == 0 {
        Some("'version' is empty"@)
    } else if trim(description).len() == 0 {
        Some("'description' is empty"@)
    } else {
        None
    }
}

/// The first manifest field, in the order name, author, version,
/// description, github-link, that is blank, as the validation error; `None`
/// when all are filled.
pub open spec fn missing_field(name: Seq<char>, author: Seq<char>, version: Seq<char>,
    description: Seq<char>, github_link: Seq<char>) -> Option<Seq<char>> {
    match missing_package_field(name, author, version, description) {
        Some(e) => Some(e),
        None => if trim(github_link).len() == 0 {
            Some("'github-link' is empty"@)
        } else {
            None
        },
    }
}

/// Checks that name, author, version and description are not blank.
pub fn check_package_fields(name: &str, author: &str, version: &str, description: &str) -> (r: Result<(), String>)
    ensures
        match missing_package_field(name@, author@, version@, description@) {
            None => r is Ok,
            Some(m) => r matches Err(e) && e@ == m,
        },
{
    if is_blank(name) {
        return Err(owned("'name' is empty"));
    }
    if is_blank(author) {
        return Err(owned("'author' is empty"));
    }
    if is_blank(version) {
        return Err(owned("'version' is empty"));
    }
    if is_blank(description) {
        return Err(owned("'description' is empty"));
    }
    Ok(())
}

/// Checks that the required manifest fields are not blank.
pub fn check_required_fields(name: &str, author: &str, version: &str, description: &str, github_link: &str)
    -> (r: Result<(), String>)
    ensures
        match missing_field(name@, author@, version@, description@, github_link@) {
            None => r is Ok,
            Some(m) => r matches Err(e) && e@ == m,
        },
{
    check_package_fields(name, author, version, description)?;
    if is_blank(github_link) {
        return Err(owned("'github-link' is empty"));
    }
    Ok(())
}

/// A plugin name character kept in a directory name: alphanumeric, `-` or `_`.
pub open spec fn dir_safe(c: char) -> bool {
    alnum(c) || c == '-' || c == '_'
}

/// `name` with every character that is not alphanumeric, `-` or `_`
/// replaced by `_`.
pub open spec fn safe_dir_name_spec(name: Seq<char>) -> Seq<char> {
    name.map_values(|c: char| if dir_safe(c) { c } else { '_' })
}

/// A directory name made from a plugin name.
pub fn safe_dir_name_of(name: &str) -> (r: String)
    ensures
        r@ == safe_dir_name_spec(name@),
{
    let cs = chars_of(name);
    let mut out: Vec<char> = Vec::new();
    let mut i: usize = 0;
    while i < cs.len()
        invariant
            i <= cs@.len(),
            out@ == cs@.take(i as int).map_values(|c: char| if dir_safe(c) { c } else { '_' }),
        decreases cs.len() - i,
    {
        let c = cs[i];
        let k = if is_alphanumeric(c) || c == '-' || c == '_' { c } else { '_' };
        out.push(k);
        assert(cs@.take(i + 1).map_values(|c: char| if dir_safe(c) { c } else { '_' })
            =~= cs@.take(i as int).map_values(|c: char| if dir_safe(c) { c } else { '_' }).push(k));
        i = i + 1;
    }
    assert(cs@.take(cs@.len() as int) == cs@);
    string_of(&out)
}

/// A value of the signing payload: a string, or a list of strings that may
/// be absent (written as `null`).
pub enum PayloadValue {
    Text(String),
    Texts(Option<Vec<String>>),
}

/// A payload value as plain text values.
pub enum PayloadValueView {
    Text(Seq<char>),
    Texts(Option<Seq<Seq<char>>>),
}

pub open spec fn hashes_view(h: Option<Vec<String>>) -> Option<Seq<Seq<char>>> {
    match h {
        Some(v) => Some(v@.map_values(|s: String| s@)),
        None => None,
    }
}

pub open spec fn payload_view(v: PayloadValue) -> PayloadValueView {
    match v {
        PayloadValue::Text(s) => PayloadValueView::Text(s@),
        PayloadValue::Texts(h) => PayloadValueView::Texts(hashes_view(h)),
    }
}

pub open spec fn entries_view(entries: Seq<(String, PayloadValue)>) -> Seq<(Seq<char>, PayloadValueView)> {
    entries.map_values(|e: (String, PayloadValue)| (e.0@, payload_view(e.1)))
}

/// The compact JSON text `serde_json` writes for the object holding
/// `entries` (its keys in `serde_json`'s map order).
pub uninterp spec fn json_object_text(entries: Seq<(Seq<char>, PayloadValueView)>) -> Seq<char>;

/// `serde_json::to_string` of the object made of `entries`; its text is
/// named `json_object_text`. Serialising a JSON value, whose map keys are
/// strings, into memory does not fail.
#[verifier::external_body]
fn json_object_string(entries: &Vec<(String, PayloadValue)>) -> (r: Option<String>)
    ensures
        r is Some,
        r.unwrap()@ == json_object_text(entries_view(entries@)),
{
    let mut m = serde_json::Map::new();
    for (k, v) in entries.iter() {
        let value = match v {
            PayloadValue::Text(s) => serde_json::Value::from(s.clone()),
            PayloadValue::Texts(Some(l)) => serde_json::Value::from(l.clone()),
            PayloadValue::Texts(None) => serde_json::Value::Null,
        };
        m.insert(k.clone(), value);
    }
    serde_json::to_string(&serde_json::Value::Object(m)).ok()
}

/// The signed fields of a manifest, as payload entries: `name`, `author`,
/// `version`, `description`, `github-link` and `dll_hashes`.
pub open spec fn signing_entries(name: Seq<char>, author: Seq<char>, version: Seq<char>, description: Seq<char>,
    github_link: Seq<char>, dll_hashes: Option<Seq<Seq<char>>>) -> Seq<(Seq<char>, PayloadValueView)> {
    seq![
        ("name"@, PayloadValueView::Text(name)),
        ("author"@, PayloadValueView::Text(author)),
        ("version"@, PayloadValueView::Text(version)),
        ("description"@, PayloadValueView::Text(description)),
        ("github-link"@, PayloadValueView::Text(github_link)),
        ("dll_hashes"@, PayloadValueView::Texts(dll_hashes)),
    ]
}

fn copy_strings(v: &Vec<String>) -> (r: Vec<String>)
    ensures
        r@.map_values(|s: String| s@) == v@.map_values(|s: String| s@),
{
    let mut out: Vec<String> = Vec::new();
    let mut i: usize = 0;
    while i < v.len()
        invariant
            i <= v@.len(),
            out@.map_values(|s: String| s@) == v@.take(i as int).map_values(|s: String| s@),
        decreases v.len() - i,
    {
        let ghost before = out@;
        let c = v[i].clone();
        out.push(c);
        assert(out@.map_values(|s: String| s@) =~= before.map_values(|s: String| s@).push(v@[i as int]@));
        assert(v@.take(i + 1).map_values(|s: String| s@) =~= v@.take(i as int).map_values(|s: String| s@).push(
            v@[i as int]@,
        ));
        i = i + 1;
    }
    assert(v@.take(v@.len() as int) =~= v@);
    out
}

/// The `plugin.yml` manifest of a plugin package.
pub struct PluginManifest {
    pub name: String,
    pub author: String,
    pub version: String,
    pub description: String,
    pub github_link: String,
    pub signature: Option<String>,
    pub dll_hashes: Option<Vec<String>>,
}

impl PluginManifest {
    /// The signing payload: canonical JSON of all fields but the signature.
    pub fn signing_payload(&self) -> (r: String)
        ensures
            r@ == json_object_text(signing_entries(self.name@, self.author@, self.version@, self.description@,
                self.github_link@, hashes_view(self.dll_hashes))),
    {
        let hashes = match &self.dll_hashes {
            Some(v) => Some(copy_strings(v)),
            None => None,
        };
        let mut entries: Vec<(String, PayloadValue)> = Vec::new();
        entries.push((owned("name"), PayloadValue::Text(self.name.clone())));
        entries.push((owned("author"), PayloadValue::Text(self.author.clone())));
        entries.push((owned("version"), PayloadValue::Text(self.version.clone())));
        entries.push((owned("description"), PayloadValue::Text(self.description.clone())));
        entries.push((owned("github-link"), PayloadValue::Text(self.github_link.clone())));
        entries.push((owned("dll_hashes"), PayloadValue::Texts(hashes)));
        assert(entries_view(entries@) =~= signing_entries(self.name@, self.author@, self.version@,
            self.description@, self.github_link@, hashes_view(self.dll_hashes)));
        match json_object_string(&entries) {
            Some(s) => s,
            None => String::new(),
        }
    }

    /// A directory name made from the plugin name.
    pub fn safe_dir_name(&self) -> (r: String)
        ensures
            r@ == safe_dir_name_spec(self.name@),
    {
        safe_dir_name_of(self.name.as_str())
    }

    /// Checks that the required fields are not blank.
    pub fn validate(&self) -> (r: Result<(), String>)
        ensures
            match missing_field(self.name@, self.author@, self.version@, self.description@, self.github_link@) {
                None => r is Ok,
                Some(m) => r matches Err(e) && e@ == m,
            },
    {
        check_required_fields(
            self.name.as_str(),
            self.author.as_str(),
            self.version.as_str(),
            self.description.as_str(),
            self.github_link.as_str(),
        )
    }
}

} // verus!
