//! The plugin packaging tool's settings: what it is told, or reads from the
//! plugin's `Cargo.toml`, and the paths and manifest it derives from them.

use vstd::prelude::*;
use crate::manifest::{check_package_fields, missing_package_field, PluginManifest};
use crate::text::{chars_of, concat2, owned, push_str, string_of, trim};

verus! {

#[verifier::external_type_specification]
#[verifier::external_body]
pub struct ExSigningKey(ed25519_dalek::SigningKey);

/// What `SigningKey::from_keypair_bytes` gives for a 64-byte keypair: the key
/// whose secret is the first 32 bytes, when the last 32 bytes are a valid
/// verifying key equal to the one that secret derives; `None` otherwise.
pub uninterp spec fn keypair_signing_key(bytes: Seq<u8>) -> Option<ed25519_dalek::SigningKey>;

/// `ed25519_dalek::SigningKey::from_keypair_bytes`, with its error dropped;
/// its outcome is named `keypair_signing_key`.
#[verifier::external_body]
fn signing_key_from_keypair(bytes: &[u8; 64]) -> (r: Option<ed25519_dalek::SigningKey>)
    ensures
        r == keypair_signing_key(bytes@),
{
    ed25519_dalek::SigningKey::from_keypair_bytes(bytes).ok()
}

/// The part of a parsed TOML document that the packager reads: strings,
/// arrays and tables (each a list of entries), everything else as `Other`.
pub enum TomlValue {
    Str(String),
    Array(Vec<TomlValue>),
    Table(Vec<(String, TomlValue)>),
    Other,
}

#[verifier::external_type_specification]
#[verifier::external_body]
pub struct ExTomlValue(toml::Value);

/// A parsed `toml::Value` as a `TomlValue`, one for one: strings, arrays
/// and tables keep their contents (tables in the order the map hands its
/// entries out, which is by key), every other
/// kind of value becomes `Other`.
#[verifier::external_body]
fn toml_tree(v: &toml::Value) -> TomlValue {
    match v {
        toml::Value::String(s) => TomlValue::Str(s.clone()),
        toml::Value::Array(a) => TomlValue::Array(a.iter().map(toml_tree).collect()),
        toml::Value::Table(t) => {
            let mut entries = Vec::new();
            for (k, x) in t.iter() {
                entries.push((k.clone(), toml_tree(x)));
            }
            TomlValue::Table(entries)
        },
        _ => TomlValue::Other,
    }
}

/// What `toml::from_str::<toml::Value>` makes of a text: the document, or
/// the text of its error.
pub uninterp spec fn toml_document(text: Seq<char>) -> Result<TomlValue, Seq<char>>;

/// `toml::from_str::<toml::Value>`, with the document converted to a
/// `TomlValue` and the error to its text; its outcome is named
/// `toml_document`.
#[verifier::external_body]
fn parse_toml(text: &str) -> (r: Result<TomlValue, String>)
    ensures
        match r {
            Ok(v) => toml_document(text@) == Ok::<TomlValue, Seq<char>>(v),
            Err(e) => toml_document(text@) == Err::<TomlValue, Seq<char>>(e@),
        },
{
    match toml::from_str::<toml::Value>(text) {
        Ok(v) => Ok(toml_tree(&v)),
        Err(e) => Err(e.to_string()),
    }
}

/// The value of the first entry named `key`.
pub open spec fn entry_lookup(entries: Seq<(String, TomlValue)>, key: Seq<char>) -> Option<TomlValue>
    decreases entries.len(),
{
    if entries.len() == 0 {
        None
    } else if entries[0].0@ == key {
        Some(entries[0].1)
    } else {
        entry_lookup(entries.drop_first(), key)
    }
}

/// `value.get(key)`: the entry of a table; nothing for other values.
pub open spec fn toml_get(v: Option<TomlValue>, key: Seq<char>) -> Option<TomlValue> {
    match v {
        Some(TomlValue::Table(entries)) => entry_lookup(entries@, key),
        _ => None,
    }
}

/// `value.as_str()`.
pub open spec fn toml_str(v: Option<TomlValue>) -> Option<Seq<char>> {
    match v {
        Some(TomlValue::Str(s)) => Some(s@),
        _ => None,
    }
}

/// `value.as_array().and_then(|a| a.first())`.
pub open spec fn toml_first(v: Option<TomlValue>) -> Option<TomlValue> {
    match v {
        Some(TomlValue::Array(items)) => if items@.len() > 0 {
            Some(items@[0])
        } else {
            None
        },
        _ => None,
    }
}

pub open spec fn str_or(v: Option<Seq<char>>, default: Seq<char>) -> Seq<char> {
    match v {
        Some(s) => s,
        None => default,
    }
}

/// Name, version, first author and description of the `[package]` table
/// of a `Cargo.toml`, with `0.1.0` and empty texts standing in for what is
/// not given as a string; or the error when the table or its name is
/// missing.
pub open spec fn cargo_package(doc: TomlValue) -> Result<(Seq<char>, Seq<char>, Seq<char>, Seq<char>), Seq<char>> {
    let pkg = toml_get(Some(doc), "package"@);
    if pkg is None {
        Err("Cargo.toml missing [package] section"@)
    } else {
        match toml_str(toml_get(pkg, "name"@)) {
            None => Err("Cargo.toml missing package.name"@),
            Some(name) => Ok((
                name,
                str_or(toml_str(toml_get(pkg, "version"@)), "0.1.0"@),
                str_or(toml_str(toml_first(toml_get(pkg, "authors"@))), ""@),
                str_or(toml_str(toml_get(pkg, "description"@)), ""@),
            )),
        }
    }
}

/// The entry named `key` of a table value.
fn table_get<'a>(v: &'a TomlValue, key: &String) -> (r: Option<&'a TomlValue>)
    ensures
        match r {
            Some(x) => toml_get(Some(*v), key@) == Some(*x),
            None => toml_get(Some(*v), key@) is None,
        },
{
    match v {
        TomlValue::Table(entries) => {
            let mut i: usize = 0;
            assert(entries@.skip(0) =~= entries@);
            while i < entries.len()
                invariant
                    i <= entries@.len(),
                    toml_get(Some(*v), key@) == entry_lookup(entries@, key@),
                    entry_lookup(entries@, key@) == entry_lookup(entries@.skip(i as int), key@),
                decreases entries.len() - i,
            {
                assert(entries@.skip(i as int)[0] == entries@[i as int]);
                if entries[i].0 == *key {
                    assert(entries@[i as int].0@ == key@);
                    assert(entries@.skip(i as int).len() > 0);
                    assert(entry_lookup(entries@.skip(i as int), key@) == Some(entries@[i as int].1));
                    return Some(&entries[i].1);
                }
                assert(entries@.skip(i as int).drop_first() =~= entries@.skip(i + 1));
                i = i + 1;
            }
            None
        },
        _ => None,
    }
}

/// The string held by a value, if it is one.
fn str_value(v: Option<&TomlValue>) -> (r: Option<String>)
    ensures
        match r {
            Some(s) => v is Some && toml_str(Some(*v.unwrap())) == Some(s@),
            None => v is None || toml_str(Some(*v.unwrap())) is None,
        },
{
    match v {
        Some(TomlValue::Str(s)) => Some(owned(s.as_str())),
        _ => None,
    }
}

/// The string held by a value, or `default`.
fn str_value_or(v: Option<&TomlValue>, default: &str) -> (r: String)
    ensures
        r@ == str_or(match v { Some(x) => toml_str(Some(*x)), None => None }, default@),
{
    match str_value(v) {
        Some(s) => s,
        None => owned(default),
    }
}

/// `name` with every `-` replaced by `_`.
pub open spec fn underscored(name: Seq<char>) -> Seq<char> {
    name.map_values(|c: char| if c == '-' { '_' } else { c })
}

/// The default file name of a plugin's library, made from its crate name.
pub fn underscored_name(name: &str) -> (r: String)
    ensures
        r@ == underscored(name@),
{
    let cs = chars_of(name);
    let mut out: Vec<char> = Vec::new();
    let mut i: usize = 0;
    while i < cs.len()
        invariant
            i <= cs@.len(),
            out@ == cs@.take(i as int).map_values(|c: char| if c == '-' { '_' } else { c }),
        decreases cs.len() - i,
    {
        let c = cs[i];
        let k = if c == '-' { '_' } else { c };
        out.push(k);
        assert(cs@.take(i + 1).map_values(|c: char| if c == '-' { '_' } else { c })
            =~= cs@.take(i as int).map_values(|c: char| if c == '-' { '_' } else { c }).push(k));
        i = i + 1;
    }
    assert(cs@.take(cs@.len() as int) == cs@);
    string_of(&out)
}

/// A packager's settings as values.
pub struct PackagerView {
    pub name: Seq<char>,
    pub author: Seq<char>,
    pub version: Seq<char>,
    pub description: Seq<char>,
    pub github_link: Seq<char>,
    pub dll_name: Seq<char>,
    pub dll_path: Option<Seq<char>>,
    pub extra_dirs: Seq<Seq<char>>,
    pub signing_key: Option<ed25519_dalek::SigningKey>,
    pub output: Option<Seq<char>>,
}

pub open spec fn opt_text(o: Option<String>) -> Option<Seq<char>> {
    match o {
        Some(s) => Some(s@),
        None => None,
    }
}

/// The settings of a fresh packager for the plugin `name`: no repository
/// link, library named after the crate, nothing included, no key and the
/// default output.
pub open spec fn fresh_settings(name: Seq<char>, version: Seq<char>, author: Seq<char>, description: Seq<char>)
    -> PackagerView {
    PackagerView {
        name,
        author,
        version,
        description,
        github_link: Seq::empty(),
        dll_name: underscored(name),
        dll_path: None,
        extra_dirs: Seq::empty(),
        signing_key: None,
        output: None,
    }
}

/// A packager made from a `Cargo.toml` whose name, version, first author
/// and description are not blank passes the manifest check of
/// `manifest_for`: it leaves the repository link empty, and the check does
/// not ask for one.
pub proof fn cargo_packager_passes_check(doc: TomlValue)
    requires
        cargo_package(doc) matches Ok((n, v, a, d)) && trim(n).len() > 0 && trim(v).len() > 0
            && trim(a).len() > 0 && trim(d).len() > 0,
    ensures
        cargo_package(doc) matches Ok((n, v, a, d)) && ({
            let p = fresh_settings(n, v, a, d);
            &&& missing_package_field(p.name, p.author, p.version, p.description) is None
            &&& p.github_link.len() == 0
        }),
{
}

/// The settings of a plugin package: what goes into its manifest, which
/// library and directories it holds, the key it is signed with and where
/// the archive goes.
pub struct PluginPackager {
    name: String,
    author: String,
    version: String,
    description: String,
    github_link: String,
    dll_name: String,
    dll_path: Option<String>,
    extra_dirs: Vec<String>,
    signing_key: Option<ed25519_dalek::SigningKey>,
    output: Option<String>,
}

impl View for PluginPackager {
    type V = PackagerView;

    closed spec fn view(&self) -> PackagerView {
        PackagerView {
            name: self.name@,
            author: self.author@,
            version: self.version@,
            description: self.description@,
            github_link: self.github_link@,
            dll_name: self.dll_name@,
            dll_path: opt_text(self.dll_path),
            extra_dirs: self.extra_dirs@.map_values(|s: String| s@),
            signing_key: self.signing_key,
            output: opt_text(self.output),
        }
    }
}

impl PluginPackager {
    /// A packager made from the `[package]` table of a parsed `Cargo.toml`.
    pub fn from_cargo_toml(doc: &TomlValue) -> (r: Result<PluginPackager, String>)
        ensures
            match cargo_package(*doc) {
                Ok((name, version, author, description)) => r matches Ok(p)
                    && p@ == fresh_settings(name, version, author, description),
                Err(e) => r matches Err(m) && m@ == e,
            },
    {
        let package_key = owned("package");
        let pkg = match table_get(doc, &package_key) {
            Some(p) => p,
            None => return Err(owned("Cargo.toml missing [package] section")),
        };
        let name_key = owned("name");
        let name = match str_value(table_get(pkg, &name_key)) {
            Some(n) => n,
            None => return Err(owned("Cargo.toml missing package.name")),
        };
        let version_key = owned("version");
        let version = str_value_or(table_get(pkg, &version_key), "0.1.0");
        let authors_key = owned("authors");
        let first_author: Option<&TomlValue> = match table_get(pkg, &authors_key) {
            Some(TomlValue::Array(items)) => if items.len() > 0 { Some(&items[0]) } else { None },
            _ => None,
        };
        let author = str_value_or(first_author, "");
        let description_key = owned("description");
        let description = str_value_or(table_get(pkg, &description_key), "");
        let github_link = String::new();
        let dll_name = underscored_name(name.as_str());
        let r = PluginPackager {
            name,
            author,
            version,
            description,
            github_link,
            dll_name,
            dll_path: None,
            extra_dirs: Vec::new(),
            signing_key: None,
            output: None,
        };
        assert(r@.extra_dirs =~= Seq::<Seq<char>>::empty());
        Ok(r)
    }

    /// A packager made from the text of a plugin's `Cargo.toml`.
    pub fn from_cargo_text(contents: &str) -> (r: Result<PluginPackager, String>)
        ensures
            match toml_document(contents@) {
                Err(e) => r matches Err(m) && m@ == "Cannot parse Cargo.toml: "@ + e,
                Ok(doc) => match cargo_package(doc) {
                    Ok((name, version, author, description)) => r matches Ok(p)
                        && p@ == fresh_settings(name, version, author, description),
                    Err(e) => r matches Err(m) && m@ == e,
                },
            },
    {
        match parse_toml(contents) {
            Ok(doc) => PluginPackager::from_cargo_toml(&doc),
            Err(e) => Err(concat2("Cannot parse Cargo.toml: ", e.as_str())),
        }
    }

    /// A packager for the plugin `name`, at version 0.1.0.
    pub fn new(name: &str) -> (r: PluginPackager)
        ensures
            r@ == fresh_settings(name@, "0.1.0"@, Seq::empty(), Seq::empty()),
    {
        let r = PluginPackager {
            name: owned(name),
            author: String::new(),
            version: owned("0.1.0"),
            description: String::new(),
            github_link: String::new(),
            dll_name: underscored_name(name),
            dll_path: None,
            extra_dirs: Vec::new(),
            signing_key: None,
            output: None,
        };
        assert(r@.extra_dirs =~= Seq::<Seq<char>>::empty());
        r
    }

    /// Sets the plugin author.
    pub fn author(&mut self, v: &str) -> (r: &mut Self)
        ensures
            (*r)@ == (PackagerView { author: v@, ..old(self)@ }),
            *final(self) == *final(r),
    {
        self.author = owned(v);
        self
    }

    /// Sets the plugin version.
    pub fn version(&mut self, v: &str) -> (r: &mut Self)
        ensures
            (*r)@ == (PackagerView { version: v@, ..old(self)@ }),
            *final(self) == *final(r),
    {
        self.version = owned(v);
        self
    }

    /// Sets the plugin description.
    pub fn description(&mut self, v: &str) -> (r: &mut Self)
        ensures
            (*r)@ == (PackagerView { description: v@, ..old(self)@ }),
            *final(self) == *final(r),
    {
        self.description = owned(v);
        self
    }

    /// Sets the link to the plugin's repository.
    pub fn github_link(&mut self, v: &str) -> (r: &mut Self)
        ensures
            (*r)@ == (PackagerView { github_link: v@, ..old(self)@ }),
            *final(self) == *final(r),
    {
        self.github_link = owned(v);
        self
    }

    /// Overrides the library's file name (without its extension).
    pub fn dll_name(&mut self, name: &str) -> (r: &mut Self)
        ensures
            (*r)@ == (PackagerView { dll_name: name@, ..old(self)@ }),
            *final(self) == *final(r),
    {
        self.dll_name = owned(name);
        self
    }

    /// Overrides the path of the built library.
    pub fn dll_path(&mut self, path: &str) -> (r: &mut Self)
        ensures
            (*r)@ == (PackagerView { dll_path: Some(path@), ..old(self)@ }),
            *final(self) == *final(r),
    {
        self.dll_path = Some(owned(path));
        self
    }

    /// Adds a directory of the project to the package.
    pub fn include_dir(&mut self, dir: &str) -> (r: &mut Self)
        ensures
            (*r)@ == (PackagerView { extra_dirs: old(self)@.extra_dirs.push(dir@), ..old(self)@ }),
            *final(self) == *final(r),
    {
        let ghost before = self.extra_dirs@;
        self.extra_dirs.push(owned(dir));
        assert(self.extra_dirs@.map_values(|s: String| s@)
            =~= before.map_values(|s: String| s@).push(dir@));
        self
    }

    /// Signs with the key given as 64 keypair bytes; a keypair that
    /// `ed25519_dalek` refuses leaves the key as it was.
    pub fn signing_key_bytes(&mut self, key_bytes: &[u8; 64]) -> (r: &mut Self)
        ensures
            (*r)@ == match keypair_signing_key(key_bytes@) {
                Some(k) => (PackagerView { signing_key: Some(k), ..old(self)@ }),
                None => old(self)@,
            },
            *final(self) == *final(r),
    {
        match signing_key_from_keypair(key_bytes) {
            Some(k) => {
                self.signing_key = Some(k);
            },
            None => {},
        }
        self
    }

    /// Whether the package will be signed: a signing key was accepted.
    pub fn has_signing_key(&self) -> (r: bool)
        ensures
            r == (self@.signing_key is Some),
    {
        self.signing_key.is_some()
    }

    /// Sets the path of the package to write.
    pub fn output(&mut self, path: &str) -> (r: &mut Self)
        ensures
            (*r)@ == (PackagerView { output: Some(path@), ..old(self)@ }),
            *final(self) == *final(r),
    {
        self.output = Some(owned(path));
        self
    }

    /// Where the package is written: the output path if one was set, else
    /// `target/<name>-<version>.zip`.
    pub fn output_path(&self) -> (r: String)
        ensures
            r@ == match self@.output {
                Some(p) => p,
                None => "target/"@ + self@.name + "-"@ + self@.version + ".zip"@,
            },
    {
        match &self.output {
            Some(p) => p.clone(),
            None => {
                let mut r = owned("target/");
                push_str(&mut r, self.name.as_str());
                push_str(&mut r, "-");
                push_str(&mut r, self.version.as_str());
                push_str(&mut r, ".zip");
                r
            },
        }
    }

    /// Where a release build leaves the plugin's Windows library.
    pub fn release_dll_path(&self) -> (r: String)
        ensures
            r@ == "target/release/"@ + self@.dll_name + ".dll"@,
    {
        let mut r = owned("target/release/");
        push_str(&mut r, self.dll_name.as_str());
        push_str(&mut r, ".dll");
        r
    }

    /// Where a release build leaves the plugin's library on Linux and macOS.
    pub fn release_so_path(&self) -> (r: String)
        ensures
            r@ == "target/release/lib"@ + self@.dll_name + ".so"@,
    {
        let mut r = owned("target/release/lib");
        push_str(&mut r, self.dll_name.as_str());
        push_str(&mut r, ".so");
        r
    }

    /// Finds the built library, given which of the candidate paths exist:
    /// the path set with `dll_path` if there is one (and only it), else the
    /// release `.dll`, else the release `.so`.
    pub fn locate_dll(&self, dll_path_exists: bool, release_dll_exists: bool, release_so_exists: bool)
        -> (r: Result<String, String>)
        ensures
            match self@.dll_path {
                Some(p) => if dll_path_exists {
                    r matches Ok(q) && q@ == p
                } else {
                    r matches Err(e) && e@ == "Specified DLL path does not exist: "@ + p
                },
                None => if release_dll_exists {
                    r matches Ok(q) && q@ == "target/release/"@ + self@.dll_name + ".dll"@
                } else if release_so_exists {
                    r matches Ok(q) && q@ == "target/release/lib"@ + self@.dll_name + ".so"@
                } else {
                    r matches Err(e) && e@ == "Cannot find built DLL. Expected at '"@
                        + "target/release/"@ + self@.dll_name + ".dll"@ + "' or '"@
                        + "target/release/lib"@ + self@.dll_name + ".so"@
                        + "'. Make sure 'cargo build --release' completed successfully."@
                },
            },
    {
        if let Some(p) = &self.dll_path {
            if dll_path_exists {
                return Ok(p.clone());
            }
            return Err(concat2("Specified DLL path does not exist: ", p.as_str()));
        }
        let release_dll = self.release_dll_path();
        if release_dll_exists {
            return Ok(release_dll);
        }
        let release_so = self.release_so_path();
        if release_so_exists {
            return Ok(release_so);
        }
        let mut e = owned("Cannot find built DLL. Expected at '");
        push_str(&mut e, release_dll.as_str());
        push_str(&mut e, "' or '");
        push_str(&mut e, release_so.as_str());
        push_str(&mut e, "'. Make sure 'cargo build --release' completed successfully.");
        Err(e)
    }

    /// The unsigned manifest of a package whose libraries hash to
    /// `dll_hashes`, checked before it is written: name, author, version
    /// and description must be filled; the repository link is carried over
    /// as it was set, and left empty when it never was.
    pub fn manifest_for(&self, dll_hashes: Vec<String>) -> (r: Result<PluginManifest, String>)
        ensures
            match missing_package_field(self@.name, self@.author, self@.version, self@.description) {
                None => r matches Ok(m) && m.name@ == self@.name && m.author@ == self@.author
                    && m.version@ == self@.version && m.description@ == self@.description
                    && m.github_link@ == self@.github_link && m.signature is None
                    && m.dll_hashes == Some(dll_hashes),
                Some(e) => r matches Err(msg) && msg@ == "Invalid manifest: "@ + e,
            },
    {
        let m = PluginManifest {
            name: self.name.clone(),
            author: self.author.clone(),
            version: self.version.clone(),
            description: self.description.clone(),
            github_link: self.github_link.clone(),
            signature: None,
            dll_hashes: Some(dll_hashes),
        };
        match check_package_fields(m.name.as_str(), m.author.as_str(), m.version.as_str(), m.description.as_str()) {
            Ok(()) => Ok(m),
            Err(e) => Err(concat2("Invalid manifest: ", e.as_str())),
        }
    }
}

} // verus!
