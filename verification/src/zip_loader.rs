//! Installing a plugin package: the manifest the host reads from it, the
//! entries a package must hold, and which entry names are safe to extract.

use vstd::prelude::*;
use crate::manifest::{check_required_fields, missing_field, safe_dir_name_of, safe_dir_name_spec};
use crate::text::{chars_of, concat3, owned};

verus! {

/// Longest file name component, in bytes, that extraction accepts.
pub const MAX_FILENAME_COMPONENT: usize = 255;

/// The manifest fields the host reads from `plugin.yml`.
pub struct PluginManifest {
    pub name: String,
    pub author: String,
    pub version: String,
    pub description: String,
    pub github_link: String,
}

impl PluginManifest {
    /// Checks that the required fields are not blank.
    pub fn validate(&self) -> (r: Result<(), String>)
        ensures
            match missing_field(self.name@, self.author@, self.version@, self.description@, self.github_link@) {
                None => r is Ok,
                Some(m) => r matches Err(e) && e@ == m,
            },
    {
        check_required_fields(
            self.name.as_str(),
            self.author.as_str(),
            self.version.as_str(),
            self.description.as_str(),
            self.github_link.as_str(),
        )
    }

    /// A directory name made from the plugin name.
    pub fn safe_dir_name(&self) -> (r: String)
        ensures
            r@ == safe_dir_name_spec(self.name@),
    {
        safe_dir_name_of(self.name.as_str())
    }
}

/// `s` ends with `suffix`.
pub open spec fn ends_with(s: Seq<char>, suffix: Seq<char>) -> bool {
    suffix.len() <= s.len() && s.subrange(s.len() - suffix.len(), s.len() as int) == suffix
}

fn ends_with_chars(s: &Vec<char>, suffix: &Vec<char>) -> (r: bool)
    ensures
        r == ends_with(s@, suffix@),
{
    if suffix.len() > s.len() {
        return false;
    }
    let off = s.len() - suffix.len();
    let mut i: usize = 0;
    while i < suffix.len()
        invariant
            off == s.len() - suffix.len(),
            i <= suffix.len(),
            forall|j: int| 0 <= j < i ==> s@[off + j] == suffix@[j],
        decreases suffix.len() - i,
    {
        if s[off + i] != suffix[i] {
            assert(s@.subrange(off as int, s@.len() as int)[i as int] != suffix@[i as int]);
            return false;
        }
        i = i + 1;
    }
    assert(s@.subrange(off as int, s@.len() as int) =~= suffix@);
    true
}

/// A package must hold `plugin.yml` and at least one `.dll` file; the
/// missing manifest is reported first.
pub open spec fn package_listing_error(names: Seq<Seq<char>>) -> Option<Seq<char>> {
    if !(exists|i: int| 0 <= i < names.len() && names[i] == "plugin.yml"@) {
        Some("Missing plugin.yml in zip"@)
    } else if !(exists|i: int| 0 <= i < names.len() && ends_with(names[i], ".dll"@)) {
        Some("Missing .dll in zip"@)
    } else {
        None
    }
}

/// Checks the entry names of a plugin package.
pub fn check_package_listing(names: &Vec<String>) -> (r: Result<(), String>)
    ensures
        match package_listing_error(names@.map_values(|s: String| s@)) {
            None => r is Ok,
            Some(m) => r matches Err(e) && e@ == m,
        },
{
    let ghost ns = names@.map_values(|s: String| s@);
    let yml = chars_of("plugin.yml");
    let dll = chars_of(".dll");
    let mut has_yml = false;
    let mut has_dll = false;
    let mut i: usize = 0;
    while i < names.len()
        invariant
            i <= names@.len(),
            ns == names@.map_values(|s: String| s@),
            yml@ == "plugin.yml"@,
            dll@ == ".dll"@,
            has_yml <==> exists|j: int| 0 <= j < i && ns[j] == "plugin.yml"@,
            has_dll <==> exists|j: int| 0 <= j < i && ends_with(ns[j], ".dll"@),
        decreases names.len() - i,
    {
        let n = chars_of(names[i].as_str());
        assert(n@ == ns[i as int]);
        if crate::lyrics::chars_equal(&n, &yml) {
            has_yml = true;
        }
        if ends_with_chars(&n, &dll) {
            has_dll = true;
        }
        i = i + 1;
    }
    if !has_yml {
        return Err(owned("Missing plugin.yml in zip"));
    }
    if !has_dll {
        return Err(owned("Missing .dll in zip"));
    }
    Ok(())
}

/// `s` split at every `/` and every `\`.
pub open spec fn path_components(s: Seq<char>) -> Seq<Seq<char>>
    decreases s.len(),
{
    if s.len() == 0 {
        seq![Seq::<char>::empty()]
    } else {
        let r = path_components(s.drop_last());
        if s.last() == '/' || s.last() == '\\' {
            r.push(Seq::<char>::empty())
        } else {
            r.update(r.len() - 1, r.last().push(s.last()))
        }
    }
}

proof fn lemma_path_components_len(s: Seq<char>)
    ensures
        path_components(s).len() >= 1,
    decreases s.len(),
{
    if s.len() > 0 {
        lemma_path_components_len(s.drop_last());
    }
}

/// An entry path that could leave the plugin directory or name a stream:
/// a `..` component, a leading `/` or `\`, a `:`, or an empty name.
pub open spec fn unsafe_entry_path(name: Seq<char>) -> bool {
    ||| exists|i: int| 0 <= i < path_components(name).len() && path_components(name)[i] == ".."@
    ||| (name.len() > 0 && (name[0] == '/' || name[0] == '\\'))
    ||| name.contains(':')
    ||| name.len() == 0
}

/// An entry path with a component longer than `MAX_FILENAME_COMPONENT` bytes.
pub open spec fn overlong_entry_path(name: Seq<char>) -> bool {
    exists|i: int| 0 <= i < path_components(name).len()
        && vstd::utf8::encode_utf8(#[trigger] path_components(name)[i]).len() > 255
}

/// The refusal for an archive entry, if any, in the order the checks run.
pub open spec fn entry_refusal(name: Seq<char>, is_symlink: bool) -> Option<Seq<char>> {
    if is_symlink {
        Some("Zip entry '"@ + name + "' is a symlink, refusing to extract"@)
    } else if unsafe_entry_path(name) {
        Some("Zip entry '"@ + name + "' has unsafe path"@)
    } else if overlong_entry_path(name) {
        Some("Zip entry '"@ + name + "' exceeds max filename component length"@)
    } else {
        None
    }
}

fn path_components_chars(s: &Vec<char>) -> (r: Vec<Vec<char>>)
    ensures
        r@.len() == path_components(s@).len(),
        forall|i: int| 0 <= i < r@.len() ==> (#[trigger] r@[i])@ == path_components(s@)[i],
{
    let mut done: Vec<Vec<char>> = Vec::new();
    let mut cur: Vec<char> = Vec::new();
    let mut i: usize = 0;
    assert(s@.take(0) =~= Seq::<char>::empty());
    while i < s.len()
        invariant
            i <= s.len(),
            done@.len() + 1 == path_components(s@.take(i as int)).len(),
            forall|j: int| 0 <= j < done@.len() ==> (#[trigger] done@[j])@ == path_components(s@.take(i as int))[j],
            cur@ == path_components(s@.take(i as int)).last(),
        decreases s.len() - i,
    {
        let c = s[i];
        let ghost prev = s@.take(i as int);
        assert(s@.take(i + 1).drop_last() == prev);
        assert(s@.take(i + 1).last() == c);
        proof { lemma_path_components_len(prev); }
        if c == '/' || c == '\\' {
            done.push(cur);
            cur = Vec::new();
        } else {
            cur.push(c);
        }
        i = i + 1;
    }
    assert(s@.take(s.len() as int) == s@);
    done.push(cur);
    done
}

/// Whether the UTF-8 encoding of `s` is longer than 255 bytes.
fn utf8_longer_than_max(s: &Vec<char>) -> (r: bool)
    ensures
        r == (vstd::utf8::encode_utf8(s@).len() > 255),
{
    let mut acc: u64 = 0;
    let mut i: usize = 0;
    assert(s@.subrange(0, s@.len() as int) == s@);
    while i < s.len()
        invariant
            i <= s.len(),
            acc <= 255,
            acc + vstd::utf8::encode_utf8(s@.subrange(i as int, s@.len() as int)).len()
                == vstd::utf8::encode_utf8(s@).len(),
        decreases s.len() - i,
    {
        let ghost suf = s@.subrange(i as int, s@.len() as int);
        proof { crate::lyrics::lemma_encode_len(suf); }
        assert(suf.drop_first() == s@.subrange(i + 1, s@.len() as int));
        assert(suf[0] == s@[i as int]);
        let v = s[i] as u32;
        let w: u64 = if v <= 0x7f { 1 } else if v <= 0x7ff { 2 } else if v <= 0xffff && !(0xd800 <= v && v <= 0xdfff) { 3 } else { 4 };
        assert(w == crate::lyrics::utf8_width(s@[i as int]));
        if acc + w > 255 {
            return true;
        }
        acc = acc + w;
        i = i + 1;
    }
    assert(s@.subrange(s@.len() as int, s@.len() as int) =~= Seq::<char>::empty());
    false
}

/// Checks one archive entry before extraction: no symbolic links, no path
/// that could escape the plugin directory, no overlong name component.
pub fn check_entry(name: &str, is_symlink: bool) -> (r: Result<(), String>)
    ensures
        match entry_refusal(name@, is_symlink) {
            None => r is Ok,
            Some(m) => r matches Err(e) && e@ == m,
        },
{
    if is_symlink {
        return Err(concat3("Zip entry '", name, "' is a symlink, refusing to extract"));
    }
    let cs = chars_of(name);
    let comps = path_components_chars(&cs);
    let dotdot = chars_of("..");
    let mut bad = false;
    let mut i: usize = 0;
    while i < comps.len()
        invariant
            i <= comps@.len() == path_components(cs@).len(),
            forall|j: int| 0 <= j < comps@.len() ==> (#[trigger] comps@[j])@ == path_components(cs@)[j],
            dotdot@ == ".."@,
            bad <==> exists|j: int| 0 <= j < i && path_components(cs@)[j] == ".."@,
        decreases comps.len() - i,
    {
        if crate::lyrics::chars_equal(&comps[i], &dotdot) {
            bad = true;
        }
        i = i + 1;
    }
    let mut has_colon = false;
    let mut k: usize = 0;
    while k < cs.len()
        invariant
            k <= cs@.len(),
            has_colon <==> exists|j: int| 0 <= j < k && cs@[j] == ':',
        decreases cs.len() - k,
    {
        if cs[k] == ':' {
            has_colon = true;
        }
        k = k + 1;
    }
    if bad || (cs.len() > 0 && (cs[0] == '/' || cs[0] == '\\')) || has_colon || cs.len() == 0 {
        return Err(concat3("Zip entry '", name, "' has unsafe path"));
    }
    assert(!unsafe_entry_path(cs@));
    let mut j: usize = 0;
    while j < comps.len()
        invariant
            j <= comps@.len() == path_components(cs@).len(),
            forall|t: int| 0 <= t < comps@.len() ==> (#[trigger] comps@[t])@ == path_components(cs@)[t],
            forall|t: int| 0 <= t < j ==> vstd::utf8::encode_utf8(#[trigger] path_components(cs@)[t]).len() <= 255,
            !unsafe_entry_path(cs@),
            cs@ == name@,
            !is_symlink,
        decreases comps.len() - j,
    {
        if utf8_longer_than_max(&comps[j]) {
            assert(vstd::utf8::encode_utf8(path_components(cs@)[j as int]).len() > 255);
            return Err(concat3("Zip entry '", name, "' exceeds max filename component length"));
        }
        j = j + 1;
    }
    Ok(())
}

} // verus!
