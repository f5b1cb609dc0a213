//! Localisation tables: `.lang` files of `key = value` lines, lookups with
//! the key itself as fallback, and the choice of the language to load.

use vstd::prelude::*;
use crate::text::{chars_of, owned, split, split_chars, split_once, string_of, trim, trim_chars};
use crate::lyrics::{chars_equal, split_once_chars};

verus! {

/// The table of the lines `lines`: each line holding `=` maps its trimmed
/// text before the first `=` to its trimmed text after it; a later line
/// wins over an earlier one with the same key; other lines are ignored.
pub open spec fn table_of_lines(lines: Seq<Seq<char>>) -> Map<Seq<char>, Seq<char>>
    decreases lines.len(),
{
    if lines.len() == 0 {
        Map::empty()
    } else {
        let m = table_of_lines(lines.drop_last());
        match split_once(lines.last(), '=') {
            Some((k, v)) => m.insert(trim(k), trim(v)),
            None => m,
        }
    }
}

/// The translation table of the text of a `.lang` file.
pub open spec fn lang_table(content: Seq<char>) -> Map<Seq<char>, Seq<char>> {
    table_of_lines(split(content, '\n'))
}

/// A language with its translation table.
pub struct I18n {
    current_lang: String,
    translations: Vec<(String, String)>,
}

impl I18n {
    /// The translations hold each key once.
    pub closed spec fn wf(&self) -> bool {
        forall|i: int, j: int| 0 <= i < j < self.translations@.len() ==> self.translations@[i].0@
            != self.translations@[j].0@
    }

    /// The current language.
    pub closed spec fn lang(&self) -> Seq<char> {
        self.current_lang@
    }

    /// The translation table.
    pub closed spec fn table(&self) -> Map<Seq<char>, Seq<char>> {
        Map::new(
            |k: Seq<char>| exists|i: int| 0 <= i < self.translations@.len() && self.translations@[i].0@ == k,
            |k: Seq<char>| self.translations@[choose|i: int| 0 <= i < self.translations@.len() && self.translations@[i].0@ == k].1@,
        )
    }

    /// English with an empty table.
    pub fn new() -> (r: I18n)
        ensures
            r.wf(),
            r.lang() == "en"@,
            r.table() == Map::<Seq<char>, Seq<char>>::empty(),
    {
        let r = I18n { current_lang: owned("en"), translations: Vec::new() };
        assert(r.table() =~= Map::<Seq<char>, Seq<char>>::empty());
        r
    }

    fn set_entry(&mut self, key: String, value: String)
        requires
            old(self).wf(),
        ensures
            final(self).wf(),
            final(self).table() == old(self).table().insert(key@, value@),
            final(self).lang() == old(self).lang(),
    {
        let ghost old_t = self.translations@;
        let mut i: usize = 0;
        while i < self.translations.len()
            invariant
                i <= self.translations@.len(),
                self.translations@ == old_t,
                old_t == old(self).translations@,
                self.current_lang == old(self).current_lang,
                self.wf(),
                old(self).wf(),
                forall|j: int| 0 <= j < i ==> self.translations@[j].0@ != key@,
            decreases self.translations.len() - i,
        {
            if self.translations[i].0 == key {
                let ghost before = self.translations@;
                let ghost kv = key@;
                self.translations.set(i, (key, value));
                proof {
                    let t2 = self.translations@;
                    assert forall|a: int, b: int| 0 <= a < b < t2.len() implies t2[a].0@ != t2[b].0@ by {
                        if a != i && b != i {
                            assert(t2[a] == before[a] && t2[b] == before[b]);
                        } else if a == i {
                            assert(t2[b] == before[b]);
                            assert(before[i as int].0@ == kv);
                        } else {
                            assert(t2[a] == before[a]);
                            assert(before[i as int].0@ == kv);
                        }
                    }
                    assert(self.table() =~= old(self).table().insert(kv, value@)) by {
                        assert forall|k: Seq<char>| #[trigger] self.table().contains_key(k)
                            == old(self).table().insert(kv, value@).contains_key(k) by {
                            if k != kv && old(self).table().contains_key(k) {
                                let j = choose|j: int| 0 <= j < before.len() && before[j].0@ == k;
                                assert(t2[j].0@ == k);
                            }
                            if k != kv && self.table().contains_key(k) {
                                let j = choose|j: int| 0 <= j < t2.len() && t2[j].0@ == k;
                                assert(before[j].0@ == k);
                            }
                            if k == kv {
                                assert(t2[i as int].0@ == k);
                            }
                        }
                        assert forall|k: Seq<char>| #[trigger] self.table().contains_key(k) implies self.table()[k]
                            == old(self).table().insert(kv, value@)[k] by {
                            let j = choose|j: int| 0 <= j < t2.len() && t2[j].0@ == k;
                            if k == kv {
                                assert(t2[i as int].0@ == k);
                            } else {
                                assert(before[j].0@ == k);
                                let j2 = choose|j2: int| 0 <= j2 < before.len() && before[j2].0@ == k;
                                assert(t2[j2].0@ == k);
                            }
                        }
                    }
                }
                return;
            }
            i = i + 1;
        }
        let ghost before = self.translations@;
        let ghost kv = key@;
        self.translations.push((key, value));
        proof {
            let t2 = self.translations@;
            assert forall|a: int, b: int| 0 <= a < b < t2.len() implies t2[a].0@ != t2[b].0@ by {
                if b < before.len() {
                    assert(t2[a] == before[a] && t2[b] == before[b]);
                } else {
                    assert(t2[a] == before[a]);
                }
            }
            assert(self.table() =~= old(self).table().insert(kv, value@)) by {
                assert forall|k: Seq<char>| #[trigger] self.table().contains_key(k)
                    == old(self).table().insert(kv, value@).contains_key(k) by {
                    if k != kv && old(self).table().contains_key(k) {
                        let j = choose|j: int| 0 <= j < before.len() && before[j].0@ == k;
                        assert(t2[j].0@ == k);
                    }
                    if k != kv && self.table().contains_key(k) {
                        let j = choose|j: int| 0 <= j < t2.len() && t2[j].0@ == k;
                        assert(before[j].0@ == k);
                    }
                    if k == kv {
                        assert(t2[before.len() as int].0@ == k);
                    }
                }
                assert forall|k: Seq<char>| #[trigger] self.table().contains_key(k) implies self.table()[k]
                    == old(self).table().insert(kv, value@)[k] by {
                    let j = choose|j: int| 0 <= j < t2.len() && t2[j].0@ == k;
                    if k == kv {
                        assert(t2[before.len() as int].0@ == k);
                    } else {
                        assert(before[j].0@ == k);
                        let j2 = choose|j2: int| 0 <= j2 < before.len() && before[j2].0@ == k;
                        assert(t2[j2].0@ == k);
                    }
                }
            }
        }
    }

    /// Switches to `lang` with the translations of the `.lang` text `content`.
    pub fn load(&mut self, lang: &str, content: &str)
        requires
            old(self).wf(),
        ensures
            final(self).wf(),
            final(self).lang() == lang@,
            final(self).table() == lang_table(content@),
    {
        self.current_lang = owned(lang);
        self.translations = Vec::new();
        assert(self.table() =~= Map::<Seq<char>, Seq<char>>::empty());
        let cs = chars_of(content);
        let lines = split_chars(&cs, '\n');
        let ghost ls = split(cs@, '\n');
        let mut i: usize = 0;
        assert(ls.take(0) =~= Seq::<Seq<char>>::empty());
        while i < lines.len()
            invariant
                i <= lines@.len() == ls.len(),
                forall|j: int| 0 <= j < lines@.len() ==> (#[trigger] lines@[j])@ == ls[j],
                ls == split(content@, '\n'),
                self.wf(),
                self.current_lang@ == lang@,
                self.table() == table_of_lines(ls.take(i as int)),
            decreases lines.len() - i,
        {
            assert(ls.take(i + 1).drop_last() =~= ls.take(i as int));
            assert(ls.take(i + 1).last() == lines@[i as int]@);
            match split_once_chars(&lines[i], '=') {
                Some((k, v)) => {
                    let kt = trim_chars(&k);
                    let vt = trim_chars(&v);
                    self.set_entry(string_of(&kt), string_of(&vt));
                },
                None => {},
            }
            i = i + 1;
        }
        assert(ls.take(lines@.len() as int) == ls);
    }

    /// The translation of `key`, or `key` itself when there is none.
    pub fn get(&self, key: &str) -> (r: String)
        requires
            self.wf(),
        ensures
            r@ == if self.table().contains_key(key@) {
                self.table()[key@]
            } else {
                key@
            },
    {
        let mut i: usize = 0;
        while i < self.translations.len()
            invariant
                i <= self.translations@.len(),
                self.wf(),
                forall|j: int| 0 <= j < i ==> self.translations@[j].0@ != key@,
            decreases self.translations.len() - i,
        {
            if chars_equal(&chars_of(self.translations[i].0.as_str()), &chars_of(key)) {
                proof {
                    let j = choose|j: int| 0 <= j < self.translations@.len() && self.translations@[j].0@ == key@;
                    if j != i {
                        assert(self.translations@[j].0@ != self.translations@[i as int].0@);
                    }
                }
                return self.translations[i].1.clone();
            }
            i = i + 1;
        }
        owned(key)
    }
}

/// The language a configured language names: the system language for
/// `auto`, the configured one otherwise.
pub fn target_lang(config_lang: &str, system_lang: &str) -> (r: String)
    ensures
        r@ == if config_lang@ == "auto"@ {
            system_lang@
        } else {
            config_lang@
        },
{
    if chars_equal(&chars_of(config_lang), &chars_of("auto")) {
        owned(system_lang)
    } else {
        owned(config_lang)
    }
}

/// The built-in table used when no `.lang` file is found: Chinese for
/// `zh`, English for any other language.
pub fn fallback_lang(lang: &str) -> (r: String)
    ensures
        r@ == if lang@ == "zh"@ {
            "zh"@
        } else {
            "en"@
        },
{
    if chars_equal(&chars_of(lang), &chars_of("zh")) {
        owned("zh")
    } else {
        owned("en")
    }
}

/// The interface language for a system locale name: Chinese for locales
/// that start with `zh`, English otherwise.
pub fn system_lang_from_locale(locale: &str) -> (r: String)
    ensures
        r@ == if locale@.len() >= 2 && locale@[0] == 'z' && locale@[1] == 'h' {
            "zh"@
        } else {
            "en"@
        },
{
    let cs = chars_of(locale);
    if cs.len() >= 2 && cs[0] == 'z' && cs[1] == 'h' {
        owned("zh")
    } else {
        owned("en")
    }
}

/// Loads the configured language: `content` is the `.lang` text of the
/// language that `target_lang(config_lang, system_lang)` names.
pub fn init_i18n(i18n: &mut I18n, config_lang: &str, system_lang: &str, content: &str)
    requires
        old(i18n).wf(),
    ensures
        final(i18n).wf(),
        final(i18n).lang() == if config_lang@ == "auto"@ {
            system_lang@
        } else {
            config_lang@
        },
        final(i18n).table() == lang_table(content@),
{
    let target = target_lang(config_lang, system_lang);
    i18n.load(target.as_str(), content);
}

/// Switches to `lang` with the translations of `content`.
pub fn set_lang(i18n: &mut I18n, lang: &str, content: &str)
    requires
        old(i18n).wf(),
    ensures
        final(i18n).wf(),
        final(i18n).lang() == lang@,
        final(i18n).table() == lang_table(content@),
{
    i18n.load(lang, content);
}

/// The current language.
pub fn current_lang(i18n: &I18n) -> (r: String)
    ensures
        r@ == i18n.lang(),
{
    i18n.current_lang.clone()
}

/// The translation of `key` in the current language, or `key` itself.
pub fn tr(i18n: &I18n, key: &str) -> (r: String)
    requires
        i18n.wf(),
    ensures
        r@ == if i18n.table().contains_key(key@) {
            i18n.table()[key@]
        } else {
            key@
        },
{
    i18n.get(key)
}

} // verus!
