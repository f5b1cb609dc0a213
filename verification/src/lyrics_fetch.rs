//! Decisions of the lyric search: which local files to try, which online
//! lookups to make in which order, and which search result to accept.

use vstd::prelude::*;
use crate::lyrics::{lines_of_table, lyric_table, parse_lyrics, query_matches_song, query_matches_spec, LyricLine};
use crate::text::{chars_of, concat2, concat3, owned, push_str, lower_text, string_of, to_lowercase, trim};
use crate::lyrics::chars_equal;

verus! {

/// A character that file names may not hold.
pub open spec fn forbidden_in_file_name(c: char) -> bool {
    c == '\\' || c == '/' || c == ':' || c == '*' || c == '?' || c == '"' || c == '<' || c == '>' || c == '|'
}

/// `s` without the characters that file names may not hold.
pub open spec fn sanitize(s: Seq<char>) -> Seq<char>
    decreases s.len(),
{
    if s.len() == 0 {
        s
    } else if forbidden_in_file_name(s.last()) {
        sanitize(s.drop_last())
    } else {
        sanitize(s.drop_last()).push(s.last())
    }
}

fn sanitize_chars(s: &str) -> (r: String)
    ensures
        r@ == sanitize(s@),
{
    let cs = chars_of(s);
    let mut out: Vec<char> = Vec::new();
    let mut i: usize = 0;
    assert(cs@.take(0) =~= Seq::<char>::empty());
    while i < cs.len()
        invariant
            i <= cs@.len(),
            out@ == sanitize(cs@.take(i as int)),
        decreases cs.len() - i,
    {
        assert(cs@.take(i + 1).drop_last() == cs@.take(i as int));
        let c = cs[i];
        if !(c == '\\' || c == '/' || c == ':' || c == '*' || c == '?' || c == '"' || c == '<' || c == '>' || c
            == '|') {
            out.push(c);
        }
        i = i + 1;
    }
    assert(cs@.take(cs@.len() as int) == cs@);
    string_of(&out)
}

/// The local `.lrc` file names to try, in order: `{artist} - {title}.lrc`
/// (when the artist is not empty) and `{title}.lrc`, both without the
/// characters that file names may not hold.
pub fn local_lyric_candidates(title: &str, artist: &str) -> (r: Vec<String>)
    ensures
        sanitize(artist@).len() == 0 ==> r@.len() == 1 && r@[0]@ == sanitize(title@) + ".lrc"@,
        sanitize(artist@).len() > 0 ==> r@.len() == 2 && r@[0]@ == sanitize(artist@) + " - "@ + sanitize(title@)
            + ".lrc"@ && r@[1]@ == sanitize(title@) + ".lrc"@,
{
    let t = sanitize_chars(title);
    let a = sanitize_chars(artist);
    let mut r: Vec<String> = Vec::new();
    if a.as_str().is_empty() {
        r.push(concat2(t.as_str(), ".lrc"));
    } else {
        let mut first = concat3(a.as_str(), " - ", t.as_str());
        push_str(&mut first, ".lrc");
        r.push(first);
        r.push(concat2(t.as_str(), ".lrc"));
    }
    r
}

/// The lyrics of a local file: its lines when it holds any.
pub fn local_lyrics(content: &str) -> (r: Option<Vec<LyricLine>>)
    ensures
        r is Some <==> exists|t: u64| lyric_table(content@, Seq::<char>::empty()).contains_key(t),
        r matches Some(v) ==> lines_of_table(v@, lyric_table(content@, Seq::<char>::empty())),
{
    let lines = parse_lyrics(content, "");
    proof {
        reveal_strlit("");
        assert(""@ =~= Seq::<char>::empty());
    }
    if lines.len() == 0 {
        None
    } else {
        assert(lyric_table(content@, Seq::<char>::empty()).contains_key(lines@[0].time_ms));
        Some(lines)
    }
}

/// One online lyric lookup.
#[derive(Debug, Clone, Copy, PartialEq, Eq, Structural)]
pub enum Lookup {
    /// The `.lrc` files of the local lyrics directory.
    LocalFile,
    /// NetEase search and lyric download, with the artist in the query.
    NeteaseWithArtist,
    /// NetEase search and lyric download, with the title alone.
    NeteaseTitleOnly,
    /// LRCLIB exact lookup by title, artist and duration.
    LrclibGet,
    /// LRCLIB free-text search.
    LrclibSearch,
}

/// The lookups of one source: NetEase with the artist, then (when an
/// artist was given) with the title alone; LRCLIB exact, then search.
pub open spec fn source_plan(lrclib: bool, artist_given: bool) -> Seq<Lookup> {
    if lrclib {
        seq![Lookup::LrclibGet, Lookup::LrclibSearch]
    } else if artist_given {
        seq![Lookup::NeteaseWithArtist, Lookup::NeteaseTitleOnly]
    } else {
        seq![Lookup::NeteaseTitleOnly]
    }
}

/// The online lookups for a track with a title: with a blank artist, only
/// the chosen source (`lrclib`, or NetEase otherwise), by title alone; else
/// the chosen source, then the other one when `fallback` holds.
pub open spec fn online_plan(artist: Seq<char>, source: Seq<char>, fallback: bool) -> Seq<Lookup> {
    let lrclib = source == "lrclib"@;
    if trim(artist).len() == 0 {
        source_plan(lrclib, false)
    } else if fallback {
        source_plan(lrclib, true) + source_plan(!lrclib, true)
    } else {
        source_plan(lrclib, true)
    }
}

/// The lookups for a track, tried in order until one finds lyrics: none
/// without a title; else the local directory first, when one is set and
/// not empty, then the online lookups.
pub open spec fn lookup_plan(title: Seq<char>, artist: Seq<char>, source: Seq<char>, fallback: bool,
    local_dir: Option<Seq<char>>) -> Seq<Lookup> {
    if title.len() == 0 {
        Seq::empty()
    } else if local_dir matches Some(d) && d.len() > 0 {
        seq![Lookup::LocalFile] + online_plan(artist, source, fallback)
    } else {
        online_plan(artist, source, fallback)
    }
}

fn push_source(plan: &mut Vec<Lookup>, lrclib: bool, artist_given: bool)
    ensures
        final(plan)@ == old(plan)@ + source_plan(lrclib, artist_given),
{
    if lrclib {
        plan.push(Lookup::LrclibGet);
        plan.push(Lookup::LrclibSearch);
    } else if artist_given {
        plan.push(Lookup::NeteaseWithArtist);
        plan.push(Lookup::NeteaseTitleOnly);
    } else {
        plan.push(Lookup::NeteaseTitleOnly);
    }
    assert(plan@ =~= old(plan)@ + source_plan(lrclib, artist_given));
}

/// The lookups for a track, in the order they are tried.
pub fn lookup_plan_for(title: &str, artist: &str, source: &str, fallback: bool, local_dir: Option<&str>)
    -> (r: Vec<Lookup>)
    ensures
        r@ == lookup_plan(title@, artist@, source@, fallback, match local_dir {
            Some(d) => Some(d@),
            None => None,
        }),
{
    let mut plan: Vec<Lookup> = Vec::new();
    if title.is_empty() {
        return plan;
    }
    let local = match local_dir {
        Some(d) => !d.is_empty(),
        None => false,
    };
    if local {
        plan.push(Lookup::LocalFile);
    }
    let ghost start = plan@;
    let lrclib = chars_equal(&chars_of(source), &chars_of("lrclib"));
    if crate::manifest::is_blank(artist) {
        push_source(&mut plan, lrclib, false);
    } else {
        push_source(&mut plan, lrclib, true);
        if fallback {
            push_source(&mut plan, !lrclib, true);
        }
    }
    assert(plan@ =~= start + online_plan(artist@, source@, fallback));
    assert(plan@ =~= lookup_plan(title@, artist@, source@, fallback, match local_dir {
        Some(d) => Some(d@),
        None => None,
    }));
    plan
}

/// The text of an online search: the title, followed by a space and the
/// artist when one is given.
pub fn search_query(title: &str, artist: &str) -> (r: String)
    ensures
        r@ == if artist@.len() == 0 {
            title@
        } else {
            title@ + " "@ + artist@
        },
{
    if artist.is_empty() {
        owned(title)
    } else {
        concat3(title, " ", artist)
    }
}

/// One song of a NetEase search result.
pub struct SongHit {
    pub id: Option<i64>,
    pub name: Option<String>,
    pub artist_names: Vec<Option<String>>,
}

/// One of the song's artists is, lowered, `artist_lower`.
pub open spec fn has_artist(s: SongHit, artist_lower: Seq<char>) -> bool {
    exists|j: int| 0 <= j < s.artist_names@.len() && ((#[trigger] s.artist_names@[j]) matches Some(n)
        && lower_text(n@) == artist_lower)
}

/// The id of the first song, in result order, that has the artist and an id.
pub open spec fn first_by_artist(songs: Seq<SongHit>, artist_lower: Seq<char>) -> Option<i64>
    decreases songs.len(),
{
    if songs.len() == 0 {
        None
    } else if has_artist(songs[0], artist_lower) && songs[0].id is Some {
        songs[0].id
    } else {
        first_by_artist(songs.drop_first(), artist_lower)
    }
}

/// The song to take from a NetEase search: the first with the wanted artist
/// (compared lowered), or else the first result, unless its name is
/// unrelated to the query.
pub open spec fn chosen_song(songs: Seq<SongHit>, artist: Seq<char>, query: Seq<char>) -> Option<i64> {
    let al = lower_text(artist);
    let by_artist = if al.len() > 0 {
        first_by_artist(songs, al)
    } else {
        None
    };
    if songs.len() == 0 {
        None
    } else if by_artist is Some {
        by_artist
    } else if songs[0].name matches Some(n) && !query_matches_spec(query, n@) {
        None
    } else {
        songs[0].id
    }
}

fn song_has_artist(s: &SongHit, artist_lower: &Vec<char>) -> (r: bool)
    ensures
        r == has_artist(*s, artist_lower@),
{
    let mut j: usize = 0;
    while j < s.artist_names.len()
        invariant
            j <= s.artist_names@.len(),
            forall|k: int| 0 <= k < j ==> !((#[trigger] s.artist_names@[k]) matches Some(n) && lower_text(n@)
                == artist_lower@),
        decreases s.artist_names.len() - j,
    {
        match &s.artist_names[j] {
            Some(n) => {
                let nl = chars_of(to_lowercase(n.as_str()).as_str());
                if chars_equal(&nl, artist_lower) {
                    return true;
                }
            },
            None => {},
        }
        j = j + 1;
    }
    false
}

/// Picks the song id to fetch lyrics for from a NetEase search result.
pub fn choose_song(songs: &Vec<SongHit>, artist: &str, query: &str) -> (r: Option<i64>)
    ensures
        r == chosen_song(songs@, artist@, query@),
{
    if songs.len() == 0 {
        return None;
    }
    let al = chars_of(to_lowercase(artist).as_str());
    if al.len() > 0 {
        let mut i: usize = 0;
        assert(songs@.subrange(0, songs@.len() as int) == songs@);
        while i < songs.len()
            invariant
                i <= songs@.len(),
                al@ == lower_text(artist@),
                al@.len() > 0,
                songs@.len() > 0,
                first_by_artist(songs@, al@) == first_by_artist(songs@.subrange(i as int, songs@.len() as int), al@),
            decreases songs.len() - i,
        {
            let ghost rest = songs@.subrange(i as int, songs@.len() as int);
            assert(rest[0] == songs@[i as int]);
            assert(rest.drop_first() == songs@.subrange(i + 1, songs@.len() as int));
            if song_has_artist(&songs[i], &al) && songs[i].id.is_some() {
                return songs[i].id;
            }
            i = i + 1;
        }
        assert(songs@.subrange(songs@.len() as int, songs@.len() as int).len() == 0);
    }
    match &songs[0].name {
        Some(n) => {
            if !query_matches_song(query, n.as_str()) {
                return None;
            }
        },
        None => {},
    }
    songs[0].id
}

/// One item of an LRCLIB search result.
pub struct LrclibItem {
    pub synced_lyrics: Option<String>,
    pub track_name: Option<String>,
}

/// An item LRCLIB search can take: synced lyrics that hold lines, and a
/// track name, if any, related to the query.
pub open spec fn acceptable_item(item: LrclibItem, query: Seq<char>) -> bool {
    &&& item.synced_lyrics matches Some(s) && exists|t: u64| lyric_table(s@, Seq::<char>::empty()).contains_key(t)
    &&& !(item.track_name matches Some(n) && !query_matches_spec(query, n@))
}

/// The lyrics of the first acceptable item of an LRCLIB search.
pub fn pick_lrclib_result(items: &Vec<LrclibItem>, query: &str) -> (r: Option<Vec<LyricLine>>)
    ensures
        r is Some <==> exists|i: int| 0 <= i < items@.len() && acceptable_item(#[trigger] items@[i], query@),
        r matches Some(v) ==> exists|i: int| 0 <= i < items@.len() && acceptable_item(#[trigger] items@[i], query@)
            && (forall|j: int| 0 <= j < i ==> !acceptable_item(#[trigger] items@[j], query@)) && (items@[i].synced_lyrics
            matches Some(s) && lines_of_table(v@, lyric_table(s@, Seq::<char>::empty()))),
{
    let mut i: usize = 0;
    while i < items.len()
        invariant
            i <= items@.len(),
            forall|j: int| 0 <= j < i ==> !acceptable_item(#[trigger] items@[j], query@),
        decreases items.len() - i,
    {
        match &items[i].synced_lyrics {
            Some(s) => {
                let related = match &items[i].track_name {
                    Some(n) => query_matches_song(query, n.as_str()),
                    None => true,
                };
                if related {
                    match local_lyrics(s.as_str()) {
                        Some(v) => {
                            assert(items@[i as int].synced_lyrics == Some(*s));
                            assert(acceptable_item(items@[i as int], query@));
                            return Some(v);
                        },
                        None => {
                            assert(!acceptable_item(items@[i as int], query@));
                        },
                    }
                } else {
                    assert(!acceptable_item(items@[i as int], query@));
                }
            },
            None => {},
        }
        i = i + 1;
    }
    None
}

/// A song of a search result that names the wanted artist (lowered) and
/// has an id.
pub open spec fn artist_hit(s: SongHit, artist_lower: Seq<char>) -> bool {
    has_artist(s, artist_lower) && s.id is Some
}

proof fn lemma_first_by_artist(songs: Seq<SongHit>, al: Seq<char>)
    ensures
        first_by_artist(songs, al) is None <==> forall|i: int| 0 <= i < songs.len() ==> !artist_hit(
            #[trigger] songs[i], al),
        first_by_artist(songs, al) matches Some(x) ==> exists|i: int|
            0 <= i < songs.len() && artist_hit(#[trigger] songs[i], al) && songs[i].id == Some(x) && forall|j: int|
                0 <= j < i ==> !artist_hit(#[trigger] songs[j], al),
    decreases songs.len(),
{
    if songs.len() > 0 {
        let rest = songs.drop_first();
        lemma_first_by_artist(rest, al);
        assert forall|i: int| 0 < i < songs.len() implies #[trigger] songs[i] == rest[i - 1] by {}
        if artist_hit(songs[0], al) {
            assert(first_by_artist(songs, al) == songs[0].id);
        } else {
            if first_by_artist(rest, al) is None {
                assert forall|i: int| 0 <= i < songs.len() implies !artist_hit(#[trigger] songs[i], al) by {
                    if i > 0 {
                        assert(songs[i] == rest[i - 1]);
                    }
                }
            } else {
                let x = first_by_artist(rest, al).unwrap();
                let k = choose|i: int| 0 <= i < rest.len() && artist_hit(#[trigger] rest[i], al) && rest[i].id == Some(x)
                    && forall|j: int| 0 <= j < i ==> !artist_hit(#[trigger] rest[j], al);
                assert(songs[k + 1] == rest[k]);
                assert forall|j: int| 0 <= j < k + 1 implies !artist_hit(#[trigger] songs[j], al) by {
                    if j > 0 {
                        assert(songs[j] == rest[j - 1]);
                    }
                }
            }
        }
    }
}

/// When no song of the result names the wanted artist with an id (or no
/// artist is given), a first hit whose name is unrelated to the query is
/// refused: no song is taken, rather than a random one.
pub proof fn unrelated_first_hit_is_refused(songs: Seq<SongHit>, artist: Seq<char>, query: Seq<char>)
    requires
        songs.len() > 0,
        lower_text(artist).len() == 0 || forall|i: int| 0 <= i < songs.len() ==> !artist_hit(
            #[trigger] songs[i], lower_text(artist)),
        songs[0].name matches Some(n) && !query_matches_spec(query, n@),
    ensures
        chosen_song(songs, artist, query) is None,
{
    lemma_first_by_artist(songs, lower_text(artist));
}

/// When no song names the wanted artist with an id (or no artist is given),
/// the first hit is taken, by its id, unless its name is unrelated to the
/// query.
pub proof fn related_first_hit_is_taken(songs: Seq<SongHit>, artist: Seq<char>, query: Seq<char>)
    requires
        songs.len() > 0,
        lower_text(artist).len() == 0 || forall|i: int| 0 <= i < songs.len() ==> !artist_hit(
            #[trigger] songs[i], lower_text(artist)),
        !(songs[0].name matches Some(n) && !query_matches_spec(query, n@)),
    ensures
        chosen_song(songs, artist, query) == songs[0].id,
{
    lemma_first_by_artist(songs, lower_text(artist));
}

/// With an artist given, a song that names it (compared lowered) and has
/// an id wins: the result is the id of the first such song in result
/// order, whatever the query.
pub proof fn artist_match_is_taken(songs: Seq<SongHit>, artist: Seq<char>, query: Seq<char>, k: int, m: int)
    requires
        lower_text(artist).len() > 0,
        0 <= k < songs.len(),
        0 <= m < songs[k].artist_names@.len(),
        songs[k].artist_names@[m] matches Some(n) && lower_text(n@) == lower_text(artist),
        songs[k].id is Some,
    ensures
        chosen_song(songs, artist, query) matches Some(x) && exists|i: int|
            0 <= i <= k && artist_hit(#[trigger] songs[i], lower_text(artist)) && songs[i].id == Some(x)
                && forall|j: int| 0 <= j < i ==> !artist_hit(#[trigger] songs[j], lower_text(artist)),
{
    lemma_first_by_artist(songs, lower_text(artist));
    let al = lower_text(artist);
    assert(artist_hit(songs[k], al));
    let x = first_by_artist(songs, al).unwrap();
    let i = choose|i: int| 0 <= i < songs.len() && artist_hit(#[trigger] songs[i], al) && songs[i].id == Some(x)
        && forall|j: int| 0 <= j < i ==> !artist_hit(#[trigger] songs[j], al);
    if i > k {
        assert(!artist_hit(songs[k], al));
    }
}

/// An empty search result gives no song.
pub proof fn no_hits_no_song(artist: Seq<char>, query: Seq<char>)
    ensures
        chosen_song(Seq::empty(), artist, query) is None,
{
}

/// Without a title nothing is looked up.
pub proof fn no_title_no_lookup(artist: Seq<char>, source: Seq<char>, fallback: bool, local_dir: Option<Seq<char>>)
    ensures
        lookup_plan(Seq::empty(), artist, source, fallback, local_dir).len() == 0,
{
}

/// With a title, a non-blank artist and fallback, LRCLIB as the source is
/// tried exactly, then by search, and then NetEase with the artist and by
/// title alone; NetEase as the source is tried with the artist and by title
/// alone, then LRCLIB exactly and by search. A set local directory comes
/// first.
pub proof fn fallback_plan_with_artist(title: Seq<char>, artist: Seq<char>, source: Seq<char>,
    local_dir: Option<Seq<char>>)
    requires
        title.len() > 0,
        trim(artist).len() > 0,
    ensures
        ({
            let online = if source == "lrclib"@ {
                seq![Lookup::LrclibGet, Lookup::LrclibSearch, Lookup::NeteaseWithArtist, Lookup::NeteaseTitleOnly]
            } else {
                seq![Lookup::NeteaseWithArtist, Lookup::NeteaseTitleOnly, Lookup::LrclibGet, Lookup::LrclibSearch]
            };
            lookup_plan(title, artist, source, true, local_dir) == if local_dir matches Some(d) && d.len() > 0 {
                seq![Lookup::LocalFile] + online
            } else {
                online
            }
        }),
{
    assert(seq![Lookup::LrclibGet, Lookup::LrclibSearch] + seq![Lookup::NeteaseWithArtist, Lookup::NeteaseTitleOnly]
        =~= seq![Lookup::LrclibGet, Lookup::LrclibSearch, Lookup::NeteaseWithArtist, Lookup::NeteaseTitleOnly]);
    assert(seq![Lookup::NeteaseWithArtist, Lookup::NeteaseTitleOnly] + seq![Lookup::LrclibGet, Lookup::LrclibSearch]
        =~= seq![Lookup::NeteaseWithArtist, Lookup::NeteaseTitleOnly, Lookup::LrclibGet, Lookup::LrclibSearch]);
}

/// With a title and a non-blank artist but no fallback, only the chosen
/// source is tried (after a set local directory).
pub proof fn plan_without_fallback(title: Seq<char>, artist: Seq<char>, source: Seq<char>)
    requires
        title.len() > 0,
        trim(artist).len() > 0,
    ensures
        lookup_plan(title, artist, source, false, None) == if source == "lrclib"@ {
            seq![Lookup::LrclibGet, Lookup::LrclibSearch]
        } else {
            seq![Lookup::NeteaseWithArtist, Lookup::NeteaseTitleOnly]
        },
{
}

/// With a blank artist only the chosen source is tried, without the
/// artist, and never the other one, whatever the fallback setting.
pub proof fn blank_artist_plan(title: Seq<char>, artist: Seq<char>, source: Seq<char>, fallback: bool)
    requires
        title.len() > 0,
        trim(artist).len() == 0,
    ensures
        lookup_plan(title, artist, source, fallback, None) == if source == "lrclib"@ {
            seq![Lookup::LrclibGet, Lookup::LrclibSearch]
        } else {
            seq![Lookup::NeteaseTitleOnly]
        },
{
}

} // verus!
