//! Recently played ROMs, newest first.
use vstd::prelude::*;
use crate::clock::{is_reading, secs_of};
use crate::cheats::text::chars_of;
use crate::cheats::cht::copy_chars;

verus! {

/// Maximum number of recent games kept.
pub const MAX_RECENT_ROMS: usize = 30;

/// Mathematical model of a library entry.
pub ghost struct RomView {
    pub path: Seq<char>,
    pub display_name: Seq<char>,
    pub crc32: Seq<char>,
    pub last_played: u64,
    pub thumbnail_path: Option<Seq<char>>,
    pub has_auto_save: bool,
}

/// A previously loaded ROM.
#[derive(Debug, Clone, PartialEq, Eq)]
pub struct RomEntry {
    /// File path or content URI of the ROM.
    pub path: String,
    /// Title shown in the library.
    pub display_name: String,
    /// Uppercase hexadecimal CRC32 of the ROM.
    pub crc32: String,
    /// Unix epoch time (seconds) when the game was last booted or exited.
    pub last_played: u64,
    pub thumbnail_path: Option<String>,
    pub has_auto_save: bool,
}

/// The view of an optional string.
pub open spec fn opt_view(s: Option<String>) -> Option<Seq<char>> {
    match s {
        Some(t) => Some(t@),
        None => None,
    }
}

impl View for RomEntry {
    type V = RomView;

    open spec fn view(&self) -> RomView {
        RomView {
            path: self.path@,
            display_name: self.display_name@,
            crc32: self.crc32@,
            last_played: self.last_played,
            thumbnail_path: opt_view(self.thumbnail_path),
            has_auto_save: self.has_auto_save,
        }
    }
}

/// The text that `str::to_uppercase` gives (Unicode uppercase mapping).
pub uninterp spec fn unicode_upper(s: Seq<char>) -> Seq<char>;

/// Whether every character is ASCII.
pub open spec fn is_ascii(s: Seq<char>) -> bool {
    forall|i: int| 0 <= i < s.len() ==> (#[trigger] s[i] as int) < 0x80
}

/// ASCII uppercase of a character; every other character is unchanged.
pub open spec fn ascii_upper(c: char) -> char {
    if 'a' <= c <= 'z' { ((c as int) - 32) as char } else { c }
}

/// The uppercase form of a text: ASCII letters mapped to their capitals where the text
/// is ASCII, the Unicode mapping of `str::to_uppercase` otherwise.
pub open spec fn upper_case(s: Seq<char>) -> Seq<char> {
    if is_ascii(s) { s.map_values(|c: char| ascii_upper(c)) } else { unicode_upper(s) }
}

/// Uppercases a string with `str::to_uppercase`; the result is the named mapping of it,
/// and on ASCII text it maps `a`-`z` to `A`-`Z` and keeps every other character, as the
/// documentation of `str::to_ascii_uppercase` says `to_uppercase` does for ASCII.
#[verifier::external_body]
fn to_uppercase(s: &str) -> (r: String)
    ensures
        r@ == unicode_upper(s@),
        is_ascii(s@) ==> r@ == s@.map_values(|c: char| ascii_upper(c)),
{
    s.to_uppercase()
}

/// ASCII lowercase of a character; every other character is unchanged.
pub open spec fn ascii_lower(c: char) -> char {
    if 'A' <= c <= 'Z' { ((c as int) + 32) as char } else { c }
}

/// `eq_ignore_ascii_case`: equal up to the case of ASCII letters.
pub open spec fn eq_ignore_case(a: Seq<char>, b: Seq<char>) -> bool {
    a.len() == b.len() && forall|i: int| 0 <= i < a.len() ==> ascii_lower(#[trigger] a[i]) == ascii_lower(b[i])
}

/// `eq_ignore_ascii_case` on two strings.
pub fn eq_ignore_ascii_case(a: &str, b: &str) -> (r: bool)
    ensures
        r == eq_ignore_case(a@, b@),
{
    let x = chars_of(a);
    let y = chars_of(b);
    if x.len() != y.len() {
        return false;
    }
    let mut i: usize = 0;
    while i < x.len()
        invariant
            i <= x.len(),
            x.len() == y.len(),
            x@ == a@,
            y@ == b@,
            forall|k: int| 0 <= k < i ==> ascii_lower(#[trigger] x@[k]) == ascii_lower(y@[k]),
        decreases x.len() - i,
    {
        let c = x[i];
        let d = y[i];
        let lc = if 'A' <= c && c <= 'Z' { ((c as u8) + 32) as char } else { c };
        let ld = if 'A' <= d && d <= 'Z' { ((d as u8) + 32) as char } else { d };
        assert(lc == ascii_lower(c) && ld == ascii_lower(d));
        if lc != ld {
            return false;
        }
        i = i + 1;
    }
    true
}

/// `t` with `e` placed after the last element played no earlier than it (one step of a
/// stable sort, newest first).
pub open spec fn insert_desc(t: Seq<RomView>, e: RomView) -> Seq<RomView>
    decreases t.len(),
{
    if t.len() == 0 {
        seq![e]
    } else if t.last().last_played >= e.last_played {
        t.push(e)
    } else {
        insert_desc(t.drop_last(), e).push(t.last())
    }
}

/// The stable sort of `s` by `last_played`, newest first (what `sort_by` with a reversed
/// comparison gives).
pub open spec fn sort_desc(s: Seq<RomView>) -> Seq<RomView>
    decreases s.len(),
{
    if s.len() == 0 {
        Seq::empty()
    } else {
        insert_desc(sort_desc(s.drop_last()), s.last())
    }
}

/// The views of entries.
pub open spec fn rom_views(v: Seq<RomEntry>) -> Seq<RomView> {
    v.map_values(|e: RomEntry| e@)
}

/// Inserting at the first position whose tail is all older gives `insert_desc`.
proof fn lemma_insert_desc(t: Seq<RomView>, e: RomView, pos: int)
    requires
        0 <= pos <= t.len(),
        forall|k: int| pos <= k < t.len() ==> #[trigger] t[k].last_played < e.last_played,
        pos == 0 || t[pos - 1].last_played >= e.last_played,
    ensures
        insert_desc(t, e) == t.insert(pos, e),
    decreases t.len(),
{
    if t.len() == 0 {
        assert(t.insert(pos, e) =~= seq![e]);
    } else if pos == t.len() {
        assert(t.insert(pos, e) =~= t.push(e));
    } else {
        lemma_insert_desc(t.drop_last(), e, pos);
        assert(t.insert(pos, e) =~= t.drop_last().insert(pos, e).push(t.last()));
    }
}

/// Sorts entries by `last_played`, newest first, keeping the order of equal ones.
pub fn sort_recent(v: Vec<RomEntry>) -> (r: Vec<RomEntry>)
    ensures
        rom_views(r@) == sort_desc(rom_views(v@)),
{
    let ghost s = rom_views(v@);
    let mut src = v;
    let mut out: Vec<RomEntry> = Vec::new();
    let mut i: usize = 0;
    let n = src.len();
    assert(s.take(0) =~= Seq::<RomView>::empty());
    while src.len() > 0
        invariant
            i + src.len() == n,
            n == s.len(),
            rom_views(src@) == s.skip(i as int),
            rom_views(out@) == sort_desc(s.take(i as int)),
        decreases src.len(),
    {
        let ghost src0 = src@;
        let e = src.remove(0);
        let ghost ev = e@;
        assert(rom_views(src0)[0] == ev);
        assert(s.skip(i as int)[0] == s[i as int]);
        assert(ev == s[i as int]);
        assert(src@ =~= src0.skip(1));
        assert(rom_views(src@) =~= rom_views(src0).skip(1));
        assert(rom_views(src@) =~= s.skip(i + 1));
        let mut pos = out.len();
        while pos > 0 && out[pos - 1].last_played < e.last_played
            invariant
                pos <= out.len(),
                forall|k: int| pos <= k < out.len() ==> #[trigger] out@[k].last_played < e.last_played,
            decreases pos,
        {
            pos = pos - 1;
        }
        let ghost t = rom_views(out@);
        proof {
            lemma_insert_desc(t, ev, pos as int);
            assert(s.take(i + 1).drop_last() =~= s.take(i as int));
        }
        out.insert(pos, e);
        assert(rom_views(out@) =~= t.insert(pos as int, ev));
        i = i + 1;
    }
    assert(s.take(n as int) =~= s);
    out
}

/// Index of the first entry whose CRC matches `crc32` ignoring ASCII case.
pub open spec fn crc_index(es: Seq<RomView>, crc32: Seq<char>) -> Option<int> {
    if exists|i: int| 0 <= i < es.len() && eq_ignore_case(es[i].crc32, crc32) {
        Some(choose|i: int| 0 <= i < es.len() && eq_ignore_case(es[i].crc32, crc32)
            && forall|j: int| 0 <= j < i ==> !eq_ignore_case(es[j].crc32, crc32))
    } else {
        None
    }
}

/// The first match is the one `crc_index` names.
proof fn lemma_crc_index(es: Seq<RomView>, crc32: Seq<char>, k: int)
    requires
        0 <= k < es.len(),
        eq_ignore_case(es[k].crc32, crc32),
        forall|j: int| 0 <= j < k ==> !eq_ignore_case(es[j].crc32, crc32),
    ensures
        crc_index(es, crc32) == Some(k),
{
    let c = choose|i: int| 0 <= i < es.len() && eq_ignore_case(es[i].crc32, crc32)
        && forall|j: int| 0 <= j < i ==> !eq_ignore_case(es[j].crc32, crc32);
    assert(0 <= c < es.len() && eq_ignore_case(es[c].crc32, crc32));
    if c < k {
        assert(!eq_ignore_case(es[c].crc32, crc32));
    }
    if k < c {
        assert(!eq_ignore_case(es[k].crc32, crc32));
    }
}
/// The entry that registering a game at time `now` leaves: a known CRC keeps its entry
/// with the new path, name and time (and thumbnail if one is given); an unknown one gets
/// a new entry with its CRC uppercased and no auto-save.
pub open spec fn registered_entry(es: Seq<RomView>, path: Seq<char>, name: Seq<char>, crc32: Seq<char>,
    thumb: Option<Seq<char>>, now: u64) -> RomView {
    match crc_index(es, crc32) {
        Some(k) => RomView {
            path,
            display_name: name,
            last_played: now,
            thumbnail_path: if thumb is Some { thumb } else { es[k].thumbnail_path },
            ..es[k]
        },
        None => RomView {
            path,
            display_name: name,
            crc32: upper_case(crc32),
            last_played: now,
            thumbnail_path: thumb,
            has_auto_save: false,
        },
    }
}

/// The other entries: all but the one whose CRC matches.
pub open spec fn registered_rest(es: Seq<RomView>, crc32: Seq<char>) -> Seq<RomView> {
    match crc_index(es, crc32) {
        Some(k) => es.remove(k),
        None => es,
    }
}

/// The entries after registering a game at time `now`: the registered entry goes in front
/// of the others, then the list is sorted newest first (so it leads the entries played
/// at the same time) and cut to `MAX_RECENT_ROMS`.
pub open spec fn registered(es: Seq<RomView>, path: Seq<char>, name: Seq<char>, crc32: Seq<char>,
    thumb: Option<Seq<char>>, now: u64) -> Seq<RomView> {
    let sorted = sort_desc(seq![registered_entry(es, path, name, crc32, thumb, now)] + registered_rest(es, crc32));
    if sorted.len() > MAX_RECENT_ROMS { sorted.take(MAX_RECENT_ROMS as int) } else { sorted }
}

proof fn lemma_sort_len(s: Seq<RomView>)
    ensures
        sort_desc(s).len() == s.len(),
    decreases s.len(),
{
    if s.len() > 0 {
        lemma_sort_len(s.drop_last());
        lemma_insert_len(sort_desc(s.drop_last()), s.last());
    }
}

/// `insert_desc` adds one element.
proof fn lemma_insert_len(t: Seq<RomView>, e: RomView)
    ensures
        insert_desc(t, e).len() == t.len() + 1,
    decreases t.len(),
{
    if t.len() > 0 && t.last().last_played < e.last_played {
        lemma_insert_len(t.drop_last(), e);
    }
}

impl RomEntry {
    /// A new entry played now (Unix epoch seconds on the system clock), with the CRC in
    /// uppercase, without auto-save.
    pub fn new(path: String, display_name: String, crc32: String, thumbnail_path: Option<String>) -> (e: Self)
        ensures
            e@.path == path@,
            e@.display_name == display_name@,
            e@.crc32 == upper_case(crc32@),
            exists|t: Option<(u64, u32)>| is_reading(t) && e@.last_played == secs_of(t),
            e@.thumbnail_path == opt_view(thumbnail_path),
            !e@.has_auto_save,
    {
        let crc = to_uppercase(crc32.as_str());
        RomEntry { path, display_name, crc32: crc, last_played: crate::clock::unix_secs(), thumbnail_path, has_auto_save: false }
    }

    /// The entry with its auto-save flag set.
    pub fn with_auto_save(self, has_auto_save: bool) -> (e: Self)
        ensures
            e@ == (RomView { has_auto_save, ..self@ }),
    {
        let mut e = self;
        e.has_auto_save = has_auto_save;
        e
    }
}

/// The recent-games list, newest first.
#[derive(Debug, Clone)]
pub struct LibraryManager {
    pub entries: Vec<RomEntry>,
}

impl Default for LibraryManager {
    fn default() -> (m: Self)
        ensures
            m.entries@.len() == 0,
    {
        LibraryManager { entries: Vec::new() }
    }
}

/// A string copy of a slice.
fn owned(s: &str) -> (r: String)
    ensures
        r@ == s@,
{
    String::from_str(s)
}

impl LibraryManager {
    /// Index of the first entry whose CRC matches ignoring ASCII case.
    fn find_index(&self, crc32: &str) -> (r: Option<usize>)
        ensures
            match r {
                Some(k) => k < self.entries@.len() && crc_index(rom_views(self.entries@), crc32@) == Some(k as int),
                None => crc_index(rom_views(self.entries@), crc32@) is None,
            },
    {
        let ghost es = rom_views(self.entries@);
        let mut i: usize = 0;
        while i < self.entries.len()
            invariant
                i <= self.entries.len(),
                es == rom_views(self.entries@),
                forall|j: int| 0 <= j < i ==> !eq_ignore_case(es[j].crc32, crc32@),
            decreases self.entries.len() - i,
        {
            if eq_ignore_ascii_case(self.entries[i].crc32.as_str(), crc32) {
                proof { lemma_crc_index(es, crc32@, i as int); }
                return Some(i);
            }
            i = i + 1;
        }
        assert(!(exists|j: int| 0 <= j < es.len() && eq_ignore_case(es[j].crc32, crc32@)));
        None
    }

    /// A list holding the given entries, newest first (stable by `last_played`).
    pub fn from_entries(entries: Vec<RomEntry>) -> (m: Self)
        ensures
            rom_views(m.entries@) == sort_desc(rom_views(entries@)),
    {
        LibraryManager { entries: sort_recent(entries) }
    }
    /// Registers a game played at time `now` (see `registered`) and returns the newest entry.
    pub fn add_or_update_at(&mut self, path: &str, display_name: &str, crc32: &str,
        thumbnail_path: Option<String>, now: u64) -> (r: &RomEntry)
        ensures
            rom_views(final(self).entries@) == registered(rom_views(old(self).entries@), path@, display_name@,
                crc32@, opt_view(thumbnail_path), now),
            final(self).entries@.len() > 0,
            r@ == rom_views(final(self).entries@)[0],
    {
        let ghost es = rom_views(self.entries@);
        let found = self.find_index(crc32);
        let ghost thumb = opt_view(thumbnail_path);
        let ghost e = registered_entry(es, path@, display_name@, crc32@, thumb, now);
        let ghost updated = seq![e] + registered_rest(es, crc32@);
        match found {
            Some(k) => {
                let ghost before = self.entries@;
                let mut entry = self.entries.remove(k);
                entry.path = owned(path);
                entry.display_name = owned(display_name);
                entry.last_played = now;
                match thumbnail_path {
                    Some(t) => {
                        entry.thumbnail_path = Some(t);
                    },
                    None => {},
                }
                assert(entry@ == e);
                assert(rom_views(self.entries@) =~= es.remove(k as int));
                self.entries.insert(0, entry);
                assert(rom_views(self.entries@) =~= updated);
            },
            None => {
                let entry = RomEntry {
                    path: owned(path),
                    display_name: owned(display_name),
                    crc32: to_uppercase(crc32),
                    last_played: now,
                    thumbnail_path,
                    has_auto_save: false,
                };
                assert(entry@ == e);
                self.entries.insert(0, entry);
                assert(rom_views(self.entries@) =~= updated);
            },
        }
        let mut v = Vec::new();
        std::mem::swap(&mut v, &mut self.entries);
        let mut sorted = sort_recent(v);
        proof { lemma_sort_len(updated); }
        let ghost sv = rom_views(sorted@);
        sorted.truncate(MAX_RECENT_ROMS);
        assert(rom_views(sorted@) =~= if sv.len() > MAX_RECENT_ROMS { sv.take(MAX_RECENT_ROMS as int) } else { sv });
        self.entries = sorted;
        &self.entries[0]
    }

    /// Registers a game played now (Unix epoch seconds on the system clock); see
    /// `add_or_update_at`.
    pub fn add_or_update(&mut self, path: &str, display_name: &str, crc32: &str,
        thumbnail_path: Option<String>) -> (r: &RomEntry)
        ensures
            exists|t: Option<(u64, u32)>| is_reading(t) && rom_views(final(self).entries@) == registered(
                rom_views(old(self).entries@), path@, display_name@, crc32@, opt_view(thumbnail_path), secs_of(t)),
            final(self).entries@.len() > 0,
            r@ == rom_views(final(self).entries@)[0],
    {
        let now = crate::clock::unix_secs();
        self.add_or_update_at(path, display_name, crc32, thumbnail_path, now)
    }

    /// Sets the thumbnail of the first entry with a matching CRC; `false` if there is none.
    pub fn update_thumbnail(&mut self, crc32: &str, thumb_path: &str) -> (found: bool)
        ensures
            found == (crc_index(rom_views(old(self).entries@), crc32@) is Some),
            match crc_index(rom_views(old(self).entries@), crc32@) {
                Some(k) => rom_views(final(self).entries@) == rom_views(old(self).entries@).update(k,
                    RomView { thumbnail_path: Some(thumb_path@), ..rom_views(old(self).entries@)[k] }),
                None => rom_views(final(self).entries@) == rom_views(old(self).entries@),
            },
    {
        match self.find_index(crc32) {
            Some(k) => {
                let ghost es = rom_views(self.entries@);
                self.entries[k].thumbnail_path = Some(owned(thumb_path));
                assert(rom_views(self.entries@) =~= es.update(k as int, RomView { thumbnail_path: Some(thumb_path@), ..es[k as int] }));
                true
            },
            None => false,
        }
    }

    /// Sets the auto-save flag of the first entry with a matching CRC; `false` if there is none.
    pub fn mark_auto_save(&mut self, crc32: &str, has_auto_save: bool) -> (found: bool)
        ensures
            found == (crc_index(rom_views(old(self).entries@), crc32@) is Some),
            match crc_index(rom_views(old(self).entries@), crc32@) {
                Some(k) => rom_views(final(self).entries@) == rom_views(old(self).entries@).update(k,
                    RomView { has_auto_save, ..rom_views(old(self).entries@)[k] }),
                None => rom_views(final(self).entries@) == rom_views(old(self).entries@),
            },
    {
        match self.find_index(crc32) {
            Some(k) => {
                let ghost es = rom_views(self.entries@);
                self.entries[k].has_auto_save = has_auto_save;
                assert(rom_views(self.entries@) =~= es.update(k as int, RomView { has_auto_save, ..es[k as int] }));
                true
            },
            None => false,
        }
    }

    /// The entries, newest first.
    pub fn recent_entries(&self) -> (r: &[RomEntry])
        ensures
            r@ == self.entries@,
    {
        self.entries.as_slice()
    }

    /// The first entry with a matching CRC (ignoring ASCII case), if any.
    pub fn find_by_crc32(&self, crc32: &str) -> (r: Option<&RomEntry>)
        ensures
            match crc_index(rom_views(self.entries@), crc32@) {
                Some(k) => r is Some && r.unwrap()@ == rom_views(self.entries@)[k],
                None => r is None,
            },
    {
        match self.find_index(crc32) {
            Some(k) => Some(&self.entries[k]),
            None => None,
        }
    }

}

/// Entries ordered newest first.
pub open spec fn newest_first(s: Seq<RomView>) -> bool {
    forall|i: int, j: int| 0 <= i < j < s.len() ==> #[trigger] s[i].last_played >= #[trigger] s[j].last_played
}

/// `insert_desc` keeps a newest-first list newest first and adds exactly the new entry.
proof fn lemma_insert_desc_sorted(t: Seq<RomView>, e: RomView)
    requires
        newest_first(t),
    ensures
        newest_first(insert_desc(t, e)),
        insert_desc(t, e).to_multiset() == t.to_multiset().insert(e),
    decreases t.len(),
{
    broadcast use vstd::seq_lib::group_to_multiset_ensures;
    if t.len() == 0 {
        assert(insert_desc(t, e) =~= seq![e]);
        assert(seq![e] =~= Seq::<RomView>::empty().push(e));
    } else if t.last().last_played >= e.last_played {
    } else {
        let u = t.drop_last();
        assert(newest_first(u));
        lemma_insert_desc_sorted(u, e);
        let r = insert_desc(u, e);
        assert(t =~= u.push(t.last()));
        assert forall|i: int, j: int| 0 <= i < j < r.push(t.last()).len() implies
            #[trigger] r.push(t.last())[i].last_played >= #[trigger] r.push(t.last())[j].last_played by {
            if j == r.len() && i < r.len() && r[i] != e {
                assert(r.contains(r[i]));
                assert(r.to_multiset().count(r[i]) > 0);
                assert(u.to_multiset().count(r[i]) > 0);
                assert(u.contains(r[i]));
                let m = choose|m: int| 0 <= m < u.len() && u[m] == r[i];
                assert(t[m] == u[m]);
                assert(t[m].last_played >= t[t.len() - 1].last_played);
            }
        }
        assert(insert_desc(t, e) == r.push(t.last()));
    }
}

/// Sorting gives a newest-first permutation of the entries.
pub proof fn law_sort_newest_first(s: Seq<RomView>)
    ensures
        newest_first(sort_desc(s)),
        sort_desc(s).to_multiset() == s.to_multiset(),
    decreases s.len(),
{
    broadcast use vstd::seq_lib::group_to_multiset_ensures;
    if s.len() > 0 {
        law_sort_newest_first(s.drop_last());
        lemma_insert_desc_sorted(sort_desc(s.drop_last()), s.last());
        assert(s =~= s.drop_last().push(s.last()));
    }
}
/// After registering a game the list is newest first and holds at most `MAX_RECENT_ROMS`
/// entries.
pub proof fn law_registered_newest_first(es: Seq<RomView>, path: Seq<char>, name: Seq<char>, crc32: Seq<char>,
    thumb: Option<Seq<char>>, now: u64)
    ensures
        newest_first(registered(es, path, name, crc32, thumb, now)),
        registered(es, path, name, crc32, thumb, now).len() <= MAX_RECENT_ROMS,
{
    law_sort_newest_first(seq![registered_entry(es, path, name, crc32, thumb, now)] + registered_rest(es, crc32));
}

/// The index `crc_index` names is in range, and its entry matches.
proof fn lemma_crc_index_range(es: Seq<RomView>, crc32: Seq<char>)
    ensures
        crc_index(es, crc32) matches Some(k) ==> 0 <= k < es.len() && eq_ignore_case(es[k].crc32, crc32),
{
    if exists|i: int| 0 <= i < es.len() && eq_ignore_case(es[i].crc32, crc32) {
        let i0 = choose|i: int| 0 <= i < es.len() && eq_ignore_case(es[i].crc32, crc32);
        lemma_first_match_exists(es, crc32, i0);
    }
}

/// Where some entry matches, a first matching one exists.
proof fn lemma_first_match_exists(es: Seq<RomView>, crc32: Seq<char>, i0: int)
    requires
        0 <= i0 < es.len(),
        eq_ignore_case(es[i0].crc32, crc32),
    ensures
        exists|i: int| 0 <= i < es.len() && eq_ignore_case(es[i].crc32, crc32)
            && forall|j: int| 0 <= j < i ==> !eq_ignore_case(es[j].crc32, crc32),
    decreases i0,
{
    if exists|j: int| 0 <= j < i0 && eq_ignore_case(es[j].crc32, crc32) {
        let j = choose|j: int| 0 <= j < i0 && eq_ignore_case(es[j].crc32, crc32);
        lemma_first_match_exists(es, crc32, j);
    } else {
        assert(forall|j: int| 0 <= j < i0 ==> !eq_ignore_case(es[j].crc32, crc32));
    }
}
/// Inserting an element no newer than the first keeps the first in front.
proof fn lemma_insert_keeps_first(t: Seq<RomView>, x: RomView)
    requires
        t.len() > 0,
        t[0].last_played >= x.last_played,
    ensures
        insert_desc(t, x).len() > 0,
        insert_desc(t, x)[0] == t[0],
    decreases t.len(),
{
    if t.last().last_played < x.last_played {
        let u = t.drop_last();
        lemma_insert_keeps_first(u, x);
    }
}

/// Sorting keeps in front a first element that is at least as new as every other.
proof fn lemma_sort_keeps_newest_first(s: Seq<RomView>)
    requires
        s.len() > 0,
        forall|i: int| 0 <= i < s.len() ==> (#[trigger] s[i]).last_played <= s[0].last_played,
    ensures
        sort_desc(s).len() > 0,
        sort_desc(s)[0] == s[0],
    decreases s.len(),
{
    let u = s.drop_last();
    if s.len() == 1 {
        assert(sort_desc(u) =~= Seq::<RomView>::empty());
    } else {
        assert forall|i: int| 0 <= i < u.len() implies (#[trigger] u[i]).last_played <= u[0].last_played by {
            assert(u[i] == s[i]);
        }
        lemma_sort_keeps_newest_first(u);
        assert(s.last() == s[s.len() - 1]);
        lemma_insert_keeps_first(sort_desc(u), s.last());
    }
}

/// Equality ignoring ASCII case is transitive.
proof fn lemma_eq_ignore_case_trans(a: Seq<char>, b: Seq<char>, c: Seq<char>)
    requires
        eq_ignore_case(a, b),
        eq_ignore_case(b, c),
    ensures
        eq_ignore_case(a, c),
{
    assert forall|i: int| 0 <= i < a.len() implies ascii_lower(#[trigger] a[i]) == ascii_lower(c[i]) by {
        assert(ascii_lower(a[i]) == ascii_lower(b[i]));
        assert(ascii_lower(b[i]) == ascii_lower(c[i]));
    }
}

/// The uppercase form of ASCII text equals it ignoring ASCII case.
proof fn lemma_upper_case_ascii(s: Seq<char>)
    requires
        is_ascii(s),
    ensures
        eq_ignore_case(upper_case(s), s),
{
    let u = upper_case(s);
    assert forall|i: int| 0 <= i < u.len() implies ascii_lower(#[trigger] u[i]) == ascii_lower(s[i]) by {
        assert(u[i] == ascii_upper(s[i]));
    }
}

/// The registered entry matches the given CRC ignoring ASCII case, where that CRC is
/// listed or is ASCII.
proof fn lemma_entry_crc(es: Seq<RomView>, path: Seq<char>, name: Seq<char>, crc32: Seq<char>,
    thumb: Option<Seq<char>>, now: u64)
    requires
        crc_index(es, crc32) is Some || is_ascii(crc32),
    ensures
        eq_ignore_case(registered_entry(es, path, name, crc32, thumb, now).crc32, crc32),
{
    lemma_crc_index_range(es, crc32);
    if crc_index(es, crc32) is None {
        lemma_upper_case_ascii(crc32);
    }
}

/// Registering a game no earlier than every listed one puts its entry first, with the
/// given path, name, time and thumbnail (or the one it had); its CRC matches the given
/// one ignoring ASCII case where that CRC is listed or is ASCII.
#[verifier::rlimit(60)]
pub proof fn law_registered_first(es: Seq<RomView>, path: Seq<char>, name: Seq<char>, crc32: Seq<char>,
    thumb: Option<Seq<char>>, now: u64)
    requires
        forall|i: int| 0 <= i < es.len() ==> (#[trigger] es[i]).last_played <= now,
    ensures
        registered(es, path, name, crc32, thumb, now).len() > 0,
        registered(es, path, name, crc32, thumb, now)[0] == registered_entry(es, path, name, crc32, thumb, now),
        registered(es, path, name, crc32, thumb, now)[0].last_played == now,
        registered(es, path, name, crc32, thumb, now)[0].path == path,
        registered(es, path, name, crc32, thumb, now)[0].display_name == name,
        thumb is Some ==> registered(es, path, name, crc32, thumb, now)[0].thumbnail_path == thumb,
        crc_index(es, crc32) is Some || is_ascii(crc32)
            ==> eq_ignore_case(registered(es, path, name, crc32, thumb, now)[0].crc32, crc32),
{
    lemma_crc_index_range(es, crc32);
    let e = registered_entry(es, path, name, crc32, thumb, now);
    let rest = registered_rest(es, crc32);
    let updated = seq![e] + rest;
    assert forall|i: int| 0 <= i < updated.len() implies (#[trigger] updated[i]).last_played <= updated[0].last_played by {
        if i > 0 {
            match crc_index(es, crc32) {
                Some(k) => {
                    if i - 1 < k {
                        assert(updated[i] == es[i - 1]);
                    } else {
                        assert(updated[i] == es[i]);
                    }
                },
                None => {
                    assert(updated[i] == es[i - 1]);
                },
            }
        }
    }
    lemma_sort_keeps_newest_first(updated);
    if crc_index(es, crc32) is Some || is_ascii(crc32) {
        lemma_entry_crc(es, path, name, crc32, thumb, now);
    }
}

/// No two entries carry the same CRC, ignoring ASCII case.
pub open spec fn distinct_crcs(s: Seq<RomView>) -> bool {
    forall|i: int, j: int| 0 <= i < s.len() && 0 <= j < s.len() && i != j
        ==> !eq_ignore_case(#[trigger] s[i].crc32, #[trigger] s[j].crc32)
}

/// Equality ignoring ASCII case is symmetric.
proof fn lemma_eq_ignore_case_sym(a: Seq<char>, b: Seq<char>)
    ensures
        eq_ignore_case(a, b) == eq_ignore_case(b, a),
{
    if eq_ignore_case(a, b) {
        assert forall|i: int| 0 <= i < b.len() implies ascii_lower(#[trigger] b[i]) == ascii_lower(a[i]) by {
            assert(ascii_lower(a[i]) == ascii_lower(b[i]));
        }
    }
    if eq_ignore_case(b, a) {
        assert forall|i: int| 0 <= i < a.len() implies ascii_lower(#[trigger] a[i]) == ascii_lower(b[i]) by {
            assert(ascii_lower(b[i]) == ascii_lower(a[i]));
        }
    }
}

/// Every element of `s` is an element of `t` where their multisets agree.
proof fn lemma_member(s: Seq<RomView>, t: Seq<RomView>, i: int)
    requires
        s.to_multiset() == t.to_multiset(),
        0 <= i < s.len(),
    ensures
        exists|m: int| 0 <= m < t.len() && t[m] == s[i],
{
    broadcast use vstd::seq_lib::group_to_multiset_ensures;
    assert(s.contains(s[i]));
    assert(t.to_multiset().count(s[i]) > 0);
    assert(t.contains(s[i]));
}

/// Inserting an entry whose CRC clashes with none keeps the CRCs distinct.
proof fn lemma_insert_desc_distinct(t: Seq<RomView>, e: RomView)
    requires
        newest_first(t),
        distinct_crcs(t),
        forall|k: int| 0 <= k < t.len() ==> !eq_ignore_case(#[trigger] t[k].crc32, e.crc32),
    ensures
        distinct_crcs(insert_desc(t, e)),
    decreases t.len(),
{
    broadcast use vstd::seq_lib::group_to_multiset_ensures;
    if t.len() == 0 {
    } else if t.last().last_played >= e.last_played {
        let r = t.push(e);
        assert forall|i: int, j: int| 0 <= i < r.len() && 0 <= j < r.len() && i != j
            implies !eq_ignore_case(#[trigger] r[i].crc32, #[trigger] r[j].crc32) by {
            if j == t.len() {
                assert(!eq_ignore_case(t[i].crc32, e.crc32));
            } else if i == t.len() {
                assert(!eq_ignore_case(t[j].crc32, e.crc32));
                lemma_eq_ignore_case_sym(t[j].crc32, e.crc32);
            } else {
                assert(r[i] == t[i] && r[j] == t[j]);
            }
        }
    } else {
        let u = t.drop_last();
        let l = t.last();
        assert(newest_first(u));
        assert(distinct_crcs(u)) by {
            assert forall|i: int, j: int| 0 <= i < u.len() && 0 <= j < u.len() && i != j
                implies !eq_ignore_case(#[trigger] u[i].crc32, #[trigger] u[j].crc32) by {
                assert(u[i] == t[i] && u[j] == t[j]);
            }
        }
        assert forall|k: int| 0 <= k < u.len() implies !eq_ignore_case(#[trigger] u[k].crc32, e.crc32) by {
            assert(u[k] == t[k]);
        }
        lemma_insert_desc_distinct(u, e);
        lemma_insert_desc_sorted(u, e);
        let r = insert_desc(u, e);
        assert forall|i: int| 0 <= i < r.len() implies !eq_ignore_case(#[trigger] r[i].crc32, l.crc32) by {
            if r[i] == e {
                assert(!eq_ignore_case(t[t.len() - 1].crc32, e.crc32));
                lemma_eq_ignore_case_sym(l.crc32, e.crc32);
            } else {
                assert(r.contains(r[i]));
                assert(r.to_multiset().count(r[i]) > 0);
                assert(u.to_multiset().count(r[i]) > 0);
                assert(u.contains(r[i]));
                let m = choose|m: int| 0 <= m < u.len() && u[m] == r[i];
                assert(t[m] == u[m]);
                assert(!eq_ignore_case(t[m].crc32, t[t.len() - 1].crc32));
            }
        }
        let p = r.push(l);
        assert forall|i: int, j: int| 0 <= i < p.len() && 0 <= j < p.len() && i != j
            implies !eq_ignore_case(#[trigger] p[i].crc32, #[trigger] p[j].crc32) by {
            if j == r.len() {
                assert(!eq_ignore_case(r[i].crc32, l.crc32));
            } else if i == r.len() {
                assert(!eq_ignore_case(r[j].crc32, l.crc32));
                lemma_eq_ignore_case_sym(r[j].crc32, l.crc32);
            } else {
                assert(p[i] == r[i] && p[j] == r[j]);
            }
        }
        assert(insert_desc(t, e) == p);
    }
}

/// Sorting keeps the CRCs distinct.
proof fn lemma_sort_distinct(s: Seq<RomView>)
    requires
        distinct_crcs(s),
    ensures
        distinct_crcs(sort_desc(s)),
    decreases s.len(),
{
    if s.len() > 0 {
        let u = s.drop_last();
        assert(distinct_crcs(u)) by {
            assert forall|i: int, j: int| 0 <= i < u.len() && 0 <= j < u.len() && i != j
                implies !eq_ignore_case(#[trigger] u[i].crc32, #[trigger] u[j].crc32) by {
                assert(u[i] == s[i] && u[j] == s[j]);
            }
        }
        lemma_sort_distinct(u);
        law_sort_newest_first(u);
        let t = sort_desc(u);
        assert forall|k: int| 0 <= k < t.len() implies !eq_ignore_case(#[trigger] t[k].crc32, s.last().crc32) by {
            lemma_member(t, u, k);
            let m = choose|m: int| 0 <= m < u.len() && u[m] == t[k];
            assert(s[m] == u[m]);
            assert(!eq_ignore_case(s[m].crc32, s[s.len() - 1].crc32));
        }
        lemma_insert_desc_distinct(t, s.last());
    }
}
/// Registering a game keeps the CRCs of the list distinct (ignoring ASCII case), keeps it
/// newest first and at most `MAX_RECENT_ROMS` long, wherever the given CRC is listed or
/// is ASCII.
#[verifier::rlimit(60)]
pub proof fn law_registered_distinct(es: Seq<RomView>, path: Seq<char>, name: Seq<char>, crc32: Seq<char>,
    thumb: Option<Seq<char>>, now: u64)
    requires
        distinct_crcs(es),
        crc_index(es, crc32) is Some || is_ascii(crc32),
    ensures
        distinct_crcs(registered(es, path, name, crc32, thumb, now)),
        newest_first(registered(es, path, name, crc32, thumb, now)),
        registered(es, path, name, crc32, thumb, now).len() <= MAX_RECENT_ROMS,
{
    lemma_crc_index_range(es, crc32);
    law_registered_newest_first(es, path, name, crc32, thumb, now);
    let e = registered_entry(es, path, name, crc32, thumb, now);
    let rest = registered_rest(es, crc32);
    let updated = seq![e] + rest;
    lemma_entry_crc(es, path, name, crc32, thumb, now);
    // Each entry of `updated` after the first is the listed entry at `src(i)`.
    assert forall|i: int| 0 < i < updated.len() implies
        (#[trigger] updated[i]) == es[if crc_index(es, crc32) matches Some(k) && i - 1 >= k { i } else { i - 1 }] by {
    }
    assert(distinct_crcs(updated)) by {
        assert forall|i: int, j: int| 0 <= i < updated.len() && 0 <= j < updated.len() && i != j
            implies !eq_ignore_case(#[trigger] updated[i].crc32, #[trigger] updated[j].crc32) by {
            let si = if crc_index(es, crc32) matches Some(k) && i - 1 >= k { i } else { i - 1 };
            let sj = if crc_index(es, crc32) matches Some(k) && j - 1 >= k { j } else { j - 1 };
            if i > 0 && j > 0 {
                assert(updated[i] == es[si] && updated[j] == es[sj]);
            } else {
                let o = if i == 0 { j } else { i };
                let so = if crc_index(es, crc32) matches Some(k) && o - 1 >= k { o } else { o - 1 };
                assert(updated[o] == es[so]);
                match crc_index(es, crc32) {
                    Some(k) => {
                        assert(e.crc32 == es[k].crc32);
                        assert(so != k);
                        assert(!eq_ignore_case(es[so].crc32, es[k].crc32));
                        lemma_eq_ignore_case_sym(es[so].crc32, es[k].crc32);
                    },
                    None => {
                        assert(!eq_ignore_case(es[so].crc32, crc32));
                        if eq_ignore_case(es[so].crc32, e.crc32) {
                            lemma_eq_ignore_case_trans(es[so].crc32, e.crc32, crc32);
                        }
                        lemma_eq_ignore_case_sym(es[so].crc32, e.crc32);
                    },
                }
            }
        }
    }
    lemma_sort_distinct(updated);
    let sorted = sort_desc(updated);
    if sorted.len() > MAX_RECENT_ROMS {
        let tk = sorted.take(MAX_RECENT_ROMS as int);
        assert forall|i: int, j: int| 0 <= i < tk.len() && 0 <= j < tk.len() && i != j
            implies !eq_ignore_case(#[trigger] tk[i].crc32, #[trigger] tk[j].crc32) by {
            assert(tk[i] == sorted[i] && tk[j] == sorted[j]);
        }
    }
}

} // verus!
