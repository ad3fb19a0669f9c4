//! Per-game cheat codes: the entry model, the Libretro `.cht` text format and the
//! code decoders and memory injection of `engine`.
pub mod cht;
pub mod engine;
pub mod fastrand;
pub mod round_trip;
pub mod text;

pub use crate::cheats::engine::CheatEngine;


use vstd::prelude::*;
use crate::cheats::text::{
    dec_chars, is_hex, is_hex_char, push_char, push_decimal, split_lines, trim, trim_chars,
    trimmed_lines, views,
};

verus! {

/// Supported cheat code formats.
#[derive(Debug, Clone, Copy, PartialEq, Eq, Structural)]
pub enum CheatType {
    Raw,
    GameSharkGba,
    ActionReplayMax,
    GameSharkGbc,
}

impl Default for CheatType {
    fn default() -> (t: Self)
        ensures
            t == CheatType::Raw,
    {
        CheatType::Raw
    }
}

/// Number of hexadecimal digits in `s`.
pub open spec fn count_hex(s: Seq<char>) -> nat
    decreases s.len(),
{
    if s.len() == 0 {
        0
    } else {
        count_hex(s.drop_last()) + if is_hex(s.last()) { 1nat } else { 0nat }
    }
}

/// `s` holds the character `c`.
pub open spec fn has_char(s: Seq<char>, c: char) -> bool {
    exists|i: int| 0 <= i < s.len() && s[i] == c
}

/// The format that `CheatType::detect` picks for a code.
pub open spec fn detect_spec(code: Seq<char>, is_gba: bool) -> CheatType {
    if !is_gba {
        CheatType::GameSharkGbc
    } else if has_char(code, ':') || has_char(code, '=') {
        CheatType::Raw
    } else if count_hex(code) == 16 {
        CheatType::ActionReplayMax
    } else {
        CheatType::GameSharkGba
    }
}

/// The variant name that `{:?}` prints.
pub open spec fn variant_name(t: CheatType) -> Seq<char> {
    match t {
        CheatType::Raw => "Raw"@,
        CheatType::GameSharkGba => "GameSharkGba"@,
        CheatType::ActionReplayMax => "ActionReplayMax"@,
        CheatType::GameSharkGbc => "GameSharkGbc"@,
    }
}

impl CheatType {
    /// Human-readable label for UI display.
    pub fn label(&self) -> (r: &'static str)
        ensures
            *self == CheatType::Raw ==> r@ == "Raw Memory Patch"@,
            *self == CheatType::GameSharkGba ==> r@ == "GameShark Advance (GBA)"@,
            *self == CheatType::ActionReplayMax ==> r@ == "Action Replay MAX (GBA)"@,
            *self == CheatType::GameSharkGbc ==> r@ == "GameShark (GB/GBC)"@,
    {
        match self {
            CheatType::Raw => "Raw Memory Patch",
            CheatType::GameSharkGba => "GameShark Advance (GBA)",
            CheatType::ActionReplayMax => "Action Replay MAX (GBA)",
            CheatType::GameSharkGbc => "GameShark (GB/GBC)",
        }
    }

    /// Short badge identifier for compact UI lists.
    pub fn badge(&self) -> (r: &'static str)
        ensures
            *self == CheatType::Raw ==> r@ == "RAW"@,
            *self == CheatType::GameSharkGba ==> r@ == "GBA-GS"@,
            *self == CheatType::ActionReplayMax ==> r@ == "AR-MAX"@,
            *self == CheatType::GameSharkGbc ==> r@ == "GBC-GS"@,
    {
        match self {
            CheatType::Raw => "RAW",
            CheatType::GameSharkGba => "GBA-GS",
            CheatType::ActionReplayMax => "AR-MAX",
            CheatType::GameSharkGbc => "GBC-GS",
        }
    }

    /// Guesses the format of a code: every GB/GBC code is a GameShark code; on GBA a
    /// code with `:` or `=` is a raw patch, sixteen hex digits an Action Replay code and
    /// anything else a GameShark code.
    pub fn detect(code: &str, is_gba: bool) -> (t: CheatType)
        ensures
            t == detect_spec(code@, is_gba),
    {
        let v = crate::cheats::text::chars_of(code);
        Self::detect_chars(&v, is_gba)
    }

    /// `detect` on the characters of a code.
    pub fn detect_chars(v: &Vec<char>, is_gba: bool) -> (t: CheatType)
        ensures
            t == detect_spec(v@, is_gba),
    {
        if !is_gba {
            return CheatType::GameSharkGbc;
        }
        let mut i: usize = 0;
        let mut n: usize = 0;
        let mut sep = false;
        while i < v.len()
            invariant
                i <= v.len(),
                n == count_hex(v@.take(i as int)),
                n <= i,
                sep == (has_char(v@.take(i as int), ':') || has_char(v@.take(i as int), '=')),
            decreases v.len() - i,
        {
            let c = v[i];
            let ghost t0 = v@.take(i as int);
            let ghost t1 = v@.take(i + 1);
            assert(t1.drop_last() =~= t0);
            assert(t1.last() == c);
            proof {
                if has_char(t1, ':') {
                    let k = choose|k: int| 0 <= k < t1.len() && t1[k] == ':';
                    if k < i { assert(t0[k] == ':'); }
                }
                if has_char(t1, '=') {
                    let k = choose|k: int| 0 <= k < t1.len() && t1[k] == '=';
                    if k < i { assert(t0[k] == '='); }
                }
                if has_char(t0, ':') {
                    let k = choose|k: int| 0 <= k < t0.len() && t0[k] == ':';
                    assert(t1[k] == ':');
                }
                if has_char(t0, '=') {
                    let k = choose|k: int| 0 <= k < t0.len() && t0[k] == '=';
                    assert(t1[k] == '=');
                }
                if c == ':' { assert(t1[i as int] == ':'); }
                if c == '=' { assert(t1[i as int] == '='); }
            }
            if is_hex_char(c) {
                n = n + 1;
            }
            if c == ':' || c == '=' {
                sep = true;
            }
            i = i + 1;
        }
        assert(v@.take(v.len() as int) =~= v@);
        if sep {
            CheatType::Raw
        } else if n == 16 {
            CheatType::ActionReplayMax
        } else {
            CheatType::GameSharkGba
        }
    }
}

/// Mathematical model of a cheat entry.
pub ghost struct EntryView {
    pub id: Seq<char>,
    pub desc: Seq<char>,
    pub code: Seq<char>,
    pub enabled: bool,
    pub cheat_type: CheatType,
}

/// A single cheat code entry with description, code payload, and toggle state.
#[derive(Debug, Clone, PartialEq, Eq)]
pub struct CheatEntry {
    pub id: String,
    pub desc: String,
    pub code: String,
    pub enabled: bool,
    pub cheat_type: CheatType,
}

impl View for CheatEntry {
    type V = EntryView;

    open spec fn view(&self) -> EntryView {
        EntryView {
            id: self.id@,
            desc: self.desc@,
            code: self.code@,
            enabled: self.enabled,
            cheat_type: self.cheat_type,
        }
    }
}

/// The non-empty lines of `ls`, in order.
pub open spec fn nonempty(ls: Seq<Seq<char>>) -> Seq<Seq<char>>
    decreases ls.len(),
{
    if ls.len() == 0 {
        Seq::empty()
    } else if ls.last().len() == 0 {
        nonempty(ls.drop_last())
    } else {
        nonempty(ls.drop_last()).push(ls.last())
    }
}

/// `ls` joined with `sep` between consecutive pieces.
pub open spec fn join(ls: Seq<Seq<char>>, sep: Seq<char>) -> Seq<char>
    decreases ls.len(),
{
    if ls.len() == 0 {
        Seq::empty()
    } else if ls.len() == 1 {
        ls[0]
    } else {
        join(ls.drop_last(), sep) + sep + ls.last()
    }
}

/// The non-empty trimmed lines of a code joined with `sep`.
pub open spec fn code_lines_joined(code: Seq<char>, sep: Seq<char>) -> Seq<char> {
    join(nonempty(trimmed_lines(code)), sep)
}

/// A generated entry id: `cht_<n>_<salt>` with a four-digit salt.
pub open spec fn is_generated_id(id: Seq<char>, n: nat) -> bool {
    exists|salt: nat| 1000 <= salt < 9999 && id == "cht_"@ + dec_chars(n) + "_"@ + dec_chars(salt)
}

/// `cht_<n>_<salt>`.
pub fn make_id(n: u64, salt: u32) -> (s: String)
    ensures
        s@ == "cht_"@ + dec_chars(n as nat) + "_"@ + dec_chars(salt as nat),
{
    let mut s = String::new();
    s.append("cht_");
    push_decimal(&mut s, n as u128);
    s.append("_");
    push_decimal(&mut s, salt as u128);
    s
}

/// Trimmed lines of `v` that are not empty, each joined by `sep`.
pub fn join_code_lines(v: &Vec<char>, sep: &str) -> (s: String)
    ensures
        s@ == code_lines_joined(v@, sep@),
{
    let lines = split_lines(v);
    let ghost ls = views(lines@);
    let mut s = String::new();
    let mut first = true;
    let mut i: usize = 0;
    while i < lines.len()
        invariant
            i <= lines.len(),
            ls == views(lines@),
            ls == crate::cheats::text::split_nl(v@),
            s@ == join(nonempty(ls.take(i as int).map_values(|l: Seq<char>| trim(l))), sep@),
            first == (nonempty(ls.take(i as int).map_values(|l: Seq<char>| trim(l))).len() == 0),
        decreases lines.len() - i,
    {
        let t = trim_chars(&lines[i]);
        let ghost pre = ls.take(i as int).map_values(|l: Seq<char>| trim(l));
        let ghost post = ls.take(i + 1).map_values(|l: Seq<char>| trim(l));
        assert(post.drop_last() =~= pre);
        assert(post.last() == t@);
        if t.len() > 0 {
            if !first {
                s.append(sep);
            }
            crate::cheats::text::push_chars(&mut s, &t);
            first = false;
            assert(nonempty(post) == nonempty(pre).push(t@));
            proof {
                if nonempty(pre).len() == 0 {
                    assert(nonempty(post).len() == 1);
                } else {
                    assert(nonempty(post).drop_last() =~= nonempty(pre));
                }
            }
        } else {
            assert(nonempty(post) == nonempty(pre));
        }
        i = i + 1;
    }
    assert(ls.take(lines.len() as int) =~= ls);
    s
}

impl CheatEntry {
    /// A new entry whose id is `cht_<clock milliseconds>_<four random digits>`.
    pub fn new(desc: String, code: String, enabled: bool, cheat_type: CheatType) -> (e: Self)
        ensures
            e.desc@ == desc@,
            e.code@ == code@,
            e.enabled == enabled,
            e.cheat_type == cheat_type,
            exists|n: nat| is_generated_id(e.id@, n),
    {
        let ms = crate::clock::unix_millis();
        let salt = crate::cheats::fastrand::u32(1000..9999);
        let id = make_id(ms, salt);
        assert(is_generated_id(id@, ms as nat)) by {
            assert(1000 <= salt as nat && (salt as nat) < 9999);
        }
        let e = CheatEntry { id, desc, code, enabled, cheat_type };
        assert(is_generated_id(e.id@, ms as nat));
        e
    }

    /// The code's non-empty trimmed lines, one per line.
    pub fn formatted_code(&self) -> (s: String)
        ensures
            s@ == code_lines_joined(self.code@, "\n"@),
    {
        let v = crate::cheats::text::chars_of(self.code.as_str());
        join_code_lines(&v, "\n")
    }
}

/// Mathematical model of a game's cheat list.
pub ghost struct GameCheatsView {
    pub rom_crc32: u32,
    pub game_title: Seq<char>,
    pub entries: Seq<EntryView>,
}

/// Collection of cheats for a specific ROM identified by its CRC32 checksum.
#[derive(Debug, Clone, PartialEq, Eq)]
pub struct GameCheats {
    pub rom_crc32: u32,
    pub game_title: String,
    pub entries: Vec<CheatEntry>,
}

impl View for GameCheats {
    type V = GameCheatsView;

    open spec fn view(&self) -> GameCheatsView {
        GameCheatsView {
            rom_crc32: self.rom_crc32,
            game_title: self.game_title@,
            entries: self.entries@.map_values(|e: CheatEntry| e@),
        }
    }
}

/// Number of enabled entries.
pub open spec fn count_enabled(es: Seq<EntryView>) -> nat
    decreases es.len(),
{
    if es.len() == 0 {
        0
    } else {
        count_enabled(es.drop_last()) + if es.last().enabled { 1nat } else { 0nat }
    }
}

/// Index of the first entry with id `id`, if any.
pub open spec fn first_with_id(es: Seq<EntryView>, id: Seq<char>) -> Option<int> {
    if exists|i: int| 0 <= i < es.len() && es[i].id == id {
        Some(choose|i: int| 0 <= i < es.len() && es[i].id == id && forall|j: int| 0 <= j < i ==> es[j].id != id)
    } else {
        None
    }
}

/// `e` with its enabled flag flipped.
pub open spec fn flipped(e: EntryView) -> EntryView {
    EntryView { enabled: !e.enabled, ..e }
}

impl Default for GameCheats {
    fn default() -> (g: Self)
        ensures
            g@.rom_crc32 == 0,
            g@.game_title == Seq::<char>::empty(),
            g@.entries == Seq::<EntryView>::empty(),
    {
        GameCheats { rom_crc32: 0, game_title: String::new(), entries: Vec::new() }
    }
}

/// The first index with the given id exists and is the first match.
proof fn lemma_first_with_id(es: Seq<EntryView>, id: Seq<char>, k: int)
    requires
        0 <= k < es.len(),
        es[k].id == id,
        forall|j: int| 0 <= j < k ==> es[j].id != id,
    ensures
        first_with_id(es, id) == Some(k),
{
    let c = choose|i: int| 0 <= i < es.len() && es[i].id == id && forall|j: int| 0 <= j < i ==> es[j].id != id;
    assert(0 <= c < es.len() && es[c].id == id && forall|j: int| 0 <= j < c ==> es[j].id != id);
    if c < k {
        assert(es[c].id != id);
    }
    if k < c {
        assert(es[k].id != id);
    }
}

impl GameCheats {
    /// An empty collection for a game.
    pub fn new(rom_crc32: u32, game_title: String) -> (g: Self)
        ensures
            g@.rom_crc32 == rom_crc32,
            g@.game_title == game_title@,
            g@.entries == Seq::<EntryView>::empty(),
    {
        GameCheats { rom_crc32, game_title, entries: Vec::new() }
    }

    /// Number of entries.
    pub fn len(&self) -> (n: usize)
        ensures
            n == self@.entries.len(),
    {
        self.entries.len()
    }

    /// No entries.
    pub fn is_empty(&self) -> (b: bool)
        ensures
            b == (self@.entries.len() == 0),
    {
        self.entries.len() == 0
    }

    /// Number of enabled entries.
    pub fn enabled_count(&self) -> (n: usize)
        ensures
            n == count_enabled(self@.entries),
    {
        let mut n: usize = 0;
        let mut i: usize = 0;
        while i < self.entries.len()
            invariant
                i <= self.entries.len(),
                n == count_enabled(self@.entries.take(i as int)),
                n <= i,
            decreases self.entries.len() - i,
        {
            assert(self@.entries.take(i + 1).drop_last() =~= self@.entries.take(i as int));
            if self.entries[i].enabled {
                n = n + 1;
            }
            i = i + 1;
        }
        assert(self@.entries.take(self.entries.len() as int) =~= self@.entries);
        n
    }

    /// Appends an enabled entry with a generated id and returns it.
    pub fn add(&mut self, desc: String, code: String, cheat_type: CheatType) -> (e: &CheatEntry)
        ensures
            final(self)@.rom_crc32 == old(self)@.rom_crc32,
            final(self)@.game_title == old(self)@.game_title,
            final(self)@.entries.len() == old(self)@.entries.len() + 1,
            final(self)@.entries.drop_last() == old(self)@.entries,
            final(self)@.entries.last() == e@,
            e.desc@ == desc@,
            e.code@ == code@,
            e.enabled,
            e.cheat_type == cheat_type,
            exists|n: nat| is_generated_id(e.id@, n),
    {
        let entry = CheatEntry::new(desc, code, true, cheat_type);
        let ghost ev = entry@;
        self.entries.push(entry);
        assert(self@.entries =~= old(self)@.entries.push(ev));
        let last = self.entries.len() - 1;
        &self.entries[last]
    }

    /// Removes the first entry with the given id; `false` if there is none.
    pub fn remove(&mut self, id: &str) -> (found: bool)
        ensures
            final(self)@.rom_crc32 == old(self)@.rom_crc32,
            final(self)@.game_title == old(self)@.game_title,
            found == (first_with_id(old(self)@.entries, id@) is Some),
            match first_with_id(old(self)@.entries, id@) {
                Some(k) => final(self)@.entries == old(self)@.entries.remove(k),
                None => final(self)@.entries == old(self)@.entries,
            },
    {
        let key = String::from_str(id);
        let mut i: usize = 0;
        while i < self.entries.len()
            invariant
                i <= self.entries.len(),
                self@ == old(self)@,
                key@ == id@,
                forall|j: int| 0 <= j < i ==> self@.entries[j].id != id@,
            decreases self.entries.len() - i,
        {
            if self.entries[i].id == key {
                proof { lemma_first_with_id(self@.entries, id@, i as int); }
                let ghost before = self@.entries;
                self.entries.remove(i);
                assert(self@.entries =~= before.remove(i as int));
                return true;
            }
            i = i + 1;
        }
        assert(!(exists|i: int| 0 <= i < self@.entries.len() && self@.entries[i].id == id@));
        false
    }

    /// Removes and returns the entry at `index`, if there is one.
    pub fn remove_at(&mut self, index: usize) -> (r: Option<CheatEntry>)
        ensures
            final(self)@.rom_crc32 == old(self)@.rom_crc32,
            final(self)@.game_title == old(self)@.game_title,
            index < old(self)@.entries.len() ==> r is Some && r.unwrap()@ == old(self)@.entries[index as int]
                && final(self)@.entries == old(self)@.entries.remove(index as int),
            index >= old(self)@.entries.len() ==> r is None && final(self)@.entries == old(self)@.entries,
    {
        if index < self.entries.len() {
            let ghost before = self@.entries;
            let e = self.entries.remove(index);
            assert(self@.entries =~= before.remove(index as int));
            Some(e)
        } else {
            None
        }
    }

    /// Flips the enabled flag of the first entry with the given id, if any.
    pub fn toggle(&mut self, id: &str)
        ensures
            final(self)@.rom_crc32 == old(self)@.rom_crc32,
            final(self)@.game_title == old(self)@.game_title,
            match first_with_id(old(self)@.entries, id@) {
                Some(k) => final(self)@.entries == old(self)@.entries.update(k, flipped(old(self)@.entries[k])),
                None => final(self)@.entries == old(self)@.entries,
            },
    {
        let key = String::from_str(id);
        let mut i: usize = 0;
        while i < self.entries.len()
            invariant
                i <= self.entries.len(),
                self@ == old(self)@,
                key@ == id@,
                forall|j: int| 0 <= j < i ==> self@.entries[j].id != id@,
            decreases self.entries.len() - i,
        {
            if self.entries[i].id == key {
                proof { lemma_first_with_id(self@.entries, id@, i as int); }
                self.toggle_at(i);
                return;
            }
            i = i + 1;
        }
        assert(!(exists|i: int| 0 <= i < self@.entries.len() && self@.entries[i].id == id@));
    }

    /// Flips the enabled flag of the entry at `index`, if there is one.
    pub fn toggle_at(&mut self, index: usize)
        ensures
            final(self)@.rom_crc32 == old(self)@.rom_crc32,
            final(self)@.game_title == old(self)@.game_title,
            index < old(self)@.entries.len() ==> final(self)@.entries
                == old(self)@.entries.update(index as int, flipped(old(self)@.entries[index as int])),
            index >= old(self)@.entries.len() ==> final(self)@.entries == old(self)@.entries,
    {
        if index < self.entries.len() {
            let ghost before = self@.entries;
            let flag = self.entries[index].enabled;
            self.entries[index].enabled = !flag;
            assert(self@.entries =~= before.update(index as int, flipped(before[index as int])));
        }
    }

    /// Sets every entry's enabled flag.
    pub fn set_all_enabled(&mut self, enabled: bool)
        ensures
            final(self)@.rom_crc32 == old(self)@.rom_crc32,
            final(self)@.game_title == old(self)@.game_title,
            final(self)@.entries.len() == old(self)@.entries.len(),
            forall|i: int| 0 <= i < old(self)@.entries.len() ==> #[trigger] final(self)@.entries[i]
                == (EntryView { enabled, ..old(self)@.entries[i] }),
    {
        let mut i: usize = 0;
        while i < self.entries.len()
            invariant
                i <= self.entries.len(),
                self@.rom_crc32 == old(self)@.rom_crc32,
                self@.game_title == old(self)@.game_title,
                self@.entries.len() == old(self)@.entries.len(),
                forall|j: int| 0 <= j < i ==> #[trigger] self.entries@[j] == (CheatEntry { enabled, ..old(self).entries@[j] }),
                forall|j: int| i <= j < self.entries@.len() ==> #[trigger] self.entries@[j] == old(self).entries@[j],
            decreases self.entries.len() - i,
        {
            let ghost before = self.entries@;
            self.entries[i].enabled = enabled;
            assert(self.entries@ =~= before.update(i as int, CheatEntry { enabled, ..before[i as int] }));
            i = i + 1;
        }
    }

    /// Removes every entry.
    pub fn clear(&mut self)
        ensures
            final(self)@.rom_crc32 == old(self)@.rom_crc32,
            final(self)@.game_title == old(self)@.game_title,
            final(self)@.entries == Seq::<EntryView>::empty(),
    {
        self.entries.clear();
        assert(self@.entries =~= Seq::<EntryView>::empty());
    }
}

} // verus!
