//! The Libretro `.cht` text format: writing a game's cheat list and reading one back.
use vstd::prelude::*;
use crate::cheats::{
    CheatEntry, CheatType, EntryView, GameCheats, GameCheatsView, code_lines_joined, detect_spec,
    is_generated_id, join_code_lines, make_id, variant_name,
};
use crate::cheats::text::{
    chars_of, dec_chars, hex8, parse_dec_spec, parse_usize, push_char, push_chars, push_decimal, push_hex8,
    split_lines, split_nl, string_of, trim, trim_chars, views,
};

verus! {

/// `s` with every non-overlapping occurrence of `pat`, scanned left to right, replaced by
/// `rep` (`str::replace` for a non-empty pattern).
pub open spec fn replace(s: Seq<char>, pat: Seq<char>, rep: Seq<char>) -> Seq<char>
    decreases s.len(),
{
    if s.len() == 0 {
        Seq::empty()
    } else if 0 < pat.len() <= s.len() && s.take(pat.len() as int) == pat {
        rep + replace(s.skip(pat.len() as int), pat, rep)
    } else {
        seq![s[0]] + replace(s.skip(1), pat, rep)
    }
}

/// Lines, each followed by a newline.
pub open spec fn join_lines(ls: Seq<Seq<char>>) -> Seq<char>
    decreases ls.len(),
{
    if ls.len() == 0 {
        Seq::empty()
    } else {
        join_lines(ls.drop_last()) + ls.last().push('\n')
    }
}

/// `s` between double quotes.
pub open spec fn quoted(s: Seq<char>) -> Seq<char> {
    seq!['"'] + s + seq!['"']
}

/// A `cheat<i>_<field> = <val>` line.
pub open spec fn field_line(i: nat, field: Seq<char>, val: Seq<char>) -> Seq<char> {
    "cheat"@ + dec_chars(i) + seq!['_'] + field + seq![' ', '=', ' '] + val
}

/// The `.cht` header lines: title, CRC, blank, entry count, blank.
pub open spec fn cht_header_lines(v: GameCheatsView) -> Seq<Seq<char>> {
    seq![
        "# PixelDrive Cheat File: "@ + v.game_title,
        "# ROM CRC32: "@ + hex8(v.rom_crc32),
        Seq::empty(),
        "cheats = "@ + dec_chars(v.entries.len()),
        Seq::empty(),
    ]
}

/// The `.cht` header.
pub open spec fn cht_header(v: GameCheatsView) -> Seq<char> {
    join_lines(cht_header_lines(v))
}

/// The lines of entry `i`: quoted description (each `"` escaped), quoted code (trimmed
/// non-empty lines joined by ` + `), enable flag, quoted format name, blank.
pub open spec fn cht_block_lines(i: nat, e: EntryView) -> Seq<Seq<char>> {
    seq![
        field_line(i, "desc"@, quoted(replace(e.desc, "\""@, "\\\""@))),
        field_line(i, "code"@, quoted(code_lines_joined(e.code, " + "@))),
        field_line(i, "enable"@, if e.enabled { "true"@ } else { "false"@ }),
        field_line(i, "type"@, quoted(variant_name(e.cheat_type))),
        Seq::empty(),
    ]
}

/// The text of entry `i`.
pub open spec fn cht_block(i: nat, e: EntryView) -> Seq<char> {
    join_lines(cht_block_lines(i, e))
}

/// The blocks of all entries, numbered from 0.
pub open spec fn cht_blocks(es: Seq<EntryView>) -> Seq<char>
    decreases es.len(),
{
    if es.len() == 0 {
        Seq::empty()
    } else {
        cht_blocks(es.drop_last()) + cht_block((es.len() - 1) as nat, es.last())
    }
}

/// The whole `.cht` text of a cheat list.
pub open spec fn cht_text(v: GameCheatsView) -> Seq<char> {
    cht_header(v) + cht_blocks(v.entries)
}

/// Index of the first `c` in `s`.
pub open spec fn first_index(s: Seq<char>, c: char) -> Option<int>
    decreases s.len(),
{
    if s.len() == 0 {
        None
    } else if s[0] == c {
        Some(0)
    } else {
        match first_index(s.drop_first(), c) {
            Some(k) => Some(k + 1),
            None => None,
        }
    }
}

/// A value with its surrounding pair of `"` or `'` removed.
pub open spec fn unquote(val: Seq<char>) -> Seq<char> {
    if val.len() > 0 && ((val[0] == '"' && val.last() == '"') || (val[0] == '\'' && val.last() == '\'')) {
        if val.len() >= 2 {
            val.subrange(1, val.len() - 1)
        } else {
            Seq::empty()
        }
    } else {
        val
    }
}

/// The single-character lowercase of `c` where it is ASCII (`A`-`Z` and the Kelvin sign);
/// every other character is returned unchanged, and no other one lowercases to ASCII.
pub open spec fn lower_char(c: char) -> char {
    if 'A' <= c <= 'Z' {
        ((c as int) + 32) as char
    } else if c == '\u{212a}' {
        'k'
    } else {
        c
    }
}

/// `s.to_lowercase() == kw` for an ASCII lowercase keyword `kw`.
pub open spec fn lower_eq(s: Seq<char>, kw: Seq<char>) -> bool {
    s.len() == kw.len() && forall|i: int| 0 <= i < s.len() ==> lower_char(#[trigger] s[i]) == kw[i]
}

/// The truth value of an `enable` field.
pub open spec fn enable_value(s: Seq<char>) -> bool {
    lower_eq(s, "true"@) || lower_eq(s, "1"@) || lower_eq(s, "yes"@) || lower_eq(s, "on"@)
}

/// The format named by a `type` field.
pub open spec fn type_value(s: Seq<char>) -> CheatType {
    if lower_eq(s, "gamesharkgba"@) || lower_eq(s, "gameshark_gba"@) || lower_eq(s, "gba"@) {
        CheatType::GameSharkGba
    } else if lower_eq(s, "actionreplaymax"@) || lower_eq(s, "action_replay"@) || lower_eq(s, "ar"@) {
        CheatType::ActionReplayMax
    } else if lower_eq(s, "gamesharkgbc"@) || lower_eq(s, "gameshark_gbc"@) || lower_eq(s, "gbc"@) {
        CheatType::GameSharkGbc
    } else {
        CheatType::Raw
    }
}

/// What one `cheat<N>_<field> = value` line assigns.
pub ghost enum FieldView {
    Desc(Seq<char>),
    Code(Seq<char>),
    Enable(bool),
    Kind(CheatType),
    Other,
}

/// The assignment that a field name and its unquoted value make.
pub open spec fn field_value(field: Seq<char>, unq: Seq<char>) -> FieldView {
    if field == "desc"@ {
        FieldView::Desc(replace(unq, "\\\""@, "\""@))
    } else if field == "code"@ {
        FieldView::Code(replace(unq, " + "@, "\n"@))
    } else if field == "enable"@ {
        FieldView::Enable(enable_value(unq))
    } else if field == "type"@ {
        FieldView::Kind(type_value(unq))
    } else {
        FieldView::Other
    }
}

/// The `(index, assignment)` that a trimmed line makes, if it is a `cheat<N>_<field>` line
/// with a decimal index.
pub open spec fn line_assign(line: Seq<char>) -> Option<(nat, FieldView)> {
    if line.len() == 0 || line[0] == '#' || line[0] == ';' {
        None
    } else {
        match first_index(line, '=') {
            None => None,
            Some(p) => {
                let key = trim(line.take(p));
                let unq = unquote(trim(line.skip(p + 1)));
                if key == "cheats"@ || key.len() < 5 || key.take(5) != "cheat"@ {
                    None
                } else {
                    let rest = key.skip(5);
                    match first_index(rest, '_') {
                        None => None,
                        Some(q) => match parse_dec_spec(rest.take(q)) {
                            None => None,
                            Some(idx) => Some((idx as nat, field_value(rest.skip(q + 1), unq))),
                        },
                    }
                }
            },
        }
    }
}

/// The assignments of all lines, in order.
pub open spec fn assigns(ls: Seq<Seq<char>>) -> Seq<(nat, FieldView)>
    decreases ls.len(),
{
    if ls.len() == 0 {
        Seq::empty()
    } else {
        match line_assign(trim(ls.last())) {
            Some(x) => assigns(ls.drop_last()).push(x),
            None => assigns(ls.drop_last()),
        }
    }
}

/// The largest index assigned to.
pub open spec fn max_index(a: Seq<(nat, FieldView)>) -> Option<nat>
    decreases a.len(),
{
    if a.len() == 0 {
        None
    } else {
        match max_index(a.drop_last()) {
            None => Some(a.last().0),
            Some(m) => Some(if a.last().0 > m { a.last().0 } else { m }),
        }
    }
}

/// The last assignment of index `idx` that `pick` accepts.
pub open spec fn last_field(a: Seq<(nat, FieldView)>, idx: nat, kind: int) -> Option<FieldView>
    decreases a.len(),
{
    if a.len() == 0 {
        None
    } else if a.last().0 == idx && field_kind(a.last().1) == kind {
        Some(a.last().1)
    } else {
        last_field(a.drop_last(), idx, kind)
    }
}

/// 0 for a description, 1 for a code, 2 for an enable flag, 3 for a type, 4 otherwise.
pub open spec fn field_kind(f: FieldView) -> int {
    match f {
        FieldView::Desc(_) => 0,
        FieldView::Code(_) => 1,
        FieldView::Enable(_) => 2,
        FieldView::Kind(_) => 3,
        FieldView::Other => 4,
    }
}

/// One entry read back from a `.cht` text, without its generated id.
pub ghost struct ParsedEntry {
    pub idx: nat,
    pub desc: Seq<char>,
    pub code: Seq<char>,
    pub enabled: bool,
    pub cheat_type: CheatType,
}

/// The entry of index `idx`, if a code was assigned to it. A missing description reads
/// `Cheat Code <idx + 1>`, a missing flag enabled, a missing type is detected from the code.
pub open spec fn entry_at(a: Seq<(nat, FieldView)>, idx: nat) -> Option<ParsedEntry> {
    match last_field(a, idx, 1) {
        Some(FieldView::Code(code)) => Some(ParsedEntry {
            idx,
            desc: match last_field(a, idx, 0) {
                Some(FieldView::Desc(d)) => d,
                _ => "Cheat Code "@ + dec_chars(idx + 1),
            },
            code,
            enabled: match last_field(a, idx, 2) {
                Some(FieldView::Enable(b)) => b,
                _ => true,
            },
            cheat_type: match last_field(a, idx, 3) {
                Some(FieldView::Kind(t)) => t,
                _ => detect_spec(code, true),
            },
        }),
        _ => None,
    }
}

/// The entries of indices `0..n`, in index order.
pub open spec fn entries_below(a: Seq<(nat, FieldView)>, n: nat) -> Seq<ParsedEntry>
    decreases n,
{
    if n == 0 {
        Seq::empty()
    } else {
        match entry_at(a, (n - 1) as nat) {
            Some(e) => entries_below(a, (n - 1) as nat).push(e),
            None => entries_below(a, (n - 1) as nat),
        }
    }
}

/// The entries that a `.cht` text describes.
pub open spec fn parsed_entries(content: Seq<char>) -> Seq<ParsedEntry> {
    let a = assigns(split_nl(content));
    match max_index(a) {
        None => Seq::empty(),
        Some(m) => entries_below(a, m + 1),
    }
}

/// An executable field assignment.
pub enum FieldValue {
    Desc(Vec<char>),
    Code(Vec<char>),
    Enable(bool),
    Kind(CheatType),
    Other,
}

impl View for FieldValue {
    type V = FieldView;

    open spec fn view(&self) -> FieldView {
        match self {
            FieldValue::Desc(v) => FieldView::Desc(v@),
            FieldValue::Code(v) => FieldView::Code(v@),
            FieldValue::Enable(b) => FieldView::Enable(*b),
            FieldValue::Kind(t) => FieldView::Kind(*t),
            FieldValue::Other => FieldView::Other,
        }
    }
}

/// The views of executable assignments.
pub open spec fn assign_views(v: Seq<(usize, FieldValue)>) -> Seq<(nat, FieldView)> {
    v.map_values(|p: (usize, FieldValue)| (p.0 as nat, p.1@))
}

/// A copy of a character vector.
pub fn copy_chars(v: &Vec<char>) -> (r: Vec<char>)
    ensures
        r@ == v@,
{
    let mut r: Vec<char> = Vec::new();
    let mut i: usize = 0;
    while i < v.len()
        invariant
            i <= v.len(),
            r@ == v@.take(i as int),
        decreases v.len() - i,
    {
        r.push(v[i]);
        i = i + 1;
        assert(r@ =~= v@.take(i as int));
    }
    assert(v@.take(v.len() as int) =~= v@);
    r
}

/// The characters `v[from..to]`.
pub fn sub_chars(v: &Vec<char>, from: usize, to: usize) -> (r: Vec<char>)
    requires
        from <= to <= v.len(),
    ensures
        r@ == v@.subrange(from as int, to as int),
{
    let mut r: Vec<char> = Vec::new();
    let mut i: usize = from;
    while i < to
        invariant
            from <= i <= to <= v.len(),
            r@ == v@.subrange(from as int, i as int),
        decreases to - i,
    {
        r.push(v[i]);
        i = i + 1;
        assert(r@ =~= v@.subrange(from as int, i as int));
    }
    r
}

/// `v` equals the literal `lit`.
pub fn eq_lit(v: &Vec<char>, lit: &str) -> (b: bool)
    ensures
        b == (v@ == lit@),
{
    let n = lit.unicode_len();
    if v.len() != n {
        return false;
    }
    let mut i: usize = 0;
    while i < n
        invariant
            i <= n,
            n == v@.len(),
            n == lit@.len(),
            forall|k: int| 0 <= k < i ==> v@[k] == lit@[k],
        decreases n - i,
    {
        if v[i] != lit.get_char(i) {
            return false;
        }
        i = i + 1;
    }
    assert(v@ =~= lit@);
    true
}

/// `v` starts with the literal `lit`.
pub fn starts_with_lit(v: &Vec<char>, lit: &str) -> (b: bool)
    ensures
        b == (v@.len() >= lit@.len() && v@.take(lit@.len() as int) == lit@),
{
    let n = lit.unicode_len();
    if v.len() < n {
        return false;
    }
    let mut i: usize = 0;
    while i < n
        invariant
            i <= n,
            n <= v@.len(),
            n == lit@.len(),
            forall|k: int| 0 <= k < i ==> v@[k] == lit@[k],
        decreases n - i,
    {
        if v[i] != lit.get_char(i) {
            assert(v@.take(n as int)[i as int] != lit@[i as int]);
            return false;
        }
        i = i + 1;
    }
    assert(v@.take(n as int) =~= lit@);
    true
}

/// `s.to_lowercase() == kw` for an ASCII lowercase keyword.
pub fn lower_eq_lit(v: &Vec<char>, kw: &str) -> (b: bool)
    ensures
        b == lower_eq(v@, kw@),
{
    let n = kw.unicode_len();
    if v.len() != n {
        return false;
    }
    let mut i: usize = 0;
    while i < n
        invariant
            i <= n,
            n == v@.len(),
            n == kw@.len(),
            forall|k: int| 0 <= k < i ==> lower_char(#[trigger] v@[k]) == kw@[k],
        decreases n - i,
    {
        let c = v[i];
        let l = if 'A' <= c && c <= 'Z' {
            char_from_u32_ascii(c as u32 + 32)
        } else if c == '\u{212a}' {
            'k'
        } else {
            c
        };
        assert(l == lower_char(c));
        if l != kw.get_char(i) {
            return false;
        }
        i = i + 1;
    }
    true
}

/// The character with an ASCII code point.
fn char_from_u32_ascii(x: u32) -> (c: char)
    requires
        x < 128,
    ensures
        c == x as char,
{
    (x as u8) as char
}

/// Index of the first `c` in `v`.
pub fn find_char(v: &Vec<char>, c: char) -> (r: Option<usize>)
    ensures
        match r {
            Some(k) => k < v.len() && v@[k as int] == c && first_index(v@, c) == Some(k as int),
            None => first_index(v@, c) is None,
        },
{
    let mut i: usize = 0;
    while i < v.len()
        invariant
            i <= v.len(),
            forall|k: int| 0 <= k < i ==> v@[k] != c,
        decreases v.len() - i,
    {
        if v[i] == c {
            proof { lemma_first_index(v@, c, i as int); }
            return Some(i);
        }
        i = i + 1;
    }
    proof { lemma_first_index_none(v@, c); }
    None
}

/// The first `c` is at `i` when none comes before it.
pub(crate) proof fn lemma_first_index(s: Seq<char>, c: char, i: int)
    requires
        0 <= i < s.len(),
        s[i] == c,
        forall|k: int| 0 <= k < i ==> s[k] != c,
    ensures
        first_index(s, c) == Some(i),
    decreases i,
{
    if i > 0 {
        lemma_first_index(s.drop_first(), c, i - 1);
    }
}

/// No `c` at all: no first index.
pub(crate) proof fn lemma_first_index_none(s: Seq<char>, c: char)
    requires
        forall|k: int| 0 <= k < s.len() ==> s[k] != c,
    ensures
        first_index(s, c) is None,
    decreases s.len(),
{
    if s.len() > 0 {
        lemma_first_index_none(s.drop_first(), c);
    }
}

/// `replace` on characters.
pub fn replace_chars(v: &Vec<char>, pat: &Vec<char>, rep: &Vec<char>) -> (r: Vec<char>)
    ensures
        r@ == replace(v@, pat@, rep@),
{
    let mut out: Vec<char> = Vec::new();
    let mut i: usize = 0;
    let n = v.len();
    let m = pat.len();
    assert(v@.skip(0) =~= v@);
    while i < n
        invariant
            i <= n,
            n == v.len(),
            m == pat.len(),
            out@ + replace(v@.skip(i as int), pat@, rep@) == replace(v@, pat@, rep@),
        decreases n - i,
    {
        let ghost rest = v@.skip(i as int);
        let mut hit = 0 < m && m <= n - i;
        if hit {
            let mut k: usize = 0;
            while k < m
                invariant
                    k <= m,
                    0 < m <= n - i,
                    n == v.len(),
                    m == pat.len(),
                    rest == v@.skip(i as int),
                    hit == (forall|j: int| 0 <= j < k ==> v@[i + j] == pat@[j]),
                decreases m - k,
            {
                if v[i + k] != pat[k] {
                    hit = false;
                }
                k = k + 1;
            }
            assert(hit == (rest.take(m as int) =~= pat@)) by {
                if hit {
                    assert forall|j: int| 0 <= j < m implies rest.take(m as int)[j] == pat@[j] by {
                        assert(v@[i + j] == pat@[j]);
                    }
                } else {
                    let j = choose|j: int| 0 <= j < m && v@[i + j] != pat@[j];
                    assert(rest.take(m as int)[j] != pat@[j]);
                }
            }
        }
        if hit {
            let mut q: usize = 0;
            let ghost out0 = out@;
            while q < rep.len()
                invariant
                    q <= rep.len(),
                    out@ == out0 + rep@.take(q as int),
                decreases rep.len() - q,
            {
                out.push(rep[q]);
                q = q + 1;
                assert(out@ =~= out0 + rep@.take(q as int));
            }
            assert(rep@.take(rep.len() as int) =~= rep@);
            assert(rest.skip(m as int) =~= v@.skip(i + m));
            assert(out@ + replace(v@.skip(i + m), pat@, rep@) =~= out0 + replace(rest, pat@, rep@));
            i = i + m;
        } else {
            let ghost out0 = out@;
            out.push(v[i]);
            assert(rest.skip(1) =~= v@.skip(i + 1));
            assert(out@ + replace(v@.skip(i + 1), pat@, rep@) =~= out0 + replace(rest, pat@, rep@));
            i = i + 1;
        }
    }
    assert(v@.skip(n as int) =~= Seq::<char>::empty());
    assert(out@ + Seq::<char>::empty() =~= out@);
    out
}

/// `unquote` on characters.
pub fn unquote_chars(v: &Vec<char>) -> (r: Vec<char>)
    ensures
        r@ == unquote(v@),
{
    let n = v.len();
    if n > 0 && ((v[0] == '"' && v[n - 1] == '"') || (v[0] == '\'' && v[n - 1] == '\'')) {
        if n >= 2 {
            sub_chars(v, 1, n - 1)
        } else {
            Vec::new()
        }
    } else {
        copy_chars(v)
    }
}

/// `field_value` on characters.
pub fn field_value_exec(field: &Vec<char>, unq: &Vec<char>) -> (r: FieldValue)
    ensures
        r@ == field_value(field@, unq@),
{
    if eq_lit(field, "desc") {
        let pat = chars_of("\\\"");
        let rep = chars_of("\"");
        FieldValue::Desc(replace_chars(unq, &pat, &rep))
    } else if eq_lit(field, "code") {
        let pat = chars_of(" + ");
        let rep = chars_of("\n");
        FieldValue::Code(replace_chars(unq, &pat, &rep))
    } else if eq_lit(field, "enable") {
        let b = lower_eq_lit(unq, "true") || lower_eq_lit(unq, "1") || lower_eq_lit(unq, "yes")
            || lower_eq_lit(unq, "on");
        FieldValue::Enable(b)
    } else if eq_lit(field, "type") {
        let t = if lower_eq_lit(unq, "gamesharkgba") || lower_eq_lit(unq, "gameshark_gba") || lower_eq_lit(unq, "gba") {
            CheatType::GameSharkGba
        } else if lower_eq_lit(unq, "actionreplaymax") || lower_eq_lit(unq, "action_replay") || lower_eq_lit(unq, "ar") {
            CheatType::ActionReplayMax
        } else if lower_eq_lit(unq, "gamesharkgbc") || lower_eq_lit(unq, "gameshark_gbc") || lower_eq_lit(unq, "gbc") {
            CheatType::GameSharkGbc
        } else {
            CheatType::Raw
        };
        FieldValue::Kind(t)
    } else {
        FieldValue::Other
    }
}

/// `line_assign` on a trimmed line.
pub fn line_assign_exec(line: &Vec<char>) -> (r: Option<(usize, FieldValue)>)
    ensures
        match line_assign(line@) {
            Some(x) => r is Some && r.unwrap().0 as nat == x.0 && r.unwrap().1@ == x.1,
            None => r is None,
        },
{
    proof {
        reveal_strlit("cheat");
    }
    let n = line.len();
    if n == 0 || line[0] == '#' || line[0] == ';' {
        return None;
    }
    let p = match find_char(line, '=') {
        Some(p) => p,
        None => return None,
    };
    let key = trim_chars(&sub_chars(line, 0, p));
    assert(line@.subrange(0, p as int) =~= line@.take(p as int));
    let val = trim_chars(&sub_chars(line, p + 1, n));
    assert(line@.subrange(p + 1, n as int) =~= line@.skip(p + 1));
    let unq = unquote_chars(&val);
    if eq_lit(&key, "cheats") || !starts_with_lit(&key, "cheat") {
        return None;
    }
    let rest = sub_chars(&key, 5, key.len());
    assert(key@.subrange(5, key@.len() as int) =~= key@.skip(5));
    let q = match find_char(&rest, '_') {
        Some(q) => q,
        None => return None,
    };
    let idx_chars = sub_chars(&rest, 0, q);
    assert(rest@.subrange(0, q as int) =~= rest@.take(q as int));
    let idx = match parse_usize(&idx_chars) {
        Some(i) => i,
        None => return None,
    };
    let field = sub_chars(&rest, q + 1, rest.len());
    assert(rest@.subrange(q + 1, rest@.len() as int) =~= rest@.skip(q + 1));
    Some((idx, field_value_exec(&field, &unq)))
}

/// `cht_block` of entry `i`.
fn cht_block_exec(i: usize, e: &CheatEntry) -> (b: String)
    ensures
        b@ == cht_block(i as nat, e@),
{
    let quote = chars_of("\"");
    let escaped = chars_of("\\\"");
    let d = replace_chars(&chars_of(e.desc.as_str()), &quote, &escaped);
    let code = chars_of(e.code.as_str());
    let joined = join_code_lines(&code, " + ");
    let mut b = String::new();
    push_field_start(&mut b, i, "desc");
    push_char(&mut b, '"');
    push_chars(&mut b, &d);
    push_char(&mut b, '"');
    push_char(&mut b, '\n');
    let ghost l0 = b@;
    push_field_start(&mut b, i, "code");
    push_char(&mut b, '"');
    b.append(joined.as_str());
    push_char(&mut b, '"');
    push_char(&mut b, '\n');
    let ghost l1 = b@;
    push_field_start(&mut b, i, "enable");
    if e.enabled {
        b.append("true");
    } else {
        b.append("false");
    }
    push_char(&mut b, '\n');
    let ghost l2 = b@;
    push_field_start(&mut b, i, "type");
    push_char(&mut b, '"');
    match e.cheat_type {
        CheatType::Raw => b.append("Raw"),
        CheatType::GameSharkGba => b.append("GameSharkGba"),
        CheatType::ActionReplayMax => b.append("ActionReplayMax"),
        CheatType::GameSharkGbc => b.append("GameSharkGbc"),
    }
    push_char(&mut b, '"');
    push_char(&mut b, '\n');
    let ghost l3 = b@;
    push_char(&mut b, '\n');
    proof {
        let ls = cht_block_lines(i as nat, e@);
        reveal_with_fuel(join_lines, 6);
        assert(ls.take(1) =~= seq![ls[0]]);
        assert(l0 =~= join_lines(ls.take(1)));
        assert(ls.take(2).drop_last() =~= ls.take(1));
        assert(l1 =~= join_lines(ls.take(2)));
        assert(ls.take(3).drop_last() =~= ls.take(2));
        assert(l2 =~= join_lines(ls.take(3)));
        assert(ls.take(4).drop_last() =~= ls.take(3));
        assert(l3 =~= join_lines(ls.take(4)));
        assert(ls.drop_last() =~= ls.take(4));
        assert(b@ =~= join_lines(ls));
    }
    b
}

/// Appends `cheat<i>_<field> = `.
fn push_field_start(b: &mut String, i: usize, field: &str)
    ensures
        final(b)@ == old(b)@ + "cheat"@ + dec_chars(i as nat) + seq!['_'] + field@ + seq![' ', '=', ' '],
{
    b.append("cheat");
    push_decimal(b, i as u128);
    push_char(b, '_');
    b.append(field);
    push_char(b, ' ');
    push_char(b, '=');
    push_char(b, ' ');
    assert(b@ =~= old(b)@ + "cheat"@ + dec_chars(i as nat) + seq!['_'] + field@ + seq![' ', '=', ' ']);
}

/// `field_kind` of an executable assignment.
fn field_kind_exec(f: &FieldValue) -> (k: u8)
    ensures
        k as int == field_kind(f@),
{
    match f {
        FieldValue::Desc(_) => 0,
        FieldValue::Code(_) => 1,
        FieldValue::Enable(_) => 2,
        FieldValue::Kind(_) => 3,
        FieldValue::Other => 4,
    }
}

/// Position of the last assignment of kind `kind` to index `idx`.
fn last_field_pos(a: &Vec<(usize, FieldValue)>, idx: usize, kind: u8) -> (r: Option<usize>)
    ensures
        match r {
            Some(p) => p < a@.len() && last_field(assign_views(a@), idx as nat, kind as int)
                == Some(assign_views(a@)[p as int].1) && field_kind(assign_views(a@)[p as int].1) == kind as int,
            None => last_field(assign_views(a@), idx as nat, kind as int) is None,
        },
{
    let ghost av = assign_views(a@);
    let mut j: usize = a.len();
    assert(av.take(j as int) =~= av);
    while j > 0
        invariant
            j <= a.len(),
            av == assign_views(a@),
            last_field(av, idx as nat, kind as int) == last_field(av.take(j as int), idx as nat, kind as int),
        decreases j,
    {
        let ghost t = av.take(j as int);
        assert(t.last() == av[j - 1]);
        assert(t.drop_last() =~= av.take(j - 1));
        if a[j - 1].0 == idx && field_kind_exec(&a[j - 1].1) == kind {
            return Some(j - 1);
        }
        j = j - 1;
    }
    None
}

/// The entry of index `idx` (see `entry_at`): description, code, flag and format.
fn entry_at_exec(a: &Vec<(usize, FieldValue)>, idx: usize) -> (r: Option<(Vec<char>, Vec<char>, bool, CheatType)>)
    ensures
        match entry_at(assign_views(a@), idx as nat) {
            Some(e) => r is Some && r.unwrap().0@ == e.desc && r.unwrap().1@ == e.code
                && r.unwrap().2 == e.enabled && r.unwrap().3 == e.cheat_type,
            None => r is None,
        },
{
    let ghost av = assign_views(a@);
    let code = match last_field_pos(a, idx, 1) {
        None => return None,
        Some(p) => {
            assert(a@[p as int].1@ == av[p as int].1);
            match &a[p].1 {
                FieldValue::Code(v) => copy_chars(v),
                _ => return None,
            }
        },
    };
    assert(last_field(av, idx as nat, 1) == Some(FieldView::Code(code@)));
    let desc = match last_field_pos(a, idx, 0) {
        Some(p) => {
            assert(a@[p as int].1@ == av[p as int].1);
            match &a[p].1 {
                FieldValue::Desc(v) => copy_chars(v),
                _ => Vec::new(),
            }
        },
        None => {
            let mut s = String::from_str("Cheat Code ");
            push_decimal(&mut s, idx as u128 + 1);
            chars_of(s.as_str())
        },
    };
    let enabled = match last_field_pos(a, idx, 2) {
        Some(p) => {
            assert(a@[p as int].1@ == av[p as int].1);
            match &a[p].1 {
                FieldValue::Enable(b) => *b,
                _ => true,
            }
        },
        None => true,
    };
    let cheat_type = match last_field_pos(a, idx, 3) {
        Some(p) => {
            assert(a@[p as int].1@ == av[p as int].1);
            match &a[p].1 {
                FieldValue::Kind(t) => *t,
                _ => CheatType::Raw,
            }
        },
        None => CheatType::detect_chars(&code, true),
    };
    Some((desc, code, enabled, cheat_type))
}

impl GameCheats {
    /// The Libretro `.cht` text of the list (see `cht_text`).
    pub fn to_cht_string(&self) -> (s: String)
        ensures
            s@ == cht_text(self@),
    {
        let mut out = String::new();
        out.append("# PixelDrive Cheat File: ");
        out.append(self.game_title.as_str());
        push_char(&mut out, '\n');
        let ghost h0 = out@;
        out.append("# ROM CRC32: ");
        push_hex8(&mut out, self.rom_crc32);
        push_char(&mut out, '\n');
        let ghost h1 = out@;
        push_char(&mut out, '\n');
        let ghost h2 = out@;
        out.append("cheats = ");
        push_decimal(&mut out, self.entries.len() as u128);
        push_char(&mut out, '\n');
        let ghost h3 = out@;
        push_char(&mut out, '\n');
        proof {
            let ls = cht_header_lines(self@);
            reveal_with_fuel(join_lines, 6);
            assert(ls.take(1) =~= seq![ls[0]]);
            assert(h0 =~= join_lines(ls.take(1)));
            assert(ls.take(2).drop_last() =~= ls.take(1));
            assert(h1 =~= join_lines(ls.take(2)));
            assert(ls.take(3).drop_last() =~= ls.take(2));
            assert(h2 =~= join_lines(ls.take(3)));
            assert(ls.take(4).drop_last() =~= ls.take(3));
            assert(h3 =~= join_lines(ls.take(4)));
            assert(ls.drop_last() =~= ls.take(4));
            assert(out@ =~= join_lines(ls));
        }
        let mut i: usize = 0;
        while i < self.entries.len()
            invariant
                i <= self.entries.len(),
                out@ == cht_header(self@) + cht_blocks(self@.entries.take(i as int)),
            decreases self.entries.len() - i,
        {
            let b = cht_block_exec(i, &self.entries[i]);
            let ghost o0 = out@;
            out.append(b.as_str());
            let ghost es = self@.entries;
            assert(es.take(i + 1).drop_last() =~= es.take(i as int));
            assert(es.take(i + 1).last() == es[i as int]);
            assert(out@ =~= cht_header(self@) + cht_blocks(es.take(i + 1)));
            i = i + 1;
        }
        assert(self@.entries.take(self.entries.len() as int) =~= self@.entries);
        out
    }

    /// Reads a Libretro `.cht` text: the entries of `parsed_entries`, in index order, each
    /// with a generated id `cht_<index>_<salt>`.
    pub fn parse_cht_str(content: &str, rom_crc32: u32, game_title: &str) -> (g: GameCheats)
        ensures
            g@.rom_crc32 == rom_crc32,
            g@.game_title == game_title@,
            g@.entries.len() == parsed_entries(content@).len(),
            forall|k: int| 0 <= k < g@.entries.len() ==> {
                let e = #[trigger] g@.entries[k];
                let p = parsed_entries(content@)[k];
                &&& e.desc == p.desc
                &&& e.code == p.code
                &&& e.enabled == p.enabled
                &&& e.cheat_type == p.cheat_type
                &&& is_generated_id(e.id, p.idx)
            },
    {
        let chars = chars_of(content);
        let lines = split_lines(&chars);
        let ghost ls = views(lines@);
        let mut a: Vec<(usize, FieldValue)> = Vec::new();
        let mut max: Option<usize> = None;
        let mut i: usize = 0;
        while i < lines.len()
            invariant
                i <= lines.len(),
                ls == views(lines@),
                ls == split_nl(content@),
                assign_views(a@) == assigns(ls.take(i as int)),
                match max {
                    None => max_index(assign_views(a@)) is None,
                    Some(m) => max_index(assign_views(a@)) == Some(m as nat),
                },
            decreases lines.len() - i,
        {
            let t = trim_chars(&lines[i]);
            let ghost pre = ls.take(i as int);
            assert(ls.take(i + 1).drop_last() =~= pre);
            assert(ls.take(i + 1).last() == lines@[i as int]@);
            match line_assign_exec(&t) {
                Some((idx, f)) => {
                    let ghost a0 = assign_views(a@);
                    let ghost fv = f@;
                    a.push((idx, f));
                    assert(assign_views(a@) =~= a0.push((idx as nat, fv)));
                    assert(assign_views(a@).drop_last() =~= a0);
                    max = match max {
                        None => Some(idx),
                        Some(m) => Some(if idx > m { idx } else { m }),
                    };
                },
                None => {},
            }
            i = i + 1;
        }
        assert(ls.take(lines.len() as int) =~= ls);
        let ghost av = assign_views(a@);
        let mut entries: Vec<CheatEntry> = Vec::new();
        if let Some(m) = max {
            let mut idx: usize = 0;
            loop
                invariant_except_break
                    entries@.len() == entries_below(av, idx as nat).len(),
                    forall|k: int| 0 <= k < entries@.len() ==> {
                        let e = #[trigger] entries@[k]@;
                        let p = entries_below(av, idx as nat)[k];
                        &&& e.desc == p.desc
                        &&& e.code == p.code
                        &&& e.enabled == p.enabled
                        &&& e.cheat_type == p.cheat_type
                        &&& is_generated_id(e.id, p.idx)
                    },
                invariant
                    idx <= m,
                    av == assign_views(a@),
                    max_index(av) == Some(m as nat),
                ensures
                    entries@.len() == entries_below(av, (m + 1) as nat).len(),
                    forall|k: int| 0 <= k < entries@.len() ==> {
                        let e = #[trigger] entries@[k]@;
                        let p = entries_below(av, (m + 1) as nat)[k];
                        &&& e.desc == p.desc
                        &&& e.code == p.code
                        &&& e.enabled == p.enabled
                        &&& e.cheat_type == p.cheat_type
                        &&& is_generated_id(e.id, p.idx)
                    },
                decreases m - idx,
            {
                let ghost before = entries_below(av, idx as nat);
                match entry_at_exec(&a, idx) {
                    Some((desc, code, enabled, cheat_type)) => {
                        let salt = crate::cheats::fastrand::u32(1000..9999);
                        let id = make_id(idx as u64, salt);
                        assert(is_generated_id(id@, idx as nat)) by {
                            assert(1000 <= salt as nat && (salt as nat) < 9999);
                        }
                        let e = CheatEntry {
                            id,
                            desc: string_of(&desc),
                            code: string_of(&code),
                            enabled,
                            cheat_type,
                        };
                        let ghost ev = e@;
                        entries.push(e);
                        assert(entries@.last()@ == ev);
                    },
                    None => {},
                }
                assert(entries_below(av, (idx + 1) as nat) == match entry_at(av, idx as nat) {
                    Some(e) => before.push(e),
                    None => before,
                });
                if idx == m {
                    break;
                }
                idx = idx + 1;
            }
        }
        GameCheats { rom_crc32, game_title: String::from_str(game_title), entries }
    }

}

} // verus!
