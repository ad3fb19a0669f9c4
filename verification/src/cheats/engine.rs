//! Code decoders and the injection engine: GameShark, Action Replay and raw patches
//! decoded into memory pokes, validated, and written into the GB/GBC and GBA buses.
use vstd::prelude::*;
use crate::cheats::{
    CheatType, EntryView, GameCheats, GameCheatsView, code_lines_joined, flipped, is_generated_id,
    join_code_lines, nonempty,
};
use crate::cheats::cht::{copy_chars, eq_lit, find_char, first_index, sub_chars};
use crate::cheats::text::{
    all_hex, chars_of, dec_chars, hex_value, is_hex, is_hex_char, is_whitespace_char, is_ws,
    parse_hex, parse_hex_spec, push_chars, push_decimal, split_lines, split_nl, strip_0x,
    strip_0x_chars, trim, trim_chars, trimmed_lines, views,
};
use crate::gba::mmu::{GbaBusView, GbaMemoryBus};
use crate::gbc::mmu::{BusView, MemoryBus};

verus! {

/// Decoded GBC memory patch (target 16-bit address and 8-bit value).
#[derive(Debug, Clone, Copy, PartialEq, Eq, Structural)]
pub struct GbcPatch {
    pub address: u16,
    pub value: u8,
}

/// Decoded GBA memory patch (target 32-bit address, value, and byte width 1, 2 or 4).
#[derive(Debug, Clone, Copy, PartialEq, Eq, Structural)]
pub struct GbaPatch {
    pub address: u32,
    pub value: u32,
    pub width: u8,
}

/// The hexadecimal digits of `s`, in order.
pub open spec fn hex_only(s: Seq<char>) -> Seq<char>
    decreases s.len(),
{
    if s.len() == 0 {
        Seq::empty()
    } else if is_hex(s.last()) {
        hex_only(s.drop_last()).push(s.last())
    } else {
        hex_only(s.drop_last())
    }
}

/// A line that decoders skip: empty or a `#` / `;` comment.
pub open spec fn is_skipped(l: Seq<char>) -> bool {
    l.len() == 0 || l[0] == '#' || l[0] == ';'
}

/// The two sides of the first `:` of a line, trimmed and without `0x` prefixes.
pub open spec fn colon_sides(l: Seq<char>) -> Option<(Seq<char>, Seq<char>)> {
    match first_index(l, ':') {
        Some(p) => Some((strip_0x(trim(l.take(p))), strip_0x(trim(l.skip(p + 1))))),
        None => None,
    }
}

/// The patch of one trimmed GB/GBC line: `ADDR:VAL`, or `01VVYYZZ` / `91..` / `90..`
/// (eight hex digits) for value `VV` at `ZZYY`.
pub open spec fn gbc_line(l: Seq<char>) -> Option<GbcPatch> {
    if is_skipped(l) {
        None
    } else {
        let raw = match colon_sides(l) {
            Some((a, v)) => match (parse_hex_spec(a, 0xFFFF), parse_hex_spec(v, 0xFF)) {
                (Some(x), Some(y)) => Some(GbcPatch { address: x as u16, value: y as u8 }),
                _ => None,
            },
            None => None,
        };
        if raw is Some {
            raw
        } else {
            let h = hex_only(l);
            if h.len() == 8 && (h.take(2) == "01"@ || h.take(2) == "91"@ || h.take(2) == "90"@) {
                Some(GbcPatch {
                    address: (hex_value(h.subrange(6, 8)) * 256 + hex_value(h.subrange(4, 6))) as u16,
                    value: hex_value(h.subrange(2, 4)) as u8,
                })
            } else {
                None
            }
        }
    }
}

/// The patches of a GB/GBC code, line by line.
pub open spec fn gbc_lines(ls: Seq<Seq<char>>) -> Seq<GbcPatch>
    decreases ls.len(),
{
    if ls.len() == 0 {
        Seq::empty()
    } else {
        match gbc_line(trim(ls.last())) {
            Some(p) => gbc_lines(ls.drop_last()).push(p),
            None => gbc_lines(ls.drop_last()),
        }
    }
}

/// The patches that `decode_gbc_code` reads from a code.
pub open spec fn decode_gbc_spec(code: Seq<char>) -> Seq<GbcPatch> {
    gbc_lines(split_nl(code))
}

/// Moves an address below EWRAM into EWRAM, keeping its low 24 bits.
pub open spec fn canonical(raw: int) -> int {
    if raw < 0x02000000 {
        0x02000000 + raw % 0x1000000
    } else {
        raw
    }
}

/// The patch of one trimmed GBA line: `ADDR:VAL` (width from the value's length),
/// twelve digits `PAAAAAAAVVVV` or sixteen digits `TTAAAAAAVVVVVVVV`.
pub open spec fn gba_line(l: Seq<char>) -> Option<GbaPatch> {
    if is_skipped(l) {
        None
    } else {
        let raw = match colon_sides(l) {
            Some((a, v)) => match (parse_hex_spec(a, 0xFFFF_FFFF), parse_hex_spec(v, 0xFFFF_FFFF)) {
                (Some(x), Some(y)) => Some(GbaPatch {
                    address: x as u32,
                    value: y as u32,
                    width: if 1 <= v.len() <= 2 { 1u8 } else if 3 <= v.len() <= 4 { 2u8 } else { 4u8 },
                }),
                _ => None,
            },
            None => None,
        };
        if raw is Some {
            raw
        } else {
            let h = hex_only(l);
            if h.len() == 12 {
                let address = canonical(hex_value(h.subrange(1, 8))) as u32;
                let val = hex_value(h.subrange(8, 12));
                if h[0] == '3' {
                    Some(GbaPatch { address, value: (val % 0x100) as u32, width: 1 })
                } else {
                    Some(GbaPatch { address, value: val as u32, width: 2 })
                }
            } else if h.len() == 16 {
                let address = canonical(hex_value(h.subrange(2, 8))) as u32;
                let val = hex_value(h.subrange(8, 16));
                let t = h.take(2);
                if t == "04"@ {
                    Some(GbaPatch { address, value: val as u32, width: 4 })
                } else if t == "00"@ {
                    Some(GbaPatch { address, value: (val % 0x100) as u32, width: 1 })
                } else {
                    Some(GbaPatch { address, value: (val % 0x10000) as u32, width: 2 })
                }
            } else {
                None
            }
        }
    }
}

/// The patches of a GBA code, line by line.
pub open spec fn gba_lines(ls: Seq<Seq<char>>) -> Seq<GbaPatch>
    decreases ls.len(),
{
    if ls.len() == 0 {
        Seq::empty()
    } else {
        match gba_line(trim(ls.last())) {
            Some(p) => gba_lines(ls.drop_last()).push(p),
            None => gba_lines(ls.drop_last()),
        }
    }
}

/// The patches that `decode_gba_code` reads from a code (the format does not matter).
pub open spec fn decode_gba_spec(code: Seq<char>) -> Seq<GbaPatch> {
    gba_lines(split_nl(code))
}

/// The hex digits of a line.
fn hex_only_chars(v: &Vec<char>) -> (r: Vec<char>)
    ensures
        r@ == hex_only(v@),
        all_hex(r@),
{
    let mut r: Vec<char> = Vec::new();
    let mut i: usize = 0;
    while i < v.len()
        invariant
            i <= v.len(),
            r@ == hex_only(v@.take(i as int)),
            all_hex(r@),
        decreases v.len() - i,
    {
        assert(v@.take(i + 1).drop_last() =~= v@.take(i as int));
        if is_hex_char(v[i]) {
            r.push(v[i]);
        }
        i = i + 1;
    }
    assert(v@.take(v.len() as int) =~= v@);
    r
}

/// `colon_sides` on characters.
fn colon_sides_exec(l: &Vec<char>) -> (r: Option<(Vec<char>, Vec<char>)>)
    ensures
        match colon_sides(l@) {
            Some((a, v)) => r is Some && r.unwrap().0@ == a && r.unwrap().1@ == v,
            None => r is None,
        },
{
    match find_char(l, ':') {
        Some(p) => {
            let left = sub_chars(l, 0, p);
            assert(left@ =~= l@.take(p as int));
            let right = sub_chars(l, p + 1, l.len());
            assert(right@ =~= l@.skip(p + 1));
            let a = strip_0x_chars(&trim_chars(&left));
            let v = strip_0x_chars(&trim_chars(&right));
            Some((a, v))
        },
        None => None,
    }
}

/// The value of all-hex characters `v[from..to]`, at most eight of them.
fn hex_field(v: &Vec<char>, from: usize, to: usize) -> (x: u32)
    requires
        from <= to <= v.len(),
        to - from <= 8,
        all_hex(v@),
    ensures
        x as int == hex_value(v@.subrange(from as int, to as int)),
{
    let sub = sub_chars(v, from, to);
    assert(all_hex(sub@));
    proof { lemma_hex_value_bound(sub@); }
    match parse_hex(&sub, 0xFFFF_FFFF) {
        Some(x) => x as u32,
        None => {
            proof {
                assert(crate::cheats::text::unsigned_digits(sub@) == sub@ || sub@.len() > 0);
            }
            0
        },
    }
}

/// `k` hex digits are worth less than 16^k.
proof fn lemma_hex_value_bound(s: Seq<char>)
    requires
        all_hex(s),
        s.len() <= 8,
    ensures
        0 <= hex_value(s) < pow16_of(s.len()),
        pow16_of(s.len()) <= 0x1_0000_0000,
    decreases s.len(),
{
    if s.len() > 0 {
        assert(all_hex(s.drop_last()));
        lemma_hex_value_bound(s.drop_last());
        assert(is_hex(s.last()));
    }
    lemma_pow16_small(s.len());
}

/// 16^n for n up to 8.
proof fn lemma_pow16_small(n: nat)
    requires
        n <= 8,
    ensures
        1 <= pow16_of(n) <= 0x1_0000_0000,
{
    reveal_with_fuel(pow16_of, 9);
    if n == 0 {
    } else if n == 1 {
    } else if n == 2 {
    } else if n == 3 {
    } else if n == 4 {
    } else if n == 5 {
    } else if n == 6 {
    } else if n == 7 {
    } else {
        assert(pow16_of(8) == 0x1_0000_0000);
    }
}

/// 16 to the power `n`.
pub open spec fn pow16_of(n: nat) -> int
    decreases n,
{
    if n == 0 {
        1
    } else {
        16 * pow16_of((n - 1) as nat)
    }
}

/// `gbc_line` on a trimmed line.
fn gbc_line_exec(l: &Vec<char>) -> (r: Option<GbcPatch>)
    ensures
        r == gbc_line(l@),
{
    if l.len() == 0 || l[0] == '#' || l[0] == ';' {
        return None;
    }
    if let Some((a, v)) = colon_sides_exec(l) {
        let x = parse_hex(&a, 0xFFFF);
        let y = parse_hex(&v, 0xFF);
        if x.is_some() && y.is_some() {
            return Some(GbcPatch { address: x.unwrap() as u16, value: y.unwrap() as u8 });
        }
    }
    let h = hex_only_chars(l);
    proof {
        reveal_strlit("01");
        reveal_strlit("91");
        reveal_strlit("90");
    }
    let prefixed = h.len() == 8 && ((h[0] == '0' && h[1] == '1') || (h[0] == '9' && (h[1] == '1' || h[1] == '0')));
    proof {
        if h@.len() == 8 {
            assert(h@.take(2) =~= seq![h@[0], h@[1]]);
            assert("01"@ =~= seq!['0', '1']);
            assert("91"@ =~= seq!['9', '1']);
            assert("90"@ =~= seq!['9', '0']);
        }
        assert(prefixed == (h@.len() == 8 && (h@.take(2) == "01"@ || h@.take(2) == "91"@ || h@.take(2) == "90"@)));
    }
    if prefixed {
        let val = hex_field(&h, 2, 4);
        let yy = hex_field(&h, 4, 6);
        let zz = hex_field(&h, 6, 8);
        proof {
            lemma_hex_value_bound(h@.subrange(2, 4));
            lemma_hex_value_bound(h@.subrange(4, 6));
            lemma_hex_value_bound(h@.subrange(6, 8));
            reveal_with_fuel(pow16_of, 3);
        }
        Some(GbcPatch { address: (zz * 256 + yy) as u16, value: val as u8 })
    } else {
        None
    }
}

/// `gba_line` on a trimmed line.
fn gba_line_exec(l: &Vec<char>) -> (r: Option<GbaPatch>)
    ensures
        r == gba_line(l@),
{
    if l.len() == 0 || l[0] == '#' || l[0] == ';' {
        return None;
    }
    if let Some((a, v)) = colon_sides_exec(l) {
        let x = parse_hex(&a, 0xFFFF_FFFF);
        let y = parse_hex(&v, 0xFFFF_FFFF);
        if x.is_some() && y.is_some() {
            let n = v.len();
            let width: u8 = if 1 <= n && n <= 2 { 1 } else if 3 <= n && n <= 4 { 2 } else { 4 };
            return Some(GbaPatch { address: x.unwrap() as u32, value: y.unwrap() as u32, width });
        }
    }
    let h = hex_only_chars(l);
    proof {
        reveal_strlit("04");
        reveal_strlit("00");
        reveal_with_fuel(pow16_of, 9);
    }
    if h.len() == 12 {
        let raw = hex_field(&h, 1, 8);
        let val = hex_field(&h, 8, 12);
        proof {
            lemma_hex_value_bound(h@.subrange(1, 8));
            lemma_hex_value_bound(h@.subrange(8, 12));
        }
        let address = if raw < 0x0200_0000 { 0x0200_0000 + raw % 0x100_0000 } else { raw };
        assert(address as int == canonical(hex_value(h@.subrange(1, 8))));
        if h[0] == '3' {
            Some(GbaPatch { address, value: val % 0x100, width: 1 })
        } else {
            Some(GbaPatch { address, value: val, width: 2 })
        }
    } else if h.len() == 16 {
        let raw = hex_field(&h, 2, 8);
        let val = hex_field(&h, 8, 16);
        proof {
            lemma_hex_value_bound(h@.subrange(2, 8));
            lemma_hex_value_bound(h@.subrange(8, 16));
        }
        let address = if raw < 0x0200_0000 { 0x0200_0000 + raw % 0x100_0000 } else { raw };
        assert(h@.take(2) =~= seq![h@[0], h@[1]]);
        assert("04"@ =~= seq!['0', '4']);
        assert("00"@ =~= seq!['0', '0']);
        assert(address as int == canonical(hex_value(h@.subrange(2, 8))));
        if h[0] == '0' && h[1] == '4' {
            Some(GbaPatch { address, value: val, width: 4 })
        } else if h[0] == '0' && h[1] == '0' {
            Some(GbaPatch { address, value: val % 0x100, width: 1 })
        } else {
            Some(GbaPatch { address, value: val % 0x10000, width: 2 })
        }
    } else {
        None
    }
}

/// Decodes a GB/GBC code: every line that is `ADDR:VAL` or a GameShark `01VVYYZZ`
/// (also `91`/`90`) gives one patch, in order; other lines give none.
pub fn decode_gbc_code(code_str: &str) -> (r: Vec<GbcPatch>)
    ensures
        r@ == decode_gbc_spec(code_str@),
{
    let chars = chars_of(code_str);
    let lines = split_lines(&chars);
    let ghost ls = views(lines@);
    let mut out: Vec<GbcPatch> = Vec::new();
    let mut i: usize = 0;
    while i < lines.len()
        invariant
            i <= lines.len(),
            ls == views(lines@),
            ls == split_nl(code_str@),
            out@ == gbc_lines(ls.take(i as int)),
        decreases lines.len() - i,
    {
        let t = trim_chars(&lines[i]);
        assert(ls.take(i + 1).drop_last() =~= ls.take(i as int));
        assert(ls.take(i + 1).last() == lines@[i as int]@);
        match gbc_line_exec(&t) {
            Some(p) => out.push(p),
            None => {},
        }
        i = i + 1;
    }
    assert(ls.take(lines.len() as int) =~= ls);
    out
}

/// Decodes a GBA code (GameShark, Action Replay or raw); the format argument is not used.
pub fn decode_gba_code(code_str: &str, _cheat_type: CheatType) -> (r: Vec<GbaPatch>)
    ensures
        r@ == decode_gba_spec(code_str@),
{
    let chars = chars_of(code_str);
    let lines = split_lines(&chars);
    let ghost ls = views(lines@);
    let mut out: Vec<GbaPatch> = Vec::new();
    let mut i: usize = 0;
    while i < lines.len()
        invariant
            i <= lines.len(),
            ls == views(lines@),
            ls == split_nl(code_str@),
            out@ == gba_lines(ls.take(i as int)),
        decreases lines.len() - i,
    {
        let t = trim_chars(&lines[i]);
        assert(ls.take(i + 1).drop_last() =~= ls.take(i as int));
        assert(ls.take(i + 1).last() == lines@[i as int]@);
        match gba_line_exec(&t) {
            Some(p) => out.push(p),
            None => {},
        }
        i = i + 1;
    }
    assert(ls.take(lines.len() as int) =~= ls);
    out
}

/// Verification result for user cheat code input.
#[derive(Debug, Clone, PartialEq, Eq)]
pub enum ValidationResult {
    Valid { detected_type: CheatType, lines_count: usize },
    Invalid(String),
}

/// Mathematical model of a validation result.
pub ghost enum ValidationView {
    Valid { detected_type: CheatType, lines_count: nat },
    Invalid(Seq<char>),
}

impl View for ValidationResult {
    type V = ValidationView;

    open spec fn view(&self) -> ValidationView {
        match self {
            ValidationResult::Valid { detected_type, lines_count } => ValidationView::Valid {
                detected_type: *detected_type,
                lines_count: *lines_count as nat,
            },
            ValidationResult::Invalid(m) => ValidationView::Invalid(m@),
        }
    }
}

/// A character that validation keeps: not whitespace, `+`, `-`, `:` or `=`.
pub open spec fn is_kept(c: char) -> bool {
    !is_ws(c) && c != '+' && c != '-' && c != ':' && c != '='
}

/// The kept characters of a line.
pub open spec fn stripped(s: Seq<char>) -> Seq<char>
    decreases s.len(),
{
    if s.len() == 0 {
        Seq::empty()
    } else if is_kept(s.last()) {
        stripped(s.drop_last()).push(s.last())
    } else {
        stripped(s.drop_last())
    }
}

/// The complaint about line `i` (counted from 0 among the non-empty lines), if any.
pub open spec fn line_error(i: nat, line: Seq<char>, t: CheatType) -> Option<Seq<char>> {
    let st = stripped(line);
    let n = st.len();
    let head = "Line "@ + dec_chars(i + 1);
    if n == 0 {
        None
    } else if !all_hex(st) {
        Some(head + " contains invalid non-hexadecimal characters: \""@ + line + "\""@)
    } else {
        match t {
            CheatType::GameSharkGbc => if n != 8 && n != 6 {
                Some(head + " GameShark GBC code must be 8 hex characters (e.g. 01XXYYZZ), got "@ + dec_chars(n)
                    + " characters."@)
            } else {
                None
            },
            CheatType::GameSharkGba | CheatType::ActionReplayMax => if n != 12 && n != 16 && n != 8 {
                Some(head + " GBA code must be 8, 12, or 16 hex characters (e.g. 82025840 002C), got "@
                    + dec_chars(n) + " characters."@)
            } else {
                None
            },
            CheatType::Raw => if n < 4 || n > 16 {
                Some(head + " Raw patch has invalid length ("@ + dec_chars(n) + " characters)."@)
            } else {
                None
            },
        }
    }
}

/// The complaint about the first bad line, if any.
pub open spec fn first_error(ls: Seq<Seq<char>>, t: CheatType) -> Option<Seq<char>>
    decreases ls.len(),
{
    if ls.len() == 0 {
        None
    } else {
        match first_error(ls.drop_last(), t) {
            Some(e) => Some(e),
            None => line_error((ls.len() - 1) as nat, ls.last(), t),
        }
    }
}

/// What `validate_code` answers for a code.
pub open spec fn validate_spec(code: Seq<char>, t: CheatType) -> ValidationView {
    let ls = nonempty(trimmed_lines(code));
    if ls.len() == 0 {
        ValidationView::Invalid("Cheat code cannot be empty."@)
    } else {
        match first_error(ls, t) {
            Some(e) => ValidationView::Invalid(e),
            None => ValidationView::Valid { detected_type: t, lines_count: ls.len() },
        }
    }
}

/// The non-empty trimmed lines of a text.
pub fn nonempty_lines(v: &Vec<char>) -> (r: Vec<Vec<char>>)
    ensures
        views(r@) == nonempty(trimmed_lines(v@)),
{
    let lines = split_lines(v);
    let ghost ls = views(lines@);
    let mut out: Vec<Vec<char>> = Vec::new();
    let mut i: usize = 0;
    while i < lines.len()
        invariant
            i <= lines.len(),
            ls == views(lines@),
            ls == split_nl(v@),
            views(out@) == nonempty(ls.take(i as int).map_values(|l: Seq<char>| trim(l))),
        decreases lines.len() - i,
    {
        let t = trim_chars(&lines[i]);
        let ghost pre = ls.take(i as int).map_values(|l: Seq<char>| trim(l));
        let ghost post = ls.take(i + 1).map_values(|l: Seq<char>| trim(l));
        assert(post.drop_last() =~= pre);
        assert(post.last() == t@);
        if t.len() > 0 {
            let ghost o0 = views(out@);
            out.push(t);
            assert(views(out@) =~= o0.push(post.last()));
        }
        i = i + 1;
    }
    assert(ls.take(lines.len() as int) =~= ls);
    out
}

/// The kept characters of a line.
fn stripped_chars(v: &Vec<char>) -> (r: Vec<char>)
    ensures
        r@ == stripped(v@),
{
    let mut r: Vec<char> = Vec::new();
    let mut i: usize = 0;
    while i < v.len()
        invariant
            i <= v.len(),
            r@ == stripped(v@.take(i as int)),
        decreases v.len() - i,
    {
        assert(v@.take(i + 1).drop_last() =~= v@.take(i as int));
        let c = v[i];
        if !is_whitespace_char(c) && c != '+' && c != '-' && c != ':' && c != '=' {
            r.push(c);
        }
        i = i + 1;
    }
    assert(v@.take(v.len() as int) =~= v@);
    r
}

/// All characters are hex digits.
fn all_hex_chars(v: &Vec<char>) -> (b: bool)
    ensures
        b == all_hex(v@),
{
    let mut i: usize = 0;
    while i < v.len()
        invariant
            i <= v.len(),
            forall|k: int| 0 <= k < i ==> is_hex(#[trigger] v@[k]),
        decreases v.len() - i,
    {
        if !is_hex_char(v[i]) {
            return false;
        }
        i = i + 1;
    }
    true
}

/// `line_error` on characters.
fn line_error_exec(i: usize, line: &Vec<char>, t: CheatType) -> (r: Option<String>)
    requires
        i < usize::MAX,
    ensures
        match line_error(i as nat, line@, t) {
            Some(m) => r is Some && r.unwrap()@ == m,
            None => r is None,
        },
{
    let st = stripped_chars(line);
    let n = st.len();
    if n == 0 {
        return None;
    }
    let mut m = String::from_str("Line ");
    push_decimal(&mut m, i as u128 + 1);
    if !all_hex_chars(&st) {
        m.append(" contains invalid non-hexadecimal characters: \"");
        push_chars(&mut m, line);
        m.append("\"");
        return Some(m);
    }
    match t {
        CheatType::GameSharkGbc => {
            if n != 8 && n != 6 {
                m.append(" GameShark GBC code must be 8 hex characters (e.g. 01XXYYZZ), got ");
                push_decimal(&mut m, n as u128);
                m.append(" characters.");
                return Some(m);
            }
        },
        CheatType::GameSharkGba | CheatType::ActionReplayMax => {
            if n != 12 && n != 16 && n != 8 {
                m.append(" GBA code must be 8, 12, or 16 hex characters (e.g. 82025840 002C), got ");
                push_decimal(&mut m, n as u128);
                m.append(" characters.");
                return Some(m);
            }
        },
        CheatType::Raw => {
            if n < 4 || n > 16 {
                m.append(" Raw patch has invalid length (");
                push_decimal(&mut m, n as u128);
                m.append(" characters).");
                return Some(m);
            }
        },
    }
    None
}

/// Validates a code: `Invalid` with a message for an empty code or for the first
/// non-empty line whose kept characters are not hex digits or have the wrong count for
/// the format, `Valid` with the format and the number of non-empty lines otherwise.
pub fn validate_code_impl(code: &str, cheat_type: CheatType) -> (r: ValidationResult)
    ensures
        r@ == validate_spec(code@, cheat_type),
{
    let chars = chars_of(code);
    let ls = nonempty_lines(&chars);
    if ls.len() == 0 {
        return ValidationResult::Invalid(String::from_str("Cheat code cannot be empty."));
    }
    let ghost lv = views(ls@);
    let mut i: usize = 0;
    while i < ls.len()
        invariant
            i <= ls.len(),
            lv == views(ls@),
            lv == nonempty(trimmed_lines(code@)),
            lv.len() > 0,
            first_error(lv.take(i as int), cheat_type) is None,
        decreases ls.len() - i,
    {
        assert(lv.take(i + 1).drop_last() =~= lv.take(i as int));
        assert(lv.take(i + 1).last() == ls@[i as int]@);
        match line_error_exec(i, &ls[i], cheat_type) {
            Some(m) => {
                assert(first_error(lv.take(i + 1), cheat_type) == Some(m@));
                proof { lemma_first_error_prefix(lv, cheat_type, i + 1); }
                return ValidationResult::Invalid(m);
            },
            None => {},
        }
        i = i + 1;
    }
    assert(lv.take(ls.len() as int) =~= lv);
    ValidationResult::Valid { detected_type: cheat_type, lines_count: ls.len() }
}

/// An error in a prefix is the first error of the whole.
proof fn lemma_first_error_prefix(ls: Seq<Seq<char>>, t: CheatType, k: int)
    requires
        0 <= k <= ls.len(),
        first_error(ls.take(k), t) is Some,
    ensures
        first_error(ls, t) == first_error(ls.take(k), t),
    decreases ls.len() - k,
{
    if k < ls.len() {
        assert(ls.take(k + 1).drop_last() =~= ls.take(k));
        assert(first_error(ls.take(k + 1), t) == first_error(ls.take(k), t));
        lemma_first_error_prefix(ls, t, k + 1);
    } else {
        assert(ls.take(k) =~= ls);
    }
}

/// The GB/GBC patches of the enabled entries, in entry order.
pub open spec fn gbc_of(es: Seq<EntryView>) -> Seq<GbcPatch>
    decreases es.len(),
{
    if es.len() == 0 {
        Seq::empty()
    } else if es.last().enabled {
        gbc_of(es.drop_last()) + decode_gbc_spec(es.last().code)
    } else {
        gbc_of(es.drop_last())
    }
}

/// The GBA patches of the enabled entries, in entry order.
pub open spec fn gba_of(es: Seq<EntryView>) -> Seq<GbaPatch>
    decreases es.len(),
{
    if es.len() == 0 {
        Seq::empty()
    } else if es.last().enabled {
        gba_of(es.drop_last()) + decode_gba_spec(es.last().code)
    } else {
        gba_of(es.drop_last())
    }
}

/// Addresses that GB/GBC patches may write: work RAM, high RAM and cartridge RAM.
pub open spec fn gbc_writable(a: u16) -> bool {
    (0xC000 <= a <= 0xDFFF) || (0xFF80 <= a <= 0xFFFE) || (0xA000 <= a <= 0xBFFF)
}

/// The GB/GBC bus after the patches, each written in order where it is writable.
pub open spec fn apply_gbc(b: BusView, ps: Seq<GbcPatch>) -> BusView
    decreases ps.len(),
{
    if ps.len() == 0 {
        b
    } else {
        let b1 = apply_gbc(b, ps.drop_last());
        if gbc_writable(ps.last().address) {
            b1.wr(ps.last().address, ps.last().value)
        } else {
            b1
        }
    }
}

/// Byte `k` (0 = lowest) of a patch value.
pub open spec fn value_byte(v: u32, k: int) -> u8 {
    if k == 0 {
        (v % 0x100) as u8
    } else if k == 1 {
        (v / 0x100 % 0x100) as u8
    } else if k == 2 {
        (v / 0x10000 % 0x100) as u8
    } else {
        (v / 0x1000000) as u8
    }
}

/// `ram` with a patch written little-endian at `off`, when all its bytes fit; a width
/// other than 1, 2 or 4 writes nothing.
pub open spec fn poke(ram: Seq<u8>, off: int, p: GbaPatch) -> Seq<u8> {
    if p.width == 1 && off < ram.len() {
        ram.update(off, value_byte(p.value, 0))
    } else if p.width == 2 && off + 1 < ram.len() {
        ram.update(off, value_byte(p.value, 0)).update(off + 1, value_byte(p.value, 1))
    } else if p.width == 4 && off + 3 < ram.len() {
        ram.update(off, value_byte(p.value, 0)).update(off + 1, value_byte(p.value, 1)).update(
            off + 2,
            value_byte(p.value, 2),
        ).update(off + 3, value_byte(p.value, 3))
    } else {
        ram
    }
}

/// The GBA bus after one patch: EWRAM (0x02000000-0x0203FFFF) and IWRAM
/// (0x03000000-0x03007FFF) are written, other addresses ignored.
pub open spec fn gba_poke(v: GbaBusView, p: GbaPatch) -> GbaBusView {
    if 0x0200_0000 <= p.address <= 0x0203_FFFF {
        GbaBusView { ewram: poke(v.ewram, p.address - 0x0200_0000, p), ..v }
    } else if 0x0300_0000 <= p.address <= 0x0300_7FFF {
        GbaBusView { iwram: poke(v.iwram, p.address - 0x0300_0000, p), ..v }
    } else {
        v
    }
}

/// The GBA bus after the patches, in order.
pub open spec fn apply_gba(v: GbaBusView, ps: Seq<GbaPatch>) -> GbaBusView
    decreases ps.len(),
{
    if ps.len() == 0 {
        v
    } else {
        gba_poke(apply_gba(v, ps.drop_last()), ps.last())
    }
}

/// Frontend RAM after the EWRAM patches, each at its offset from 0x02000000.
pub open spec fn apply_ram(ram: Seq<u8>, ps: Seq<GbaPatch>) -> Seq<u8>
    decreases ps.len(),
{
    if ps.len() == 0 {
        ram
    } else {
        let r = apply_ram(ram, ps.drop_last());
        if 0x0200_0000 <= ps.last().address <= 0x0203_FFFF {
            poke(r, ps.last().address - 0x0200_0000, ps.last())
        } else {
            r
        }
    }
}

/// Writes a patch into a byte slice at `off` (see `poke`).
pub fn poke_slice(ram: &mut [u8], off: usize, p: GbaPatch)
    ensures
        final(ram)@ == poke(old(ram)@, off as int, p),
{
    let n = ram.len();
    let v = p.value;
    if p.width == 1 {
        if off < n {
            ram[off] = (v % 0x100) as u8;
        }
    } else if p.width == 2 {
        if off < n && n - off > 1 {
            ram[off] = (v % 0x100) as u8;
            ram[off + 1] = (v / 0x100 % 0x100) as u8;
        }
    } else if p.width == 4 {
        if off < n && n - off > 3 {
            ram[off] = (v % 0x100) as u8;
            ram[off + 1] = (v / 0x100 % 0x100) as u8;
            ram[off + 2] = (v / 0x10000 % 0x100) as u8;
            ram[off + 3] = (v / 0x1000000) as u8;
        }
    }
}

/// Per-game cheat engine: the cheat list and the patches of its enabled entries.
#[derive(Debug, Clone)]
pub struct CheatEngine {
    pub cheats: GameCheats,
    pub active_gbc_patches: Vec<GbcPatch>,
    pub active_gba_patches: Vec<GbaPatch>,
    pub is_gba: bool,
    pub libretro_initialized: bool,
}

impl Default for CheatEngine {
    fn default() -> (e: Self)
        ensures
            e.cheats@.rom_crc32 == 0,
            e.cheats@.game_title == Seq::<char>::empty(),
            e.cheats@.entries == Seq::<EntryView>::empty(),
            e.active_gbc_patches@ == Seq::<GbcPatch>::empty(),
            e.active_gba_patches@ == Seq::<GbaPatch>::empty(),
            !e.is_gba,
            !e.libretro_initialized,
    {
        CheatEngine {
            cheats: GameCheats::default(),
            active_gbc_patches: Vec::new(),
            active_gba_patches: Vec::new(),
            is_gba: false,
            libretro_initialized: false,
        }
    }
}

impl CheatEngine {
    /// The patches match the enabled entries of the list for the engine's system.
    pub open spec fn compiled(&self) -> bool {
        &&& self.active_gbc_patches@ == if self.is_gba { Seq::empty() } else { gbc_of(self.cheats@.entries) }
        &&& self.active_gba_patches@ == if self.is_gba { gba_of(self.cheats@.entries) } else { Seq::empty() }
    }

    /// An empty engine for a GB/GBC game.
    pub fn new() -> (e: Self)
        ensures
            e.cheats@.entries == Seq::<EntryView>::empty(),
            e.active_gbc_patches@ == Seq::<GbcPatch>::empty(),
            e.active_gba_patches@ == Seq::<GbaPatch>::empty(),
            !e.is_gba,
            !e.libretro_initialized,
    {
        Self::default()
    }

    /// Rebuilds the patches from the enabled entries and marks the frontend unsynced.
    pub fn recompile_patches(&mut self)
        ensures
            final(self).cheats@ == old(self).cheats@,
            final(self).is_gba == old(self).is_gba,
            !final(self).libretro_initialized,
            final(self).compiled(),
    {
        let mut gbc: Vec<GbcPatch> = Vec::new();
        let mut gba: Vec<GbaPatch> = Vec::new();
        let ghost es = self.cheats@.entries;
        let mut i: usize = 0;
        while i < self.cheats.entries.len()
            invariant
                i <= self.cheats.entries.len(),
                es == self.cheats@.entries,
                gbc@ == if self.is_gba { Seq::empty() } else { gbc_of(es.take(i as int)) },
                gba@ == if self.is_gba { gba_of(es.take(i as int)) } else { Seq::empty() },
            decreases self.cheats.entries.len() - i,
        {
            assert(es.take(i + 1).drop_last() =~= es.take(i as int));
            assert(es.take(i + 1).last() == es[i as int]);
            let e = &self.cheats.entries[i];
            if e.enabled {
                if self.is_gba {
                    let mut ps = decode_gba_code(e.code.as_str(), e.cheat_type);
                    gba.append(&mut ps);
                } else {
                    let mut ps = decode_gbc_code(e.code.as_str());
                    gbc.append(&mut ps);
                }
            }
            i = i + 1;
        }
        assert(es.take(self.cheats.entries.len() as int) =~= es);
        self.active_gbc_patches = gbc;
        self.active_gba_patches = gba;
        self.libretro_initialized = false;
    }

    /// Validates a code (see `validate_spec`); the system flag is not used.
    pub fn validate_code(code: &str, cheat_type: CheatType, _is_gba: bool) -> (r: ValidationResult)
        ensures
            r@ == validate_spec(code@, cheat_type),
    {
        validate_code_impl(code, cheat_type)
    }

    /// Adds an enabled entry if its code validates, then rebuilds the patches; a code that
    /// does not validate is refused with the validation message and changes nothing.
    pub fn add_cheat(&mut self, desc: String, code: String, cheat_type: CheatType) -> (r: Result<(), String>)
        ensures
            match validate_spec(code@, cheat_type) {
                ValidationView::Invalid(m) => {
                    &&& r is Err
                    &&& r->Err_0@ == m
                    &&& final(self).cheats@ == old(self).cheats@
                    &&& final(self).active_gbc_patches@ == old(self).active_gbc_patches@
                    &&& final(self).active_gba_patches@ == old(self).active_gba_patches@
                    &&& final(self).is_gba == old(self).is_gba
                    &&& final(self).libretro_initialized == old(self).libretro_initialized
                },
                ValidationView::Valid { .. } => {
                    &&& r is Ok
                    &&& final(self).cheats@.rom_crc32 == old(self).cheats@.rom_crc32
                    &&& final(self).cheats@.game_title == old(self).cheats@.game_title
                    &&& final(self).cheats@.entries.drop_last() == old(self).cheats@.entries
                    &&& final(self).cheats@.entries.len() == old(self).cheats@.entries.len() + 1
                    &&& final(self).cheats@.entries.last().desc == desc@
                    &&& final(self).cheats@.entries.last().code == code@
                    &&& final(self).cheats@.entries.last().enabled
                    &&& final(self).cheats@.entries.last().cheat_type == cheat_type
                    &&& exists|n: nat| is_generated_id(final(self).cheats@.entries.last().id, n)
                    &&& final(self).is_gba == old(self).is_gba
                    &&& !final(self).libretro_initialized
                    &&& final(self).compiled()
                },
            },
    {
        let validation = Self::validate_code(code.as_str(), cheat_type, self.is_gba);
        match validation {
            ValidationResult::Invalid(err) => Err(err),
            ValidationResult::Valid { .. } => {
                let ghost id;
                {
                    let e = self.cheats.add(desc, code, cheat_type);
                    proof {
                        id = e.id@;
                    }
                }
                assert(self.cheats@.entries.last().id == id);
                assert(exists|n: nat| is_generated_id(id, n));
                self.recompile_patches();
                Ok(())
            },
        }
    }

    /// Removes the entry at `index` and rebuilds the patches; `false` if there is none.
    pub fn remove_cheat(&mut self, index: usize) -> (removed: bool)
        ensures
            removed == (index < old(self).cheats@.entries.len()),
            removed ==> final(self).cheats@.entries == old(self).cheats@.entries.remove(index as int)
                && !final(self).libretro_initialized && final(self).compiled(),
            !removed ==> *final(self) == *old(self),
            final(self).cheats@.rom_crc32 == old(self).cheats@.rom_crc32,
            final(self).cheats@.game_title == old(self).cheats@.game_title,
            final(self).is_gba == old(self).is_gba,
    {
        if index < self.cheats.entries.len() {
            self.cheats.remove_at(index);
            self.recompile_patches();
            true
        } else {
            false
        }
    }

    /// Flips the entry at `index` (if any) and rebuilds the patches.
    pub fn toggle_cheat(&mut self, index: usize)
        ensures
            index < old(self).cheats@.entries.len() ==> final(self).cheats@.entries
                == old(self).cheats@.entries.update(index as int, flipped(old(self).cheats@.entries[index as int])),
            index >= old(self).cheats@.entries.len() ==> final(self).cheats@.entries == old(self).cheats@.entries,
            final(self).cheats@.rom_crc32 == old(self).cheats@.rom_crc32,
            final(self).cheats@.game_title == old(self).cheats@.game_title,
            final(self).is_gba == old(self).is_gba,
            !final(self).libretro_initialized,
            final(self).compiled(),
    {
        self.cheats.toggle_at(index);
        self.recompile_patches();
    }

    /// Enables or disables every entry and rebuilds the patches.
    pub fn toggle_all(&mut self, enable: bool)
        ensures
            final(self).cheats@.entries.len() == old(self).cheats@.entries.len(),
            forall|i: int| 0 <= i < old(self).cheats@.entries.len() ==> #[trigger] final(self).cheats@.entries[i]
                == (EntryView { enabled: enable, ..old(self).cheats@.entries[i] }),
            final(self).cheats@.rom_crc32 == old(self).cheats@.rom_crc32,
            final(self).cheats@.game_title == old(self).cheats@.game_title,
            final(self).is_gba == old(self).is_gba,
            !final(self).libretro_initialized,
            final(self).compiled(),
    {
        self.cheats.set_all_enabled(enable);
        self.recompile_patches();
    }

    /// Removes every entry; no patches remain.
    pub fn clear_all(&mut self)
        ensures
            final(self).cheats@.entries == Seq::<EntryView>::empty(),
            final(self).cheats@.rom_crc32 == old(self).cheats@.rom_crc32,
            final(self).cheats@.game_title == old(self).cheats@.game_title,
            final(self).is_gba == old(self).is_gba,
            final(self).active_gbc_patches@ == Seq::<GbcPatch>::empty(),
            final(self).active_gba_patches@ == Seq::<GbaPatch>::empty(),
            !final(self).libretro_initialized,
    {
        self.cheats.clear();
        self.recompile_patches();
    }

    /// Writes the GB/GBC patches into the bus, in order, skipping addresses outside
    /// work RAM, high RAM and cartridge RAM.
    pub fn apply_to_gbc(&self, bus: &mut MemoryBus)
        requires
            old(bus).wf(),
        ensures
            final(bus).wf(),
            final(bus)@ == apply_gbc(old(bus)@, self.active_gbc_patches@),
    {
        let ghost ps = self.active_gbc_patches@;
        let mut i: usize = 0;
        while i < self.active_gbc_patches.len()
            invariant
                i <= self.active_gbc_patches.len(),
                ps == self.active_gbc_patches@,
                bus.wf(),
                bus@ == apply_gbc(old(bus)@, ps.take(i as int)),
            decreases self.active_gbc_patches.len() - i,
        {
            let p = self.active_gbc_patches[i];
            assert(ps.take(i + 1).drop_last() =~= ps.take(i as int));
            assert(ps.take(i + 1).last() == p);
            let addr = p.address;
            if (0xC000 <= addr && addr <= 0xDFFF) || (0xFF80 <= addr && addr <= 0xFFFE) || (0xA000 <= addr
                && addr <= 0xBFFF) {
                bus.write_byte(addr, p.value);
            }
            i = i + 1;
        }
        assert(ps.take(self.active_gbc_patches.len() as int) =~= ps);
    }

    /// Writes the GBA patches into EWRAM and IWRAM, in order (see `gba_poke`).
    pub fn apply_to_gba_mmu(&self, mmu: &mut GbaMemoryBus)
        requires
            old(mmu).wf(),
        ensures
            final(mmu).wf(),
            final(mmu)@ == apply_gba(old(mmu)@, self.active_gba_patches@),
    {
        let ghost ps = self.active_gba_patches@;
        let mut i: usize = 0;
        while i < self.active_gba_patches.len()
            invariant
                i <= self.active_gba_patches.len(),
                ps == self.active_gba_patches@,
                mmu.wf(),
                mmu@ == apply_gba(old(mmu)@, ps.take(i as int)),
            decreases self.active_gba_patches.len() - i,
        {
            let p = self.active_gba_patches[i];
            assert(ps.take(i + 1).drop_last() =~= ps.take(i as int));
            assert(ps.take(i + 1).last() == p);
            let addr = p.address;
            if 0x0200_0000 <= addr && addr <= 0x0203_FFFF {
                poke_slice(mmu.ewram.as_mut_slice(), (addr - 0x0200_0000) as usize, p);
            } else if 0x0300_0000 <= addr && addr <= 0x0300_7FFF {
                poke_slice(mmu.iwram.as_mut_slice(), (addr - 0x0300_0000) as usize, p);
            }
            i = i + 1;
        }
        assert(ps.take(self.active_gba_patches.len() as int) =~= ps);
    }

    /// The one-line codes (trimmed lines joined by ` + `) of the enabled entries, in order,
    /// as a Libretro frontend registers them.
    pub fn libretro_cheat_codes(&self) -> (r: Vec<String>)
        ensures
            r@.map_values(|s: String| s@) == enabled_codes(self.cheats@.entries),
    {
        let ghost es = self.cheats@.entries;
        let mut out: Vec<String> = Vec::new();
        let mut i: usize = 0;
        while i < self.cheats.entries.len()
            invariant
                i <= self.cheats.entries.len(),
                es == self.cheats@.entries,
                out@.map_values(|s: String| s@) == enabled_codes(es.take(i as int)),
            decreases self.cheats.entries.len() - i,
        {
            assert(es.take(i + 1).drop_last() =~= es.take(i as int));
            assert(es.take(i + 1).last() == es[i as int]);
            let e = &self.cheats.entries[i];
            if e.enabled {
                let code = chars_of(e.code.as_str());
                let line = join_code_lines(&code, " + ");
                let ghost o0 = out@.map_values(|s: String| s@);
                let ghost lv = line@;
                out.push(line);
                assert(out@.map_values(|s: String| s@) =~= o0.push(lv));
            }
            i = i + 1;
        }
        assert(es.take(self.cheats.entries.len() as int) =~= es);
        out
    }

    /// Writes the EWRAM patches into a frontend's system RAM, which holds EWRAM from
    /// offset 0 (see `apply_ram`).
    pub fn patch_system_ram(&self, ram: &mut [u8])
        ensures
            final(ram)@ == apply_ram(old(ram)@, self.active_gba_patches@),
    {
        let ghost ps = self.active_gba_patches@;
        let mut i: usize = 0;
        while i < self.active_gba_patches.len()
            invariant
                i <= self.active_gba_patches.len(),
                ps == self.active_gba_patches@,
                ram@ == apply_ram(old(ram)@, ps.take(i as int)),
            decreases self.active_gba_patches.len() - i,
        {
            let p = self.active_gba_patches[i];
            assert(ps.take(i + 1).drop_last() =~= ps.take(i as int));
            assert(ps.take(i + 1).last() == p);
            if 0x0200_0000 <= p.address && p.address <= 0x0203_FFFF {
                poke_slice(ram, (p.address - 0x0200_0000) as usize, p);
            }
            i = i + 1;
        }
        assert(ps.take(self.active_gba_patches.len() as int) =~= ps);
    }
}

/// The one-line codes of the enabled entries.
pub open spec fn enabled_codes(es: Seq<EntryView>) -> Seq<Seq<char>>
    decreases es.len(),
{
    if es.len() == 0 {
        Seq::empty()
    } else if es.last().enabled {
        enabled_codes(es.drop_last()).push(code_lines_joined(es.last().code, " + "@))
    } else {
        enabled_codes(es.drop_last())
    }
}

/// GBA patches change nothing but EWRAM and IWRAM, and keep their sizes.
pub proof fn law_gba_patches_touch_only_work_ram(v: GbaBusView, ps: Seq<GbaPatch>)
    ensures
        apply_gba(v, ps) == (GbaBusView { ewram: apply_gba(v, ps).ewram, iwram: apply_gba(v, ps).iwram, ..v }),
        apply_gba(v, ps).ewram.len() == v.ewram.len(),
        apply_gba(v, ps).iwram.len() == v.iwram.len(),
    decreases ps.len(),
{
    if ps.len() > 0 {
        law_gba_patches_touch_only_work_ram(v, ps.drop_last());
    }
}

/// GB/GBC patches never change the cartridge ROM, the bank registers or the video memory:
/// they only reach work RAM, high RAM and cartridge RAM.
pub proof fn law_gbc_patches_keep_rom(b: BusView, ps: Seq<GbcPatch>)
    ensures
        apply_gbc(b, ps).mbc.rom == b.mbc.rom,
        apply_gbc(b, ps).mbc.rom_bank == b.mbc.rom_bank,
        apply_gbc(b, ps).mbc.ram_bank == b.mbc.ram_bank,
        apply_gbc(b, ps).vram == b.vram,
        apply_gbc(b, ps).oam == b.oam,
    decreases ps.len(),
{
    reveal(BusView::wr_mem);
    reveal(BusView::wr_io);
    if ps.len() > 0 {
        law_gbc_patches_keep_rom(b, ps.drop_last());
    }
}

/// A run of hex digits is its own hex part.
proof fn lemma_hex_only_all(l: Seq<char>)
    requires
        all_hex(l),
    ensures
        hex_only(l) == l,
    decreases l.len(),
{
    if l.len() > 0 {
        assert(all_hex(l.drop_last()));
        lemma_hex_only_all(l.drop_last());
        assert(is_hex(l.last()));
        assert(l.drop_last().push(l.last()) =~= l);
    }
}

/// A run of hex digits holds no `:`.
proof fn lemma_no_colon(l: Seq<char>)
    requires
        all_hex(l),
    ensures
        first_index(l, ':') is None,
    decreases l.len(),
{
    if l.len() > 0 {
        assert(is_hex(l[0]));
        assert(all_hex(l.drop_first()));
        lemma_no_colon(l.drop_first());
    }
}

/// Raw GBA codes of hex digits only. Sixteen digits `TTAAAAAAVVVVVVVV` patch the EWRAM
/// byte offset `AAAAAA` (address 0x02000000 + AAAAAA) with the value `VVVVVVVV`, 4 bytes
/// wide for type 04, 1 byte (its low byte) for type 00 and 2 bytes (its low half) for any
/// other type. Twelve digits `PAAAAAAAVVVV` patch address `AAAAAAA` (moved into EWRAM
/// when below it) with `VVVV`, 1 byte (its low byte) when `P` is 3 and 2 bytes otherwise.
pub proof fn law_gba_raw_codes(l: Seq<char>)
    requires
        all_hex(l),
        l.len() == 12 || l.len() == 16,
    ensures
        ({
            match gba_line(l) {
                None => false,
                Some(p) => if l.len() == 16 {
                    let t = l.take(2);
                    let a = hex_value(l.subrange(2, 8));
                    let v = hex_value(l.subrange(8, 16));
                    &&& p.address as int == 0x02000000 + a
                    &&& t == "04"@ ==> p.width == 4 && p.value as int == v
                    &&& t == "00"@ ==> p.width == 1 && p.value as int == v % 0x100
                    &&& t != "04"@ && t != "00"@ ==> p.width == 2 && p.value as int == v % 0x10000
                } else {
                    let a = hex_value(l.subrange(1, 8));
                    let v = hex_value(l.subrange(8, 12));
                    &&& p.address as int == if a < 0x02000000 { 0x02000000 + a % 0x1000000 } else { a }
                    &&& l[0] == '3' ==> p.width == 1 && p.value as int == v % 0x100
                    &&& l[0] != '3' ==> p.width == 2 && p.value as int == v
                },
            }
        }),
{
    lemma_hex_only_all(l);
    lemma_no_colon(l);
    assert(is_hex(l[0]));
    assert(!is_skipped(l));
    assert(colon_sides(l) is None);
    reveal_strlit("00");
    reveal_strlit("04");
    assert("00"@ != "04"@) by {
        assert("00"@[1] != "04"@[1]);
    }
    if l.len() == 16 {
        let s6 = l.subrange(2, 8);
        let s8 = l.subrange(8, 16);
        assert(all_hex(s6) && all_hex(s8));
        lemma_hex_value_bound(s6);
        lemma_hex_value_bound(s8);
        reveal_with_fuel(pow16_of, 9);
        assert(hex_value(s6) < 0x1000000);
        assert(hex_value(s8) < 0x1_0000_0000);
        let p = gba_line(l)->Some_0;
        assert(canonical(hex_value(s6)) == 0x02000000 + hex_value(s6));
        assert(p.address as int == 0x02000000 + hex_value(s6));
    } else {
        let s7 = l.subrange(1, 8);
        let s4 = l.subrange(8, 12);
        assert(all_hex(s7) && all_hex(s4));
        lemma_hex_value_bound(s7);
        lemma_hex_value_bound(s4);
        reveal_with_fuel(pow16_of, 9);
        assert(hex_value(s7) < 0x1000_0000);
        assert(hex_value(s4) < 0x1_0000);
        let p = gba_line(l)->Some_0;
        assert(p.address as int == canonical(hex_value(s7)));
    }
}

/// Raw GameShark codes for GB/GBC: eight hex digits `TTVVYYZZ` of type 01, 91 or 90
/// patch address `ZZYY` (the two address bytes stored low byte first) with value `VV`.
pub proof fn law_gbc_raw_codes(l: Seq<char>)
    requires
        all_hex(l),
        l.len() == 8,
        l.take(2) == "01"@ || l.take(2) == "91"@ || l.take(2) == "90"@,
    ensures
        ({
            let yy = hex_value(l.subrange(4, 6));
            let zz = hex_value(l.subrange(6, 8));
            gbc_line(l) == Some(GbcPatch {
                address: (zz * 256 + yy) as u16,
                value: hex_value(l.subrange(2, 4)) as u8,
            })
            && (zz * 256 + yy) as u16 as int == zz * 256 + yy
            && hex_value(l.subrange(2, 4)) as u8 as int == hex_value(l.subrange(2, 4))
        }),
{
    lemma_hex_only_all(l);
    lemma_no_colon(l);
    assert(is_hex(l[0]));
    assert(!is_skipped(l));
    assert(colon_sides(l) is None);
    let s2 = l.subrange(2, 4);
    let s4 = l.subrange(4, 6);
    let s6 = l.subrange(6, 8);
    assert(all_hex(s2) && all_hex(s4) && all_hex(s6));
    lemma_hex_value_bound(s2);
    lemma_hex_value_bound(s4);
    lemma_hex_value_bound(s6);
    reveal_with_fuel(pow16_of, 3);
}

} // verus!
