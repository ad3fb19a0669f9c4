//! Character-level text helpers for the cheat formats: line splitting, trimming,
//! hexadecimal and decimal numbers, all stated over `Seq<char>`.
use vstd::prelude::*;

verus! {

/// Unicode `White_Space`, the set that `char::is_whitespace` and `str::trim` use.
pub open spec fn is_ws(c: char) -> bool {
    ||| ('\u{9}' <= c <= '\u{d}')
    ||| c == ' '
    ||| c == '\u{85}'
    ||| c == '\u{a0}'
    ||| c == '\u{1680}'
    ||| ('\u{2000}' <= c <= '\u{200a}')
    ||| c == '\u{2028}'
    ||| c == '\u{2029}'
    ||| c == '\u{202f}'
    ||| c == '\u{205f}'
    ||| c == '\u{3000}'
}

/// ASCII hexadecimal digit.
pub open spec fn is_hex(c: char) -> bool {
    ('0' <= c <= '9') || ('a' <= c <= 'f') || ('A' <= c <= 'F')
}

/// ASCII decimal digit.
pub open spec fn is_dec(c: char) -> bool {
    '0' <= c <= '9'
}

/// Value of a hexadecimal digit.
pub open spec fn hex_digit(c: char) -> int {
    if '0' <= c <= '9' {
        c as int - '0' as int
    } else if 'a' <= c <= 'f' {
        c as int - 'a' as int + 10
    } else {
        c as int - 'A' as int + 10
    }
}

/// Every character is a hexadecimal digit.
pub open spec fn all_hex(s: Seq<char>) -> bool {
    forall|i: int| 0 <= i < s.len() ==> is_hex(#[trigger] s[i])
}

/// Every character is a decimal digit.
pub open spec fn all_dec(s: Seq<char>) -> bool {
    forall|i: int| 0 <= i < s.len() ==> is_dec(#[trigger] s[i])
}

/// Value of a string of hexadecimal digits.
pub open spec fn hex_value(s: Seq<char>) -> int
    decreases s.len(),
{
    if s.len() == 0 {
        0
    } else {
        hex_value(s.drop_last()) * 16 + hex_digit(s.last())
    }
}

/// Value of a string of decimal digits.
pub open spec fn dec_value(s: Seq<char>) -> int
    decreases s.len(),
{
    if s.len() == 0 {
        0
    } else {
        dec_value(s.drop_last()) * 10 + (s.last() as int - '0' as int)
    }
}

/// The digits after an optional leading `+`, as the integer parsers of std read them.
pub open spec fn unsigned_digits(s: Seq<char>) -> Seq<char> {
    if s.len() > 0 && s[0] == '+' {
        s.drop_first()
    } else {
        s
    }
}

/// `from_str_radix(s, 16)` into an unsigned type whose largest value is `max`.
pub open spec fn parse_hex_spec(s: Seq<char>, max: int) -> Option<int> {
    let d = unsigned_digits(s);
    if d.len() == 0 || !all_hex(d) || hex_value(d) > max {
        None
    } else {
        Some(hex_value(d))
    }
}

/// `s.parse::<usize>()` (decimal, optional leading `+`).
pub open spec fn parse_dec_spec(s: Seq<char>) -> Option<int> {
    let d = unsigned_digits(s);
    if d.len() == 0 || !all_dec(d) || dec_value(d) > usize::MAX {
        None
    } else {
        Some(dec_value(d))
    }
}

/// `s` with leading whitespace removed.
pub open spec fn trim_start(s: Seq<char>) -> Seq<char>
    decreases s.len(),
{
    if s.len() > 0 && is_ws(s[0]) {
        trim_start(s.drop_first())
    } else {
        s
    }
}

/// `s` with trailing whitespace removed.
pub open spec fn trim_end(s: Seq<char>) -> Seq<char>
    decreases s.len(),
{
    if s.len() > 0 && is_ws(s.last()) {
        trim_end(s.drop_last())
    } else {
        s
    }
}

/// `str::trim`.
pub open spec fn trim(s: Seq<char>) -> Seq<char> {
    trim_end(trim_start(s))
}

/// `s` with every leading `"0x"` removed (`trim_start_matches("0x")`).
pub open spec fn strip_0x(s: Seq<char>) -> Seq<char>
    decreases s.len(),
{
    if s.len() >= 2 && s[0] == '0' && s[1] == 'x' {
        strip_0x(s.skip(2))
    } else {
        s
    }
}

/// The pieces of `s` between `'\n'` characters (one more piece than there are newlines).
pub open spec fn split_nl(s: Seq<char>) -> Seq<Seq<char>>
    decreases s.len(),
{
    if s.len() == 0 {
        seq![Seq::empty()]
    } else {
        let r = split_nl(s.drop_last());
        if s.last() == '\n' {
            r.push(Seq::empty())
        } else {
            r.update(r.len() - 1, r.last().push(s.last()))
        }
    }
}

/// The trimmed lines of `s`. `str::lines` followed by `trim` yields the same non-empty
/// lines in the same order (a trailing `'\r'` is whitespace); every user of the lines
/// skips the empty ones.
pub open spec fn trimmed_lines(s: Seq<char>) -> Seq<Seq<char>> {
    split_nl(s).map_values(|l: Seq<char>| trim(l))
}

/// The views of a vector of character vectors.
pub open spec fn views(v: Seq<Vec<char>>) -> Seq<Seq<char>> {
    v.map_values(|l: Vec<char>| l@)
}

/// Decimal digits of `n`, most significant first.
pub open spec fn dec_chars(n: nat) -> Seq<char>
    decreases n,
{
    if n < 10 {
        seq![(n + '0' as nat) as char]
    } else {
        dec_chars(n / 10).push(((n % 10) + '0' as nat) as char)
    }
}

/// Uppercase hexadecimal digit of a value below 16.
pub open spec fn hex_char_upper(d: int) -> char {
    if d < 10 {
        (d + '0' as int) as char
    } else {
        (d - 10 + 'A' as int) as char
    }
}

/// The last `n` hexadecimal digits of `x`, uppercase, most significant first.
pub open spec fn hex_digits(x: nat, n: nat) -> Seq<char>
    decreases n,
{
    if n == 0 {
        Seq::empty()
    } else {
        hex_digits(x / 16, (n - 1) as nat).push(hex_char_upper((x % 16) as int))
    }
}

/// `format!("{:08X}", x)`.
pub open spec fn hex8(x: u32) -> Seq<char> {
    hex_digits(x as nat, 8)
}

/// `char::is_whitespace`.
pub fn is_whitespace_char(c: char) -> (b: bool)
    ensures
        b == is_ws(c),
{
    ('\u{9}' <= c && c <= '\u{d}') || c == ' ' || c == '\u{85}' || c == '\u{a0}' || c == '\u{1680}'
        || ('\u{2000}' <= c && c <= '\u{200a}') || c == '\u{2028}' || c == '\u{2029}' || c == '\u{202f}'
        || c == '\u{205f}' || c == '\u{3000}'
}

/// `char::is_ascii_hexdigit`.
pub fn is_hex_char(c: char) -> (b: bool)
    ensures
        b == is_hex(c),
{
    ('0' <= c && c <= '9') || ('a' <= c && c <= 'f') || ('A' <= c && c <= 'F')
}

/// Value of a hexadecimal digit.
pub fn hex_digit_value(c: char) -> (d: u32)
    requires
        is_hex(c),
    ensures
        d == hex_digit(c),
        d < 16,
{
    if '0' <= c && c <= '9' {
        (c as u32) - ('0' as u32)
    } else if 'a' <= c && c <= 'f' {
        (c as u32) - ('a' as u32) + 10
    } else {
        (c as u32) - ('A' as u32) + 10
    }
}

/// Appends a character (`String::push`).
#[verifier::external_body]
pub(crate) fn push_char(s: &mut String, c: char)
    ensures
        final(s)@ == old(s)@.push(c),
{
    s.push(c);
}

/// The characters of a string slice, in order.
pub fn chars_of(s: &str) -> (v: Vec<char>)
    ensures
        v@ == s@,
{
    let mut v: Vec<char> = Vec::new();
    for c in it: s.chars()
        invariant
            v@ == it.seq().take(it.index() as int),
    {
        v.push(c);
    }
    v
}

/// A string holding the given characters.
pub fn string_of(v: &Vec<char>) -> (s: String)
    ensures
        s@ == v@,
{
    let mut s = String::new();
    let mut i: usize = 0;
    while i < v.len()
        invariant
            i <= v.len(),
            s@ == v@.take(i as int),
        decreases v.len() - i,
    {
        push_char(&mut s, v[i]);
        i = i + 1;
        assert(s@ =~= v@.take(i as int));
    }
    assert(v@.take(v.len() as int) =~= v@);
    s
}

/// Appends every character of `v` to `s`.
pub fn push_chars(s: &mut String, v: &Vec<char>)
    ensures
        final(s)@ == old(s)@ + v@,
{
    let mut i: usize = 0;
    while i < v.len()
        invariant
            i <= v.len(),
            s@ == old(s)@ + v@.take(i as int),
        decreases v.len() - i,
    {
        push_char(s, v[i]);
        i = i + 1;
        assert(s@ =~= old(s)@ + v@.take(i as int));
    }
    assert(v@.take(v.len() as int) =~= v@);
}

/// `trim_start` drops exactly the leading whitespace scanned so far.
proof fn lemma_trim_start_skip(s: Seq<char>, i: int)
    requires
        0 <= i <= s.len(),
        forall|k: int| 0 <= k < i ==> is_ws(#[trigger] s[k]),
    ensures
        trim_start(s) == trim_start(s.skip(i)),
    decreases i,
{
    if i > 0 {
        lemma_trim_start_skip(s.drop_first(), i - 1);
        assert(s.drop_first().skip(i - 1) =~= s.skip(i));
    } else {
        assert(s.skip(0) =~= s);
    }
}

/// `trim_end` drops exactly the trailing whitespace scanned so far.
proof fn lemma_trim_end_take(s: Seq<char>, j: int)
    requires
        0 <= j <= s.len(),
        forall|k: int| j <= k < s.len() ==> is_ws(#[trigger] s[k]),
    ensures
        trim_end(s) == trim_end(s.take(j)),
    decreases s.len() - j,
{
    if j < s.len() {
        lemma_trim_end_take(s.drop_last(), j);
        assert(s.drop_last().take(j) =~= s.take(j));
    } else {
        assert(s.take(j) =~= s);
    }
}

/// `str::trim` on characters.
pub fn trim_chars(v: &Vec<char>) -> (r: Vec<char>)
    ensures
        r@ == trim(v@),
{
    let n = v.len();
    let mut i: usize = 0;
    while i < n && is_whitespace_char(v[i])
        invariant
            i <= n,
            n == v.len(),
            forall|k: int| 0 <= k < i ==> is_ws(#[trigger] v@[k]),
        decreases n - i,
    {
        i = i + 1;
    }
    let ghost t = v@.skip(i as int);
    proof {
        lemma_trim_start_skip(v@, i as int);
        assert(trim_start(t) == t);
    }
    let mut j: usize = n;
    while j > i && is_whitespace_char(v[j - 1])
        invariant
            i <= j <= n,
            n == v.len(),
            t == v@.skip(i as int),
            forall|k: int| j - i <= k < t.len() ==> is_ws(#[trigger] t[k]),
        decreases j,
    {
        j = j - 1;
    }
    proof {
        lemma_trim_end_take(t, j - i);
        let u = t.take(j - i);
        assert(u.len() == 0 || !is_ws(u.last()));
        assert(trim_end(u) == u);
    }
    let mut r: Vec<char> = Vec::new();
    let mut k: usize = i;
    while k < j
        invariant
            i <= k <= j <= n,
            n == v.len(),
            r@ == v@.subrange(i as int, k as int),
        decreases j - k,
    {
        r.push(v[k]);
        k = k + 1;
        assert(r@ =~= v@.subrange(i as int, k as int));
    }
    assert(r@ =~= t.take(j - i));
    r
}

/// Splits characters at every `'\n'` (see `split_nl`).
pub fn split_lines(v: &Vec<char>) -> (r: Vec<Vec<char>>)
    ensures
        views(r@) == split_nl(v@),
{
    let mut done: Vec<Vec<char>> = Vec::new();
    let mut cur: Vec<char> = Vec::new();
    let mut i: usize = 0;
    assert(v@.take(0) =~= Seq::<char>::empty());
    while i < v.len()
        invariant
            i <= v.len(),
            views(done@).push(cur@) == split_nl(v@.take(i as int)),
        decreases v.len() - i,
    {
        let c = v[i];
        let ghost pre = v@.take(i as int);
        assert(v@.take(i + 1).drop_last() =~= pre);
        if c == '\n' {
            let ghost old_done = views(done@);
            let ghost old_cur = cur@;
            done.push(cur);
            cur = Vec::new();
            assert(views(done@) =~= old_done.push(old_cur));
            assert(views(done@).push(cur@) =~= split_nl(pre).push(Seq::empty()));
        } else {
            let ghost old_done = views(done@);
            cur.push(c);
            assert(views(done@) =~= old_done);
            let ghost r = split_nl(pre);
            assert(views(done@).push(cur@) =~= r.update(r.len() - 1, r.last().push(c)));
        }
        i = i + 1;
    }
    assert(v@.take(v.len() as int) =~= v@);
    let ghost old_done = views(done@);
    let ghost old_cur = cur@;
    done.push(cur);
    assert(views(done@) =~= old_done.push(old_cur));
    done
}

/// `trim_start_matches("0x")` on characters.
pub fn strip_0x_chars(v: &Vec<char>) -> (r: Vec<char>)
    ensures
        r@ == strip_0x(v@),
{
    let mut i: usize = 0;
    assert(v@.skip(0) =~= v@);
    while v.len() - i >= 2 && v[i] == '0' && v[i + 1] == 'x'
        invariant
            i <= v.len(),
            strip_0x(v@) == strip_0x(v@.skip(i as int)),
        decreases v.len() - i,
    {
        assert(v@.skip(i as int).skip(2) =~= v@.skip(i + 2));
        i = i + 2;
    }
    let mut r: Vec<char> = Vec::new();
    let mut k: usize = i;
    while k < v.len()
        invariant
            i <= k <= v.len(),
            r@ == v@.subrange(i as int, k as int),
        decreases v.len() - k,
    {
        r.push(v[k]);
        k = k + 1;
        assert(r@ =~= v@.subrange(i as int, k as int));
    }
    assert(r@ =~= v@.skip(i as int));
    r
}

/// A prefix of hexadecimal digits is worth no more than the whole string.
proof fn lemma_hex_value_prefix(s: Seq<char>, i: int)
    requires
        0 <= i <= s.len(),
        all_hex(s),
    ensures
        hex_value(s.take(i)) <= hex_value(s),
        0 <= hex_value(s.take(i)),
    decreases s.len(),
{
    if s.len() > 0 {
        assert(all_hex(s.drop_last()));
        if i < s.len() {
            lemma_hex_value_prefix(s.drop_last(), i);
            assert(s.drop_last().take(i) =~= s.take(i));
            lemma_hex_value_prefix(s.drop_last(), s.len() - 1);
            assert(s.drop_last().take(s.len() - 1) =~= s.drop_last());
            assert(is_hex(s.last()));
        } else {
            assert(s.take(i) =~= s);
            lemma_hex_value_prefix(s.drop_last(), s.len() - 1);
            assert(s.drop_last().take(s.len() - 1) =~= s.drop_last());
            assert(is_hex(s.last()));
        }
    } else {
        assert(s.take(i) =~= s);
    }
}

/// A prefix of decimal digits is worth no more than the whole string.
proof fn lemma_dec_value_prefix(s: Seq<char>, i: int)
    requires
        0 <= i <= s.len(),
        all_dec(s),
    ensures
        dec_value(s.take(i)) <= dec_value(s),
        0 <= dec_value(s.take(i)),
    decreases s.len(),
{
    if s.len() > 0 {
        assert(all_dec(s.drop_last()));
        lemma_dec_value_prefix(s.drop_last(), s.len() - 1);
        assert(s.drop_last().take(s.len() - 1) =~= s.drop_last());
        assert(is_dec(s.last()));
        if i < s.len() {
            lemma_dec_value_prefix(s.drop_last(), i);
            assert(s.drop_last().take(i) =~= s.take(i));
        } else {
            assert(s.take(i) =~= s);
        }
    } else {
        assert(s.take(i) =~= s);
    }
}

/// `from_str_radix(s, 16)` into an unsigned type whose largest value is `max`.
pub fn parse_hex(v: &Vec<char>, max: u64) -> (r: Option<u64>)
    requires
        max >= 15,
    ensures
        match r {
            Some(k) => parse_hex_spec(v@, max as int) == Some(k as int),
            None => parse_hex_spec(v@, max as int) is None,
        },
{
    let start: usize = if v.len() > 0 && v[0] == '+' { 1 } else { 0 };
    let ghost d = unsigned_digits(v@);
    assert(d =~= v@.skip(start as int));
    if start >= v.len() {
        assert(d.len() == 0);
        return None;
    }
    let mut i: usize = start;
    while i < v.len()
        invariant
            start <= i <= v.len(),
            d == v@.skip(start as int),
            d == unsigned_digits(v@),
            forall|k: int| 0 <= k < i - start ==> is_hex(#[trigger] d[k]),
        decreases v.len() - i,
    {
        if !is_hex_char(v[i]) {
            assert(d[i - start] == v@[i as int]);
            assert(!is_hex(d[i - start]));
            assert(!all_hex(d));
            return None;
        }
        i = i + 1;
    }
    assert(all_hex(d));
    let mut acc: u64 = 0;
    let mut i: usize = start;
    while i < v.len()
        invariant
            start <= i <= v.len(),
            d == v@.skip(start as int),
            d == unsigned_digits(v@),
            all_hex(d),
            acc as int == hex_value(d.take(i - start)),
            acc <= max,
            max >= 15,
        decreases v.len() - i,
    {
        assert(d[i - start] == v@[i as int]);
        assert(is_hex(d[i - start]));
        let dv = hex_digit_value(v[i]);
        assert(d.take(i - start + 1).drop_last() =~= d.take(i - start));
        assert(d.take(i - start + 1).last() == d[i - start]);
        assert(hex_value(d.take(i - start + 1)) == acc * 16 + dv);
        if acc > (max - dv as u64) / 16 {
            proof {
                lemma_hex_value_prefix(d, i - start + 1);
                assert(hex_value(d.take(i - start + 1)) == acc * 16 + dv);
                assert(acc * 16 + dv > max) by (nonlinear_arith)
                    requires acc > (max - dv) / 16, dv <= max;
            }
            return None;
        }
        proof {
            assert(acc * 16 + dv <= max) by (nonlinear_arith)
                requires acc <= (max - dv) / 16, dv <= max;
        }
        acc = acc * 16 + dv as u64;
        i = i + 1;
    }
    assert(d.take(d.len() as int) =~= d);
    Some(acc)
}

/// `s.parse::<usize>()`.
pub fn parse_usize(v: &Vec<char>) -> (r: Option<usize>)
    ensures
        match r {
            Some(k) => parse_dec_spec(v@) == Some(k as int),
            None => parse_dec_spec(v@) is None,
        },
{
    let start: usize = if v.len() > 0 && v[0] == '+' { 1 } else { 0 };
    let ghost d = unsigned_digits(v@);
    assert(d =~= v@.skip(start as int));
    if start >= v.len() {
        assert(d.len() == 0);
        return None;
    }
    let mut i: usize = start;
    while i < v.len()
        invariant
            start <= i <= v.len(),
            d == v@.skip(start as int),
            d == unsigned_digits(v@),
            forall|k: int| 0 <= k < i - start ==> is_dec(#[trigger] d[k]),
        decreases v.len() - i,
    {
        if !('0' <= v[i] && v[i] <= '9') {
            assert(d[i - start] == v@[i as int]);
            assert(!is_dec(d[i - start]));
            assert(!all_dec(d));
            return None;
        }
        i = i + 1;
    }
    assert(all_dec(d));
    let mut acc: usize = 0;
    let mut i: usize = start;
    while i < v.len()
        invariant
            start <= i <= v.len(),
            d == v@.skip(start as int),
            d == unsigned_digits(v@),
            all_dec(d),
            acc as int == dec_value(d.take(i - start)),
        decreases v.len() - i,
    {
        assert(d[i - start] == v@[i as int]);
        assert(is_dec(d[i - start]));
        let dv = (v[i] as u32 - '0' as u32) as usize;
        assert(d.take(i - start + 1).drop_last() =~= d.take(i - start));
        assert(d.take(i - start + 1).last() == d[i - start]);
        assert(dec_value(d.take(i - start + 1)) == acc * 10 + dv);
        if acc > (usize::MAX - dv) / 10 {
            proof {
                lemma_dec_value_prefix(d, i - start + 1);
                assert(dec_value(d.take(i - start + 1)) == acc * 10 + dv);
                assert(acc * 10 + dv > usize::MAX) by (nonlinear_arith)
                    requires acc > (usize::MAX - dv) / 10, dv <= 9;
            }
            return None;
        }
        proof {
            assert(acc * 10 + dv <= usize::MAX) by (nonlinear_arith)
                requires acc <= (usize::MAX - dv) / 10, dv <= 9;
        }
        acc = acc * 10 + dv;
        i = i + 1;
    }
    assert(d.take(d.len() as int) =~= d);
    Some(acc)
}

/// Appends the decimal digits of `n`.
pub fn push_decimal(s: &mut String, n: u128)
    ensures
        final(s)@ == old(s)@ + dec_chars(n as nat),
    decreases n,
{
    if n >= 10 {
        push_decimal(s, n / 10);
        push_char(s, ((n % 10) as u8 + 48u8) as char);
        assert(((n % 10) as u8 + 48u8) as char == ((n as nat % 10) + '0' as nat) as char);
        assert(old(s)@ + dec_chars(n as nat) =~= old(s)@ + dec_chars((n / 10) as nat) + seq![((n as nat % 10) + '0' as nat) as char]);
    } else {
        push_char(s, (n as u8 + 48u8) as char);
        assert(old(s)@ + dec_chars(n as nat) =~= old(s)@.push((n as nat + '0' as nat) as char));
    }
}

/// Appends the last `n` uppercase hexadecimal digits of `x`.
pub fn push_hex_digits(s: &mut String, x: u32, n: u32)
    ensures
        final(s)@ == old(s)@ + hex_digits(x as nat, n as nat),
    decreases n,
{
    if n > 0 {
        push_hex_digits(s, x / 16, n - 1);
        let d = x % 16;
        let c = if d < 10 { ((d as u8) + 48u8) as char } else { ((d as u8) - 10 + 65u8) as char };
        assert(c == hex_char_upper(d as int));
        push_char(s, c);
        assert(old(s)@ + hex_digits(x as nat, n as nat) =~= old(s)@ + hex_digits((x / 16) as nat, (n - 1) as nat) + seq![c]);
    } else {
        assert(old(s)@ + hex_digits(x as nat, 0) =~= old(s)@);
    }
}

/// Appends `format!("{:08X}", x)`.
pub fn push_hex8(s: &mut String, x: u32)
    ensures
        final(s)@ == old(s)@ + hex8(x),
{
    push_hex_digits(s, x, 8);
}

} // verus!
