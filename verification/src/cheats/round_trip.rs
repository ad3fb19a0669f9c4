//! Reading back a written `.cht` text gives back the cheat list.
use vstd::prelude::*;
use crate::cheats::{code_lines_joined, join, nonempty, CheatType, EntryView, GameCheatsView, variant_name};
use crate::cheats::cht::{
    assigns, cht_block, cht_block_lines, cht_blocks, cht_header, cht_header_lines, cht_text, enable_value, entries_below,
    entry_at, field_line, field_value, last_field, max_index, parsed_entries, ParsedEntry,
    first_index, join_lines, lemma_first_index, line_assign, lower_char, lower_eq, quoted, replace, type_value,
    unquote, FieldView,
};
use crate::cheats::text::{
    all_dec, dec_chars, dec_value, hex8, hex_digits, is_ws, parse_dec_spec, split_nl, trim, trim_end, trim_start,
    trimmed_lines, unsigned_digits,
};

verus! {

/// `s` holds no `c`.
pub open spec fn lacks(s: Seq<char>, c: char) -> bool {
    forall|i: int| 0 <= i < s.len() ==> s[i] != c
}

/// A piece without newlines is one line.
proof fn lemma_split_single(l: Seq<char>)
    requires
        lacks(l, '\n'),
    ensures
        split_nl(l) == seq![l],
    decreases l.len(),
{
    if l.len() > 0 {
        lemma_split_single(l.drop_last());
        assert(l.drop_last().push(l.last()) =~= l);
        assert(seq![l.drop_last()].update(0, l.drop_last().push(l.last())) =~= seq![l]);
    } else {
        assert(l =~= Seq::<char>::empty());
    }
}

/// Splitting always gives at least one piece.
proof fn lemma_split_nonempty(s: Seq<char>)
    ensures
        split_nl(s).len() >= 1,
    decreases s.len(),
{
    if s.len() > 0 {
        lemma_split_nonempty(s.drop_last());
    }
}

/// A newline-terminated line in front splits off as one line.
proof fn lemma_split_after_line(l: Seq<char>, b: Seq<char>)
    requires
        lacks(l, '\n'),
    ensures
        split_nl(l.push('\n') + b) == seq![l] + split_nl(b),
    decreases b.len(),
{
    if b.len() == 0 {
        assert(l.push('\n') + b =~= l.push('\n'));
        lemma_split_single(l);
        assert(l.push('\n').drop_last() =~= l);
        assert(seq![l].push(Seq::<char>::empty()) =~= seq![l] + seq![Seq::<char>::empty()]);
    } else {
        lemma_split_after_line(l, b.drop_last());
        lemma_split_nonempty(b.drop_last());
        let s = l.push('\n') + b;
        assert(s.drop_last() =~= l.push('\n') + b.drop_last());
        assert(s.last() == b.last());
        let r = split_nl(b.drop_last());
        if b.last() == '\n' {
            assert((seq![l] + r).push(Seq::<char>::empty()) =~= seq![l] + r.push(Seq::<char>::empty()));
        } else {
            assert((seq![l] + r).update((seq![l] + r).len() - 1, (seq![l] + r).last().push(b.last()))
                =~= seq![l] + r.update(r.len() - 1, r.last().push(b.last())));
        }
    }
}

/// `join_lines` of a concatenation.
proof fn lemma_join_lines_concat(x: Seq<Seq<char>>, y: Seq<Seq<char>>)
    ensures
        join_lines(x + y) == join_lines(x) + join_lines(y),
    decreases y.len(),
{
    if y.len() == 0 {
        assert(x + y =~= x);
        assert(join_lines(x) + join_lines(y) =~= join_lines(x));
    } else {
        lemma_join_lines_concat(x, y.drop_last());
        assert((x + y).drop_last() =~= x + y.drop_last());
        assert((x + y).last() == y.last());
        assert(join_lines(x) + join_lines(y) =~= join_lines(x) + join_lines(y.drop_last()) + y.last().push('\n'));
    }
}

/// Every line lacks newlines.
pub open spec fn lines_ok(ls: Seq<Seq<char>>) -> bool {
    forall|k: int| 0 <= k < ls.len() ==> lacks(#[trigger] ls[k], '\n')
}

/// Splitting joined lines gives them back, then what follows.
proof fn lemma_split_join_lines(ls: Seq<Seq<char>>, b: Seq<char>)
    requires
        lines_ok(ls),
    ensures
        split_nl(join_lines(ls) + b) == ls + split_nl(b),
    decreases ls.len(),
{
    if ls.len() == 0 {
        assert(join_lines(ls) + b =~= b);
        assert(ls + split_nl(b) =~= split_nl(b));
    } else {
        let first = seq![ls[0]];
        let rest = ls.drop_first();
        assert(ls =~= first + rest);
        lemma_join_lines_concat(first, rest);
        reveal_with_fuel(join_lines, 2);
        assert(first.drop_last() =~= Seq::<Seq<char>>::empty());
        assert(join_lines(first) =~= ls[0].push('\n'));
        assert(lines_ok(rest));
        lemma_split_join_lines(rest, b);
        assert(join_lines(ls) + b =~= ls[0].push('\n') + (join_lines(rest) + b));
        lemma_split_after_line(ls[0], join_lines(rest) + b);
        assert(seq![ls[0]] + (rest + split_nl(b)) =~= ls + split_nl(b));
    }
}

/// `assigns` of a concatenation.
proof fn lemma_assigns_concat(x: Seq<Seq<char>>, y: Seq<Seq<char>>)
    ensures
        assigns(x + y) == assigns(x) + assigns(y),
    decreases y.len(),
{
    if y.len() == 0 {
        assert(x + y =~= x);
        assert(assigns(x) + assigns(y) =~= assigns(x));
    } else {
        lemma_assigns_concat(x, y.drop_last());
        assert((x + y).drop_last() =~= x + y.drop_last());
        assert((x + y).last() == y.last());
        match crate::cheats::cht::line_assign(trim(y.last())) {
            Some(a) => {
                assert(assigns(x) + assigns(y) =~= (assigns(x) + assigns(y.drop_last())).push(a));
            },
            None => {},
        }
    }
}

/// Leading whitespace removal stops at a non-whitespace character.
proof fn lemma_trim_start_id(s: Seq<char>)
    requires
        s.len() > 0 ==> !is_ws(s[0]),
    ensures
        trim_start(s) == s,
{
}

/// Trailing whitespace removal stops at a non-whitespace character.
proof fn lemma_trim_end_id(s: Seq<char>)
    requires
        s.len() > 0 ==> !is_ws(s.last()),
    ensures
        trim_end(s) == s,
{
}

/// A string with non-whitespace ends is its own trim.
proof fn lemma_trim_id(s: Seq<char>)
    requires
        s.len() > 0,
        !is_ws(s[0]),
        !is_ws(s.last()),
    ensures
        trim(s) == s,
{
    lemma_trim_start_id(s);
    lemma_trim_end_id(s);
}

/// Decimal digits: non-empty, all digits, worth `n`.
proof fn lemma_dec_chars(n: nat)
    ensures
        dec_chars(n).len() > 0,
        all_dec(dec_chars(n)),
        dec_value(dec_chars(n)) == n,
        lacks(dec_chars(n), '_'),
        lacks(dec_chars(n), '='),
        lacks(dec_chars(n), '\n'),
        dec_chars(n)[0] != '+',
        dec_chars(n)[0] != 's',
    decreases n,
{
    if n >= 10 {
        lemma_dec_chars(n / 10);
        let d = dec_chars(n / 10);
        let c = ((n % 10) + '0' as nat) as char;
        assert(dec_chars(n) == d.push(c));
        assert(d.push(c).drop_last() =~= d);
        assert(dec_value(d.push(c)) == dec_value(d) * 10 + (c as int - '0' as int));
        assert(c as int - '0' as int == n % 10);
    } else {
        let c = (n + '0' as nat) as char;
        assert(dec_chars(n) == seq![c]);
        assert(seq![c].drop_last() =~= Seq::<char>::empty());
        assert(dec_value(seq![c]) == dec_value(Seq::<char>::empty()) * 10 + (c as int - '0' as int));
    }
}

/// Trimming a space-prefixed value with non-whitespace ends gives the value.
proof fn lemma_trim_space_prefix(val: Seq<char>)
    requires
        val.len() > 0,
        !is_ws(val[0]),
        !is_ws(val.last()),
    ensures
        trim(seq![' '] + val) == val,
{
    let s = seq![' '] + val;
    assert(s.drop_first() =~= val);
    lemma_trim_start_id(val);
    assert(trim_start(s) == trim_start(val));
    lemma_trim_end_id(val);
}

/// Trimming a key followed by one space gives the key.
proof fn lemma_trim_space_suffix(key: Seq<char>)
    requires
        key.len() > 0,
        !is_ws(key[0]),
        !is_ws(key.last()),
    ensures
        trim(key.push(' ')) == key,
{
    let s = key.push(' ');
    lemma_trim_start_id(s);
    assert(s.drop_last() =~= key);
    lemma_trim_end_id(key);
}

/// What a `cheat<k>_<field> = <val>` line assigns.
proof fn lemma_field_line(k: nat, f: Seq<char>, val: Seq<char>)
    requires
        k <= usize::MAX,
        f.len() > 0,
        lacks(f, '='),
        !is_ws(f.last()),
        val.len() > 0,
        !is_ws(val[0]),
        !is_ws(val.last()),
    ensures
        line_assign(trim(field_line(k, f, val))) == Some((k, field_value(f, unquote(val)))),
{
    reveal_strlit("cheat");
    reveal_strlit("cheats");
    let d = dec_chars(k);
    lemma_dec_chars(k);
    let line = field_line(k, f, val);
    let key = "cheat"@ + d + seq!['_'] + f;
    assert(line =~= key.push(' ') + (seq!['='] + (seq![' '] + val)));
    let p: int = key.len() as int + 1;
    assert(line[0] == 'c');
    assert(line.last() == val.last());
    lemma_trim_id(line);
    assert forall|j: int| 0 <= j < p implies line[j] != '=' by {
        if j < 5 {
        } else if j < 5 + d.len() {
            assert(line[j] == d[j - 5]);
        } else if j == 5 + d.len() {
        } else if j < key.len() {
            assert(line[j] == f[j - 5 - d.len() - 1]);
        } else {
        }
    }
    assert(line[p] == '=');
    lemma_first_index(line, '=', p);
    assert(line.take(p) =~= key.push(' '));
    assert(key[0] == 'c');
    assert(key.last() == f.last());
    lemma_trim_space_suffix(key);
    assert(line.skip(p + 1) =~= seq![' '] + val);
    lemma_trim_space_prefix(val);
    assert(key != "cheats"@) by {
        assert(key[5] == d[0]);
    }
    assert(key.take(5) =~= "cheat"@);
    let rest = key.skip(5);
    assert(rest =~= d + seq!['_'] + f);
    assert forall|j: int| 0 <= j < d.len() implies rest[j] != '_' by {
        assert(rest[j] == d[j]);
    }
    lemma_first_index(rest, '_', d.len() as int);
    assert(rest.take(d.len() as int) =~= d);
    assert(unsigned_digits(d) == d);
    assert(parse_dec_spec(d) == Some(k as int));
    assert(rest.skip(d.len() as int + 1) =~= f);
}

/// `replace` on a non-empty string, one step from the front.
proof fn lemma_replace_front(s: Seq<char>, pat: Seq<char>, rep: Seq<char>)
    requires
        s.len() > 0,
    ensures
        replace(s, pat, rep) == if 0 < pat.len() <= s.len() && s.take(pat.len() as int) == pat {
            rep + replace(s.skip(pat.len() as int), pat, rep)
        } else {
            seq![s[0]] + replace(s.skip(1), pat, rep)
        },
{
}

/// Escaping quotes, then unescaping them, gives the text back.
proof fn lemma_unescape_escape(s: Seq<char>)
    ensures
        replace(replace(s, "\""@, "\\\""@), "\\\""@, "\""@) == s,
        replace(s, "\""@, "\\\""@).len() > 0 ==> replace(s, "\""@, "\\\""@)[0] != '"',
    decreases s.len(),
{
    reveal_strlit("\"");
    reveal_strlit("\\\"");
    let q = "\""@;
    let bq = "\\\""@;
    assert(q =~= seq!['"']);
    assert(bq =~= seq!['\\', '"']);
    if s.len() == 0 {
    } else {
        let rest = s.skip(1);
        lemma_unescape_escape(rest);
        let er = replace(rest, q, bq);
        lemma_replace_front(s, q, bq);
        if s[0] == '"' {
            assert(s.take(1) =~= q);
            assert(replace(s, q, bq) == bq + er);
            let t = bq + er;
            lemma_replace_front(t, bq, q);
            assert(t.take(2) =~= bq);
            assert(t.skip(2) =~= er);
            assert(replace(t, bq, q) == q + rest);
            assert(q + rest =~= s);
        } else {
            assert(s.take(1) != q) by {
                assert(s.take(1)[0] != q[0]);
            }
            assert(replace(s, q, bq) == seq![s[0]] + er);
            let t = seq![s[0]] + er;
            lemma_replace_front(t, bq, q);
            if t.len() >= 2 && t.take(2) == bq {
                assert(t.take(2)[1] == t[1]);
                assert(t[1] == er[0]);
                assert(false);
            }
            assert(t.skip(1) =~= er);
            assert(replace(t, bq, q) == seq![s[0]] + rest);
            assert(seq![s[0]] + rest =~= s);
        }
    }
}

/// Text without `+` that does not end in a space passes through `replace(.., " + ", ..)`.
proof fn lemma_replace_plain_prefix(x: Seq<char>, y: Seq<char>, rep: Seq<char>)
    requires
        lacks(x, '+'),
        x.len() == 0 || x.last() != ' ',
    ensures
        replace(x + y, " + "@, rep) == x + replace(y, " + "@, rep),
    decreases x.len(),
{
    reveal_strlit(" + ");
    let p = " + "@;
    assert(p =~= seq![' ', '+', ' ']);
    if x.len() == 0 {
        assert(x + y =~= y);
        assert(x + replace(y, p, rep) =~= replace(y, p, rep));
    } else {
        let s = x + y;
        lemma_replace_front(s, p, rep);
        if 3 <= s.len() && s.take(3) == p {
            assert(s.take(3)[1] == s[1]);
            assert(s.take(3)[0] == s[0]);
            if x.len() >= 2 {
                assert(s[1] == x[1]);
            } else {
                assert(s[0] == x.last());
            }
            assert(false);
        }
        let x1 = x.skip(1);
        assert(lacks(x1, '+'));
        assert(x1.len() > 0 ==> x1.last() == x.last());
        lemma_replace_plain_prefix(x1, y, rep);
        assert(s.skip(1) =~= x1 + y);
        assert(seq![s[0]] + (x1 + replace(y, p, rep)) =~= x + replace(y, p, rep));
    }
}

/// A ` + ` separator becomes the replacement.
proof fn lemma_replace_sep(y: Seq<char>, rep: Seq<char>)
    ensures
        replace(" + "@ + y, " + "@, rep) == rep + replace(y, " + "@, rep),
{
    reveal_strlit(" + ");
    let p = " + "@;
    let s = p + y;
    lemma_replace_front(s, p, rep);
    assert(s.take(3) =~= p);
    assert(s.skip(3) =~= y);
}

/// `join` seen from the front.
proof fn lemma_join_front(ls: Seq<Seq<char>>, sep: Seq<char>)
    requires
        ls.len() >= 2,
    ensures
        join(ls, sep) == ls[0] + sep + join(ls.drop_first(), sep),
    decreases ls.len(),
{
    if ls.len() == 2 {
        assert(ls.drop_last().len() == 1);
        assert(ls.drop_first().len() == 1);
        assert(join(ls.drop_last(), sep) == ls[0]);
        assert(join(ls.drop_first(), sep) == ls[1]);
    } else {
        lemma_join_front(ls.drop_last(), sep);
        assert(ls.drop_last().drop_first() =~= ls.drop_first().drop_last());
        assert(ls.drop_first().last() == ls.last());
        assert(ls.drop_last()[0] == ls[0]);
    }
}

/// The pieces of a code: non-empty, without `+` or newline, ending in non-whitespace.
pub open spec fn good_pieces(ls: Seq<Seq<char>>) -> bool {
    forall|k: int| 0 <= k < ls.len() ==> {
        &&& (#[trigger] ls[k]).len() > 0
        &&& lacks(ls[k], '+')
        &&& lacks(ls[k], '\n')
        &&& !is_ws(ls[k].last())
    }
}

/// Joining good pieces with ` + `, then replacing ` + ` by a newline, joins them by newlines.
proof fn lemma_join_replace(ls: Seq<Seq<char>>)
    requires
        good_pieces(ls),
    ensures
        replace(join(ls, " + "@), " + "@, "\n"@) == join(ls, "\n"@),
    decreases ls.len(),
{
    let p = " + "@;
    let nl = "\n"@;
    if ls.len() == 0 {
    } else if ls.len() == 1 {
        assert(ls[0].len() > 0);
        lemma_replace_plain_prefix(ls[0], Seq::empty(), nl);
        assert(ls[0] + Seq::<char>::empty() =~= ls[0]);
    } else {
        lemma_join_front(ls, p);
        lemma_join_front(ls, nl);
        let rest = ls.drop_first();
        assert(good_pieces(rest)) by {
            assert forall|k: int| 0 <= k < rest.len() implies #[trigger] rest[k] == ls[k + 1] by {}
        }
        lemma_join_replace(rest);
        let j = join(rest, p);
        assert(ls[0] + p + j =~= ls[0] + (p + j));
        assert(ls[0].len() > 0);
        lemma_replace_plain_prefix(ls[0], p + j, nl);
        lemma_replace_sep(j, nl);
        assert(ls[0] + (nl + replace(j, p, nl)) =~= ls[0] + nl + join(rest, nl));
    }
}

/// The pieces between newlines hold no newline, nor any character the text lacks.
proof fn lemma_split_lacks(s: Seq<char>, c: char)
    requires
        lacks(s, c) || c == '\n',
    ensures
        forall|k: int| 0 <= k < split_nl(s).len() ==> lacks(#[trigger] split_nl(s)[k], c),
    decreases s.len(),
{
    if s.len() > 0 {
        lemma_split_lacks(s.drop_last(), c);
        lemma_split_nonempty(s.drop_last());
        let r = split_nl(s.drop_last());
        if s.last() != '\n' {
            assert(lacks(r.last(), c));
            assert(s.last() != c);
            assert(lacks(r.last().push(s.last()), c));
        }
    }
}

/// Trimming keeps a missing character missing.
proof fn lemma_trim_lacks(l: Seq<char>, c: char)
    requires
        lacks(l, c),
    ensures
        lacks(trim_start(l), c),
        lacks(trim_end(l), c),
        lacks(trim(l), c),
    decreases l.len(),
{
    if l.len() > 0 {
        lemma_trim_lacks(l.drop_first(), c);
        lemma_trim_lacks(l.drop_last(), c);
        lemma_trim_end_lacks(trim_start(l), c);
    }
}

/// `trim_end` keeps a missing character missing.
proof fn lemma_trim_end_lacks(l: Seq<char>, c: char)
    requires
        lacks(l, c),
    ensures
        lacks(trim_end(l), c),
    decreases l.len(),
{
    if l.len() > 0 {
        lemma_trim_end_lacks(l.drop_last(), c);
    }
}

/// What `trim_end` keeps ends in non-whitespace.
proof fn lemma_trim_end_last(t: Seq<char>)
    ensures
        trim_end(t).len() > 0 ==> !is_ws(trim_end(t).last()),
    decreases t.len(),
{
    if t.len() > 0 {
        lemma_trim_end_last(t.drop_last());
    }
}

/// `trim_end` keeps a non-whitespace first character.
proof fn lemma_trim_end_first(t: Seq<char>)
    requires
        t.len() > 0,
        !is_ws(t[0]),
    ensures
        trim_end(t).len() > 0,
        trim_end(t)[0] == t[0],
    decreases t.len(),
{
    if t.len() > 1 && is_ws(t.last()) {
        lemma_trim_end_first(t.drop_last());
    }
}

/// The non-empty lines are non-empty lines of the input.
proof fn lemma_nonempty_elems(ls: Seq<Seq<char>>)
    ensures
        forall|k: int| 0 <= k < nonempty(ls).len() ==> (#[trigger] nonempty(ls)[k]).len() > 0
            && exists|j: int| 0 <= j < ls.len() && nonempty(ls)[k] == ls[j],
    decreases ls.len(),
{
    if ls.len() > 0 {
        lemma_nonempty_elems(ls.drop_last());
        let r = nonempty(ls.drop_last());
        assert forall|k: int| 0 <= k < nonempty(ls).len() implies (#[trigger] nonempty(ls)[k]).len() > 0
            && exists|j: int| 0 <= j < ls.len() && nonempty(ls)[k] == ls[j] by {
            if k < r.len() {
                let j = choose|j: int| 0 <= j < ls.drop_last().len() && r[k] == ls.drop_last()[j];
                assert(nonempty(ls)[k] == r[k]);
                assert(ls.drop_last()[j] == ls[j]);
            } else {
                assert(nonempty(ls)[k] == ls.last());
                assert(ls[ls.len() - 1] == ls.last());
            }
        }
    }
}

/// The pieces of a code without `+` are good.
proof fn lemma_code_pieces(code: Seq<char>)
    requires
        lacks(code, '+'),
    ensures
        good_pieces(nonempty(trimmed_lines(code))),
{
    let sp = split_nl(code);
    let tl = trimmed_lines(code);
    lemma_split_lacks(code, '+');
    lemma_split_lacks(code, '\n');
    lemma_nonempty_elems(tl);
    let ne = nonempty(tl);
    assert forall|k: int| 0 <= k < ne.len() implies {
        &&& (#[trigger] ne[k]).len() > 0
        &&& lacks(ne[k], '+')
        &&& lacks(ne[k], '\n')
        &&& !is_ws(ne[k].last())
    } by {
        let j = choose|j: int| 0 <= j < tl.len() && ne[k] == tl[j];
        assert(tl[j] == trim(sp[j]));
        lemma_trim_lacks(sp[j], '+');
        lemma_trim_lacks(sp[j], '\n');
        lemma_trim_end_last(trim_start(sp[j]));
    }
}

/// Joining pieces that lack a character with a separator that lacks it.
proof fn lemma_join_lacks(ls: Seq<Seq<char>>, sep: Seq<char>, c: char)
    requires
        forall|k: int| 0 <= k < ls.len() ==> lacks(#[trigger] ls[k], c),
        lacks(sep, c),
    ensures
        lacks(join(ls, sep), c),
    decreases ls.len(),
{
    if ls.len() > 1 {
        lemma_join_lacks(ls.drop_last(), sep, c);
        assert(lacks(ls.last(), c)) by {
            assert(ls[ls.len() - 1] == ls.last());
        }
    } else if ls.len() == 1 {
        assert(lacks(ls[0], c));
    }
}

/// `replace` keeps a character missing that the text and the replacement lack.
proof fn lemma_replace_lacks(s: Seq<char>, pat: Seq<char>, rep: Seq<char>, c: char)
    requires
        lacks(s, c),
        lacks(rep, c),
    ensures
        lacks(replace(s, pat, rep), c),
    decreases s.len(),
{
    if s.len() > 0 {
        lemma_replace_front(s, pat, rep);
        if 0 < pat.len() <= s.len() && s.take(pat.len() as int) == pat {
            lemma_replace_lacks(s.skip(pat.len() as int), pat, rep, c);
        } else {
            lemma_replace_lacks(s.skip(1), pat, rep, c);
        }
    }
}

/// Concatenation keeps a character missing.
proof fn lemma_lacks_concat(a: Seq<char>, b: Seq<char>, c: char)
    requires
        lacks(a, c),
        lacks(b, c),
    ensures
        lacks(a + b, c),
{
    assert forall|i: int| 0 <= i < (a + b).len() implies (a + b)[i] != c by {
        if i < a.len() {
            assert((a + b)[i] == a[i]);
        } else {
            assert((a + b)[i] == b[i - a.len()]);
        }
    }
}

/// A quoted text read back by `unquote`.
proof fn lemma_unquote_quoted(s: Seq<char>)
    ensures
        unquote(quoted(s)) == s,
        quoted(s).len() >= 2,
        quoted(s)[0] == '"',
        quoted(s).last() == '"',
{
    let q = quoted(s);
    assert(q.subrange(1, q.len() - 1) =~= s);
}

/// The enable flag reads back.
proof fn lemma_enable_value(b: bool)
    ensures
        enable_value(unquote(if b { "true"@ } else { "false"@ })) == b,
{
    reveal_strlit("true");
    reveal_strlit("false");
    reveal_strlit("1");
    reveal_strlit("yes");
    reveal_strlit("on");
    if b {
        assert(unquote("true"@) == "true"@);
        assert(lower_eq("true"@, "true"@));
    } else {
        assert(unquote("false"@) == "false"@);
        assert(!lower_eq("false"@, "true"@));
        assert(!lower_eq("false"@, "1"@));
        assert(!lower_eq("false"@, "yes"@));
        assert(!lower_eq("false"@, "on"@));
    }
}

/// The format name reads back.
proof fn lemma_type_value(t: CheatType)
    ensures
        type_value(variant_name(t)) == t,
{
    reveal_strlit("Raw");
    reveal_strlit("GameSharkGba");
    reveal_strlit("ActionReplayMax");
    reveal_strlit("GameSharkGbc");
    reveal_strlit("gamesharkgba");
    reveal_strlit("gameshark_gba");
    reveal_strlit("gba");
    reveal_strlit("actionreplaymax");
    reveal_strlit("action_replay");
    reveal_strlit("ar");
    reveal_strlit("gamesharkgbc");
    reveal_strlit("gameshark_gbc");
    reveal_strlit("gbc");
    match t {
        CheatType::Raw => {
            let n = "Raw"@;
            assert(!lower_eq(n, "gba"@)) by { assert(lower_char(n[0]) != "gba"@[0]); }
            assert(!lower_eq(n, "gbc"@)) by { assert(lower_char(n[0]) != "gbc"@[0]); }
        },
        CheatType::GameSharkGba => {
            assert(lower_eq("GameSharkGba"@, "gamesharkgba"@));
        },
        CheatType::ActionReplayMax => {
            assert(lower_eq("ActionReplayMax"@, "actionreplaymax"@));
        },
        CheatType::GameSharkGbc => {
            let n = "GameSharkGbc"@;
            assert(!lower_eq(n, "gamesharkgba"@)) by { assert(lower_char(n[11]) != "gamesharkgba"@[11]); }
            assert(lower_eq(n, "gamesharkgbc"@));
        },
    }
}

/// The description line reads back the description.
proof fn lemma_desc_line(k: nat, e: EntryView)
    requires
        k <= usize::MAX,
    ensures
        line_assign(trim(cht_block_lines(k, e)[0])) == Some((k, FieldView::Desc(e.desc))),
{
    reveal_strlit("desc");
    let esc = replace(e.desc, "\""@, "\\\""@);
    lemma_unquote_quoted(esc);
    lemma_field_line(k, "desc"@, quoted(esc));
    lemma_unescape_escape(e.desc);
}

/// The code line reads back the code's lines joined by newlines.
proof fn lemma_code_line(k: nat, e: EntryView)
    requires
        k <= usize::MAX,
        lacks(e.code, '+'),
    ensures
        line_assign(trim(cht_block_lines(k, e)[1])) == Some((k, FieldView::Code(code_lines_joined(e.code, "\n"@)))),
{
    reveal_strlit("desc");
    reveal_strlit("code");
    let joined = code_lines_joined(e.code, " + "@);
    lemma_unquote_quoted(joined);
    lemma_field_line(k, "code"@, quoted(joined));
    lemma_code_pieces(e.code);
    lemma_join_replace(nonempty(trimmed_lines(e.code)));
    assert("code"@ != "desc"@) by { assert("code"@[0] != "desc"@[0]); }
}

/// The enable line reads back the flag.
proof fn lemma_enable_line(k: nat, e: EntryView)
    requires
        k <= usize::MAX,
    ensures
        line_assign(trim(cht_block_lines(k, e)[2])) == Some((k, FieldView::Enable(e.enabled))),
{
    reveal_strlit("desc");
    reveal_strlit("code");
    reveal_strlit("enable");
    reveal_strlit("true");
    reveal_strlit("false");
    let flag = if e.enabled { "true"@ } else { "false"@ };
    lemma_field_line(k, "enable"@, flag);
    lemma_enable_value(e.enabled);
    assert("enable"@ != "desc"@) by { assert("enable"@[0] != "desc"@[0]); }
    assert("enable"@ != "code"@) by { assert("enable"@[0] != "code"@[0]); }
}

/// The type line reads back the format.
proof fn lemma_type_line(k: nat, e: EntryView)
    requires
        k <= usize::MAX,
    ensures
        line_assign(trim(cht_block_lines(k, e)[3])) == Some((k, FieldView::Kind(e.cheat_type))),
{
    reveal_strlit("desc");
    reveal_strlit("code");
    reveal_strlit("enable");
    reveal_strlit("type");
    let name = variant_name(e.cheat_type);
    lemma_unquote_quoted(name);
    lemma_field_line(k, "type"@, quoted(name));
    lemma_type_value(e.cheat_type);
    assert("type"@ != "desc"@) by { assert("type"@[0] != "desc"@[0]); }
    assert("type"@ != "code"@) by { assert("type"@[0] != "code"@[0]); }
    assert("type"@ != "enable"@) by { assert("type"@[0] != "enable"@[0]); }
}

/// A field line lacks newlines when its value does.
proof fn lemma_field_line_ok(k: nat, f: Seq<char>, v: Seq<char>)
    requires
        lacks(f, '\n'),
        lacks(v, '\n'),
    ensures
        lacks(field_line(k, f, v), '\n'),
{
    reveal_strlit("cheat");
    lemma_dec_chars(k);
    lemma_lacks_concat("cheat"@, dec_chars(k), '\n');
    lemma_lacks_concat("cheat"@ + dec_chars(k), seq!['_'], '\n');
    lemma_lacks_concat("cheat"@ + dec_chars(k) + seq!['_'], f, '\n');
    lemma_lacks_concat("cheat"@ + dec_chars(k) + seq!['_'] + f, seq![' ', '=', ' '], '\n');
    lemma_lacks_concat("cheat"@ + dec_chars(k) + seq!['_'] + f + seq![' ', '=', ' '], v, '\n');
}

/// A quoted text lacks newlines when the text does.
proof fn lemma_quoted_ok(s: Seq<char>)
    requires
        lacks(s, '\n'),
    ensures
        lacks(quoted(s), '\n'),
{
    lemma_lacks_concat(seq!['"'], s, '\n');
    lemma_lacks_concat(seq!['"'] + s, seq!['"'], '\n');
}

/// The lines of an entry hold no newline.
proof fn lemma_block_lines_ok(k: nat, e: EntryView)
    requires
        lacks(e.desc, '\n'),
    ensures
        lines_ok(cht_block_lines(k, e)),
{
    reveal_strlit("desc");
    reveal_strlit("code");
    reveal_strlit("enable");
    reveal_strlit("type");
    reveal_strlit("true");
    reveal_strlit("false");
    reveal_strlit("\\\"");
    reveal_strlit(" + ");
    reveal_strlit("Raw");
    reveal_strlit("GameSharkGba");
    reveal_strlit("ActionReplayMax");
    reveal_strlit("GameSharkGbc");
    let esc = replace(e.desc, "\""@, "\\\""@);
    let pieces = nonempty(trimmed_lines(e.code));
    let joined = code_lines_joined(e.code, " + "@);
    lemma_replace_lacks(e.desc, "\""@, "\\\""@, '\n');
    lemma_split_lacks(e.code, '\n');
    lemma_nonempty_elems(trimmed_lines(e.code));
    assert forall|j: int| 0 <= j < pieces.len() implies lacks(#[trigger] pieces[j], '\n') by {
        let i = choose|i: int| 0 <= i < trimmed_lines(e.code).len() && pieces[j] == trimmed_lines(e.code)[i];
        lemma_trim_lacks(split_nl(e.code)[i], '\n');
    }
    lemma_join_lacks(pieces, " + "@, '\n');
    lemma_quoted_ok(esc);
    lemma_quoted_ok(joined);
    lemma_quoted_ok(variant_name(e.cheat_type));
    lemma_field_line_ok(k, "desc"@, quoted(esc));
    lemma_field_line_ok(k, "code"@, quoted(joined));
    lemma_field_line_ok(k, "enable"@, if e.enabled { "true"@ } else { "false"@ });
    lemma_field_line_ok(k, "type"@, quoted(variant_name(e.cheat_type)));
    let ls = cht_block_lines(k, e);
    assert forall|j: int| 0 <= j < ls.len() implies lacks(#[trigger] ls[j], '\n') by {}
}

/// The four assignments of an entry's lines.
proof fn lemma_block_assigns(k: nat, e: EntryView)
    requires
        k <= usize::MAX,
        lacks(e.desc, '\n'),
        lacks(e.code, '+'),
    ensures
        lines_ok(cht_block_lines(k, e)),
        assigns(cht_block_lines(k, e)) == seq![
            (k, FieldView::Desc(e.desc)),
            (k, FieldView::Code(code_lines_joined(e.code, "\n"@))),
            (k, FieldView::Enable(e.enabled)),
            (k, FieldView::Kind(e.cheat_type)),
        ],
{
    lemma_block_lines_ok(k, e);
    lemma_desc_line(k, e);
    lemma_code_line(k, e);
    lemma_enable_line(k, e);
    lemma_type_line(k, e);
    let ls = cht_block_lines(k, e);
    lemma_trim_id_empty();
    reveal_with_fuel(assigns, 6);
    assert(ls.drop_last() =~= seq![ls[0], ls[1], ls[2], ls[3]]);
    assert(ls.drop_last().drop_last() =~= seq![ls[0], ls[1], ls[2]]);
    assert(ls.drop_last().drop_last().drop_last() =~= seq![ls[0], ls[1]]);
    assert(ls.drop_last().drop_last().drop_last().drop_last() =~= seq![ls[0]]);
    assert(seq![ls[0]].drop_last() =~= Seq::<Seq<char>>::empty());
}

/// The empty line trims to itself.
proof fn lemma_trim_id_empty()
    ensures
        trim(Seq::<char>::empty()) == Seq::<char>::empty(),
{
}

/// Hexadecimal digits hold no newline.
proof fn lemma_hex_digits_ok(x: nat, n: nat)
    ensures
        lacks(hex_digits(x, n), '\n'),
    decreases n,
{
    if n > 0 {
        lemma_hex_digits_ok(x / 16, (n - 1) as nat);
    }
}

/// A comment line (first character `#`) assigns nothing.
proof fn lemma_comment_line(l: Seq<char>)
    requires
        l.len() > 0,
        l[0] == '#',
    ensures
        line_assign(trim(l)) is None,
{
    lemma_trim_start_id(l);
    lemma_trim_end_first(l);
}

/// The header lines hold no newline and assign nothing.
proof fn lemma_header(v: GameCheatsView)
    requires
        lacks(v.game_title, '\n'),
    ensures
        lines_ok(cht_header_lines(v)),
        assigns(cht_header_lines(v)) == Seq::<(nat, FieldView)>::empty(),
{
    reveal_strlit("# PixelDrive Cheat File: ");
    reveal_strlit("# ROM CRC32: ");
    reveal_strlit("cheats = ");
    reveal_strlit("cheats");
    let ls = cht_header_lines(v);
    let d = dec_chars(v.entries.len());
    lemma_dec_chars(v.entries.len());
    lemma_hex_digits_ok(v.rom_crc32 as nat, 8);
    lemma_lacks_concat("# PixelDrive Cheat File: "@, v.game_title, '\n');
    lemma_lacks_concat("# ROM CRC32: "@, hex8(v.rom_crc32), '\n');
    lemma_lacks_concat("cheats = "@, d, '\n');
    assert forall|j: int| 0 <= j < ls.len() implies lacks(#[trigger] ls[j], '\n') by {}
    lemma_comment_line(ls[0]);
    lemma_comment_line(ls[1]);
    lemma_trim_id_empty();
    // the count line
    let l = ls[3];
    assert(l[0] == 'c');
    assert(l.last() == d.last());
    lemma_trim_id(l);
    assert forall|j: int| 0 <= j < 7 implies l[j] != '=' by {}
    lemma_first_index(l, '=', 7);
    assert(l.take(7) =~= "cheats"@.push(' '));
    lemma_trim_space_suffix("cheats"@);
    assert(line_assign(trim(l)) is None);
    reveal_with_fuel(assigns, 6);
    assert(ls.drop_last() =~= seq![ls[0], ls[1], ls[2], ls[3]]);
    assert(ls.drop_last().drop_last() =~= seq![ls[0], ls[1], ls[2]]);
    assert(ls.drop_last().drop_last().drop_last() =~= seq![ls[0], ls[1]]);
    assert(ls.drop_last().drop_last().drop_last().drop_last() =~= seq![ls[0]]);
    assert(seq![ls[0]].drop_last() =~= Seq::<Seq<char>>::empty());
}

/// Entries whose descriptions hold no newline and whose codes hold no `+`.
pub open spec fn clean_entries(es: Seq<EntryView>) -> bool {
    forall|k: int| 0 <= k < es.len() ==> lacks((#[trigger] es[k]).desc, '\n') && lacks(es[k].code, '+')
}

/// The lines of all entries, in order.
pub open spec fn all_block_lines(es: Seq<EntryView>) -> Seq<Seq<char>>
    decreases es.len(),
{
    if es.len() == 0 {
        Seq::empty()
    } else {
        all_block_lines(es.drop_last()) + cht_block_lines((es.len() - 1) as nat, es.last())
    }
}

/// The assignment of field `kind` (0 description, 1 code, 2 flag, 3 format) of entry `e`
/// as it reads back.
pub open spec fn field_of(e: EntryView, kind: int) -> FieldView {
    if kind == 0 {
        FieldView::Desc(e.desc)
    } else if kind == 1 {
        FieldView::Code(code_lines_joined(e.code, "\n"@))
    } else if kind == 2 {
        FieldView::Enable(e.enabled)
    } else {
        FieldView::Kind(e.cheat_type)
    }
}

/// The four assignments of entry `k`.
pub open spec fn block_assigns(k: nat, e: EntryView) -> Seq<(nat, FieldView)> {
    seq![(k, field_of(e, 0)), (k, field_of(e, 1)), (k, field_of(e, 2)), (k, field_of(e, 3))]
}

/// The assignments of all entries, in order.
pub open spec fn entry_assigns(es: Seq<EntryView>) -> Seq<(nat, FieldView)>
    decreases es.len(),
{
    if es.len() == 0 {
        Seq::empty()
    } else {
        entry_assigns(es.drop_last()) + block_assigns((es.len() - 1) as nat, es.last())
    }
}

/// Every line of a concatenation is fine when the lines of both parts are.
proof fn lemma_lines_ok_concat(x: Seq<Seq<char>>, y: Seq<Seq<char>>)
    requires
        lines_ok(x),
        lines_ok(y),
    ensures
        lines_ok(x + y),
{
    assert forall|k: int| 0 <= k < (x + y).len() implies lacks(#[trigger] (x + y)[k], '\n') by {
        if k < x.len() {
            assert((x + y)[k] == x[k]);
        } else {
            assert((x + y)[k] == y[k - x.len()]);
        }
    }
}

/// The entries' text is their lines, which hold no newline and assign their fields.
proof fn lemma_blocks(es: Seq<EntryView>)
    requires
        clean_entries(es),
        es.len() <= usize::MAX,
    ensures
        cht_blocks(es) == join_lines(all_block_lines(es)),
        lines_ok(all_block_lines(es)),
        assigns(all_block_lines(es)) == entry_assigns(es),
    decreases es.len(),
{
    if es.len() > 0 {
        let u = es.drop_last();
        let k = (es.len() - 1) as nat;
        assert(clean_entries(u)) by {
            assert forall|j: int| 0 <= j < u.len() implies lacks((#[trigger] u[j]).desc, '\n') && lacks(u[j].code, '+') by {
                assert(u[j] == es[j]);
            }
        }
        lemma_blocks(u);
        assert(es.last() == es[es.len() - 1]);
        lemma_block_assigns(k, es.last());
        lemma_join_lines_concat(all_block_lines(u), cht_block_lines(k, es.last()));
        lemma_lines_ok_concat(all_block_lines(u), cht_block_lines(k, es.last()));
        lemma_assigns_concat(all_block_lines(u), cht_block_lines(k, es.last()));
        assert(block_assigns(k, es.last()) =~= seq![
            (k, FieldView::Desc(es.last().desc)),
            (k, FieldView::Code(code_lines_joined(es.last().code, "\n"@))),
            (k, FieldView::Enable(es.last().enabled)),
            (k, FieldView::Kind(es.last().cheat_type)),
        ]);
    } else {
        assert(cht_blocks(es) =~= join_lines(all_block_lines(es)));
    }
}

/// The lines of a written `.cht` text assign exactly the entries' fields.
proof fn lemma_text_assigns(v: GameCheatsView)
    requires
        lacks(v.game_title, '\n'),
        clean_entries(v.entries),
        v.entries.len() <= usize::MAX,
    ensures
        assigns(split_nl(cht_text(v))) == entry_assigns(v.entries),
{
    let h = cht_header_lines(v);
    let b = all_block_lines(v.entries);
    lemma_header(v);
    lemma_blocks(v.entries);
    lemma_join_lines_concat(h, b);
    lemma_lines_ok_concat(h, b);
    assert(cht_text(v) == join_lines(h + b));
    lemma_split_join_lines(h + b, Seq::empty());
    assert(join_lines(h + b) + Seq::<char>::empty() =~= join_lines(h + b));
    assert(split_nl(Seq::<char>::empty()) == seq![Seq::<char>::empty()]);
    lemma_assigns_concat(h, b);
    lemma_assigns_concat(h + b, seq![Seq::<char>::empty()]);
    lemma_trim_id_empty();
    assert(seq![Seq::<char>::empty()].drop_last() =~= Seq::<Seq<char>>::empty());
    assert(seq![Seq::<char>::empty()].last() == Seq::<char>::empty());
    assert(line_assign(trim(Seq::<char>::empty())) is None);
    assert(assigns(seq![Seq::<char>::empty()]) =~= Seq::<(nat, FieldView)>::empty()) by {
        reveal_with_fuel(assigns, 2);
    }
    assert(entry_assigns(v.entries) + Seq::<(nat, FieldView)>::empty() =~= entry_assigns(v.entries));
    assert(Seq::<(nat, FieldView)>::empty() + entry_assigns(v.entries) =~= entry_assigns(v.entries));
}

/// The kind number of a read-back field.
proof fn lemma_field_of_kind(e: EntryView, kind: int)
    requires
        0 <= kind <= 3,
    ensures
        crate::cheats::cht::field_kind(field_of(e, kind)) == kind,
{
}

/// `last_field` of a concatenation looks in the second part first.
proof fn lemma_last_field_concat(x: Seq<(nat, FieldView)>, y: Seq<(nat, FieldView)>, idx: nat, kind: int)
    ensures
        last_field(x + y, idx, kind) == match last_field(y, idx, kind) {
            Some(f) => Some(f),
            None => last_field(x, idx, kind),
        },
    decreases y.len(),
{
    if y.len() == 0 {
        assert(x + y =~= x);
    } else {
        lemma_last_field_concat(x, y.drop_last(), idx, kind);
        assert((x + y).drop_last() =~= x + y.drop_last());
        assert((x + y).last() == y.last());
    }
}

/// The assignments of one entry: the field of each kind is found for its own index only.
proof fn lemma_block_last_field(k: nat, e: EntryView, idx: nat, kind: int)
    requires
        0 <= kind <= 3,
    ensures
        last_field(block_assigns(k, e), idx, kind) == if idx == k { Some(field_of(e, kind)) } else { None::<FieldView> },
{
    let b = block_assigns(k, e);
    reveal_with_fuel(last_field, 5);
    assert(b.drop_last() =~= seq![b[0], b[1], b[2]]);
    assert(b.drop_last().drop_last() =~= seq![b[0], b[1]]);
    assert(b.drop_last().drop_last().drop_last() =~= seq![b[0]]);
    assert(seq![b[0]].drop_last() =~= Seq::<(nat, FieldView)>::empty());
    lemma_field_of_kind(e, 0);
    lemma_field_of_kind(e, 1);
    lemma_field_of_kind(e, 2);
    lemma_field_of_kind(e, 3);
}

/// Each field of entry `idx` reads back from the assignments of all entries.
proof fn lemma_entry_last_field(es: Seq<EntryView>, idx: nat, kind: int)
    requires
        idx < es.len(),
        0 <= kind <= 3,
    ensures
        last_field(entry_assigns(es), idx, kind) == Some(field_of(es[idx as int], kind)),
    decreases es.len(),
{
    let u = es.drop_last();
    let k = (es.len() - 1) as nat;
    lemma_last_field_concat(entry_assigns(u), block_assigns(k, es.last()), idx, kind);
    lemma_block_last_field(k, es.last(), idx, kind);
    if idx < k {
        lemma_entry_last_field(u, idx, kind);
        assert(u[idx as int] == es[idx as int]);
    } else {
        assert(es.last() == es[idx as int]);
    }
}

/// The largest index assigned is that of the last entry.
proof fn lemma_entry_max_index(es: Seq<EntryView>)
    ensures
        es.len() == 0 ==> max_index(entry_assigns(es)) is None,
        es.len() > 0 ==> max_index(entry_assigns(es)) == Some((es.len() - 1) as nat),
    decreases es.len(),
{
    if es.len() > 0 {
        let u = es.drop_last();
        let k = (es.len() - 1) as nat;
        lemma_entry_max_index(u);
        let x = entry_assigns(u);
        let b = block_assigns(k, es.last());
        let a = x + b;
        reveal_with_fuel(max_index, 5);
        assert(a.drop_last() =~= x + seq![b[0], b[1], b[2]]);
        assert(a.drop_last().drop_last() =~= x + seq![b[0], b[1]]);
        assert(a.drop_last().drop_last().drop_last() =~= x + seq![b[0]]);
        assert(a.drop_last().drop_last().drop_last().drop_last() =~= x);
        assert((x + seq![b[0]]).last() == b[0]);
        assert((x + seq![b[0], b[1]]).last() == b[1]);
        assert((x + seq![b[0], b[1], b[2]]).last() == b[2]);
        assert(a.last() == b[3]);
    } else {
        assert(entry_assigns(es) == Seq::<(nat, FieldView)>::empty());
    }
}

/// The entry that reads back at index `k`.
pub open spec fn expected_entry(es: Seq<EntryView>, k: int) -> ParsedEntry {
    ParsedEntry {
        idx: k as nat,
        desc: es[k].desc,
        code: code_lines_joined(es[k].code, "\n"@),
        enabled: es[k].enabled,
        cheat_type: es[k].cheat_type,
    }
}

/// The entries below `m` read back in order.
proof fn lemma_entries_below(es: Seq<EntryView>, m: nat)
    requires
        m <= es.len(),
    ensures
        entries_below(entry_assigns(es), m) == Seq::new(m, |k: int| expected_entry(es, k)),
    decreases m,
{
    let a = entry_assigns(es);
    if m > 0 {
        let i = (m - 1) as nat;
        lemma_entries_below(es, i);
        lemma_entry_last_field(es, i, 0);
        lemma_entry_last_field(es, i, 1);
        lemma_entry_last_field(es, i, 2);
        lemma_entry_last_field(es, i, 3);
        assert(entry_at(a, i) == Some(expected_entry(es, i as int)));
        assert(Seq::new(i, |k: int| expected_entry(es, k)).push(expected_entry(es, i as int))
            =~= Seq::new(m, |k: int| expected_entry(es, k)));
    } else {
        assert(entries_below(a, 0) =~= Seq::new(0, |k: int| expected_entry(es, k)));
    }
}

/// Writing a cheat list as `.cht` text and reading it back gives its entries, in order,
/// each with its description, flag and format, and its code as its non-empty trimmed lines
/// joined by newlines, when the title and descriptions hold no newline and the codes no `+`.
pub proof fn law_cht_round_trip(v: GameCheatsView)
    requires
        lacks(v.game_title, '\n'),
        clean_entries(v.entries),
        v.entries.len() <= usize::MAX,
    ensures
        parsed_entries(cht_text(v)) == Seq::new(v.entries.len(), |k: int| expected_entry(v.entries, k)),
{
    lemma_text_assigns(v);
    lemma_entry_max_index(v.entries);
    lemma_entries_below(v.entries, v.entries.len());
    if v.entries.len() == 0 {
        assert(Seq::new(0, |k: int| expected_entry(v.entries, k)) =~= Seq::<ParsedEntry>::empty());
    }
}

} // verus!
