//! Hyprland binds tab — the parser behind the read-only keybind list.
//!
//! Each `*.lua` module under `~/.config/hypr/modules/` contributes a group
//! named by an optional metadata comment — `-- # group = "Apps"` — falling
//! back to `"Custom"`. The parser is a targeted line scan for `hl.bind(...)`,
//! not a Lua AST; the `mainMod` variable is tracked so `mainMod .. " + L"`
//! renders as `SUPER + L`. Finding and reading the module files is done by
//! the caller.

use std::path::PathBuf;

use vstd::prelude::*;

use crate::text::{
    self, find_seq, has_prefix, lemma_find_from_range, lemma_rfind_char_range,
    rfind_char, tail, trim_seq, trim_start_seq,
};

verus! {

/// One parsed bind row. `source`/`path` identify the file it came from.
#[derive(Debug, Clone, PartialEq, Eq)]
pub struct BindRow {
    /// Resolved modifier+key, e.g. `SUPER + L` or `XF86AudioLowerVolume`.
    pub keys: String,
    /// Action expression (first line only on multi-line binds).
    pub action: String,
    /// 1-based line in the source file.
    pub line: usize,
    /// Group label from the module's metadata comment, or `"Custom"`.
    pub source: String,
    /// Path of the source file (for click-to-open).
    pub path: PathBuf,
}

// --- Lines -------------------------------------------------------------------

/// Pieces of `s` between `\n` characters (one more than there are `\n`).
pub open spec fn split_nl(s: Seq<char>) -> Seq<Seq<char>>
    decreases s.len(),
{
    if s.len() == 0 {
        seq![Seq::empty()]
    } else {
        let p = split_nl(s.drop_last());
        if s.last() == '\n' {
            p.push(Seq::empty())
        } else {
            p.update(p.len() - 1, p.last().push(s.last()))
        }
    }
}

/// A line without its `\r` of a `\r\n` ending.
pub open spec fn strip_cr(l: Seq<char>) -> Seq<char> {
    if l.len() > 0 && l.last() == '\r' {
        l.drop_last()
    } else {
        l
    }
}

/// `str::lines`: pieces between `\n`, without a final empty piece; a piece
/// that a `\n` ended loses a trailing `\r`.
pub open spec fn lines_of(s: Seq<char>) -> Seq<Seq<char>> {
    let p = split_nl(s);
    let ended = p.drop_last().map_values(|l: Seq<char>| strip_cr(l));
    if p.last().len() == 0 {
        ended
    } else {
        ended.push(p.last())
    }
}

/// Views of a sequence of character buffers.
pub open spec fn buf_views(v: Seq<Vec<char>>) -> Seq<Seq<char>> {
    v.map_values(|b: Vec<char>| b@)
}

/// Splitting at newlines yields at least one line.
pub proof fn lemma_split_nl_len(s: Seq<char>)
    ensures
        split_nl(s).len() >= 1,
    decreases s.len(),
{
    if s.len() > 0 {
        lemma_split_nl_len(s.drop_last());
    }
}

fn strip_cr_exec(l: &Vec<char>) -> (r: Vec<char>)
    ensures
        r@ == strip_cr(l@),
{
    if l.len() > 0 && l[l.len() - 1] == '\r' {
        text::slice(l, 0, l.len() - 1)
    } else {
        text::slice(l, 0, l.len())
    }
}

/// The lines of a text (`str::lines`).
fn lines(s: &Vec<char>) -> (r: Vec<Vec<char>>)
    ensures
        buf_views(r@) == lines_of(s@),
{
    let mut done: Vec<Vec<char>> = Vec::new();
    let mut cur: Vec<char> = Vec::new();
    let mut i: usize = 0;
    while i < s.len()
        invariant
            i <= s.len(),
            split_nl(s@.take(i as int)).len() >= 1,
            buf_views(done@) == split_nl(s@.take(i as int)).drop_last().map_values(
                |l: Seq<char>| strip_cr(l),
            ),
            cur@ == split_nl(s@.take(i as int)).last(),
        decreases s.len() - i,
    {
        let ghost before = split_nl(s@.take(i as int));
        assert(s@.take(i + 1).drop_last() =~= s@.take(i as int));
        proof {
            lemma_split_nl_len(s@.take(i as int));
        }
        if s[i] == '\n' {
            let l = strip_cr_exec(&cur);
            let ghost old_done = done@;
            done.push(l);
            cur = Vec::new();
            assert(split_nl(s@.take(i + 1)) == before.push(Seq::empty()));
            assert(split_nl(s@.take(i + 1)).drop_last() =~= before);
            assert(buf_views(done@) =~= buf_views(old_done).push(strip_cr(before.last())));
            assert(before.map_values(|l: Seq<char>| strip_cr(l)) =~= before.drop_last().map_values(
                |l: Seq<char>| strip_cr(l),
            ).push(strip_cr(before.last())));
        } else {
            cur.push(s[i]);
            let ghost after = split_nl(s@.take(i + 1));
            assert(after == before.update(before.len() - 1, before.last().push(s@[i as int])));
            assert(after.drop_last() =~= before.drop_last());
        }
        i = i + 1;
    }
    assert(s@.take(s.len() as int) =~= s@);
    let ghost p = split_nl(s@);
    if cur.len() > 0 {
        let ghost old_done = done@;
        done.push(cur);
        assert(buf_views(done@) =~= buf_views(old_done).push(p.last()));
    }
    done
}

// --- Pieces ------------------------------------------------------------------

/// A double-quoted Lua string literal at the start of `s` after trimming
/// (no escapes): the text up to the next `"`.
pub open spec fn quoted_spec(s: Seq<char>) -> Option<Seq<char>> {
    let t = trim_seq(s);
    if t.len() > 0 && t[0] == '"' {
        let inner = t.drop_first();
        let e = find_seq(inner, seq!['"']);
        if e >= 0 {
            Some(inner.take(e))
        } else {
            None
        }
    } else {
        None
    }
}

/// A line whose first non-blank characters are `--`.
pub open spec fn is_comment(l: Seq<char>) -> bool {
    has_prefix(trim_start_seq(l), "--"@)
}

/// The `mainMod` value a line assigns: `mainMod = "SUPER"` or
/// `local mainMod = mainMod or "SUPER"`.
pub open spec fn main_mod_of(line: Seq<char>) -> Option<Seq<char>> {
    let t = trim_seq(line);
    if !(has_prefix(t, "mainMod"@) || has_prefix(t, "local mainMod"@)) {
        None
    } else {
        let a = find_seq(t, seq!['=']);
        if a < 0 {
            None
        } else {
            let rhs = trim_seq(tail(t, a + 1));
            let after_name = trim_seq(tail(rhs, 7));
            let value = if has_prefix(rhs, "mainMod"@) && has_prefix(after_name, "or"@) {
                trim_seq(tail(after_name, 2))
            } else {
                rhs
            };
            quoted_spec(value)
        }
    }
}

/// ASCII letters, digits and `_`.
pub open spec fn is_ident_char(c: char) -> bool {
    text::is_ascii_upper(c) || text::is_ascii_lower(c) || text::is_ascii_digit(c) || c == '_'
}

/// Length of the identifier at the start of `t`.
pub open spec fn ident_len(t: Seq<char>) -> nat
    decreases t.len(),
{
    if t.len() > 0 && is_ident_char(t[0]) {
        1 + ident_len(t.drop_first())
    } else {
        0
    }
}

/// The key argument as displayed: a `"literal"`, a bare identifier
/// (`mainMod` reads as its value, `SUPER` when unset), or
/// `ident .. "suffix"` concatenated.
pub open spec fn resolve_keys_spec(key_text: Seq<char>, main_mod: Option<Seq<char>>) -> Option<
    Seq<char>,
> {
    let t = trim_seq(key_text);
    if t.len() == 0 {
        None
    } else if quoted_spec(t) is Some {
        quoted_spec(t)
    } else {
        let n = ident_len(t);
        if n == 0 {
            None
        } else {
            let ident = t.take(n as int);
            let base = if ident == "mainMod"@ {
                match main_mod {
                    Some(m) => m,
                    None => "SUPER"@,
                }
            } else {
                ident
            };
            let rest = trim_seq(tail(t, n as int));
            let suffix = quoted_spec(trim_seq(tail(rest, 2)));
            if has_prefix(rest, ".."@) && suffix is Some {
                Some(base + suffix->0)
            } else {
                Some(base)
            }
        }
    }
}

/// `(keys, action)` of an `hl.bind(` slice: the key argument up to the
/// first comma, and the action up to the rightmost `)` with any `--`
/// comment cut off; `None` when either is missing.
pub open spec fn bind_line_spec(text: Seq<char>, main_mod: Option<Seq<char>>) -> Option<
    (Seq<char>, Seq<char>),
> {
    if !has_prefix(text, "hl.bind("@) {
        None
    } else {
        let body = trim_start_seq(tail(text, 8));
        let c = find_seq(body, seq![',']);
        if c < 0 {
            None
        } else {
            let key_text = trim_seq(body.take(c));
            let rest = tail(body, c + 1);
            match resolve_keys_spec(key_text, main_mod) {
                None => None,
                Some(keys) => {
                    let e = rfind_char(rest, ')');
                    let end = if e >= 0 {
                        e
                    } else {
                        rest.len() as int
                    };
                    let a0 = trim_seq(rest.take(end));
                    let ci = find_seq(a0, "--"@);
                    let a = if ci >= 0 {
                        trim_seq(a0.take(ci))
                    } else {
                        a0
                    };
                    if a.len() == 0 {
                        None
                    } else {
                        Some((keys, a))
                    }
                },
            }
        }
    }
}

/// The `mainMod` value in force after the first `k` lines.
pub open spec fn main_mod_after(lines: Seq<Seq<char>>, k: int) -> Option<Seq<char>>
    decreases k,
{
    if k <= 0 {
        None
    } else {
        let prev = main_mod_after(lines, k - 1);
        let l = lines[k - 1];
        if is_comment(l) {
            prev
        } else {
            match main_mod_of(l) {
                Some(m) => Some(m),
                None => prev,
            }
        }
    }
}

/// `(keys, action, line number)` of the binds in the first `k` lines.
pub open spec fn bind_rows(lines: Seq<Seq<char>>, k: int) -> Seq<(Seq<char>, Seq<char>, int)>
    decreases k,
{
    if k <= 0 {
        Seq::empty()
    } else {
        let prev = bind_rows(lines, k - 1);
        let l = lines[k - 1];
        let p = find_seq(l, "hl.bind("@);
        if is_comment(l) || p < 0 {
            prev
        } else {
            match bind_line_spec(tail(l, p), main_mod_after(lines, k)) {
                Some(kv) => prev.push((kv.0, kv.1, k)),
                None => prev,
            }
        }
    }
}

/// The group label of a module: the first `--` comment line holding
/// `group =` followed by a quoted label, from line `k` on; `"Custom"`
/// otherwise.
pub open spec fn group_from(lines: Seq<Seq<char>>, k: int) -> Seq<char>
    decreases lines.len() - k,
{
    if k < 0 || k >= lines.len() {
        "Custom"@
    } else {
        let t = trim_start_seq(lines[k]);
        let eq = find_seq(t, "group ="@);
        if has_prefix(t, "--"@) && eq >= 0 && quoted_spec(tail(t, eq + 7)) is Some {
            quoted_spec(tail(t, eq + 7))->0
        } else {
            group_from(lines, k + 1)
        }
    }
}

/// Bind rows come in source order, one per line at most, each with a
/// non-empty action and a line number within the scanned lines.
pub proof fn lemma_bind_rows_ordered(lines: Seq<Seq<char>>, k: int)
    ensures
        forall|i: int|
            0 <= i < bind_rows(lines, k).len() ==> 1 <= (#[trigger] bind_rows(lines, k)[i]).2 <= k
                && bind_rows(lines, k)[i].1.len() > 0,
        forall|i: int, j: int|
            0 <= i < j < bind_rows(lines, k).len() ==> (#[trigger] bind_rows(lines, k)[i]).2 < (
            #[trigger] bind_rows(lines, k)[j]).2,
    decreases k,
{
    if k > 0 {
        lemma_bind_rows_ordered(lines, k - 1);
        let prev = bind_rows(lines, k - 1);
        let cur = bind_rows(lines, k);
        let l = lines[k - 1];
        let p = find_seq(l, "hl.bind("@);
        if !(is_comment(l) || p < 0) {
            match bind_line_spec(tail(l, p), main_mod_after(lines, k)) {
                Some(kv) => {
                    assert(cur == prev.push((kv.0, kv.1, k)));
                    assert forall|i: int| 0 <= i < cur.len() implies 1 <= (#[trigger] cur[i]).2 <= k
                        && cur[i].1.len() > 0 by {
                        if i < prev.len() {
                            assert(cur[i] == prev[i]);
                        }
                    }
                    assert forall|i: int, j: int| 0 <= i < j < cur.len() implies (#[trigger] cur[i]).2 < (
                    #[trigger] cur[j]).2 by {
                        assert(cur[i] == prev[i]);
                        if j < prev.len() {
                            assert(cur[j] == prev[j]);
                        }
                    }
                },
                None => {},
            }
        }
    }
}

// --- Executable parser --------------------------------------------------------

/// Read a double-quoted string literal at the start of `s` (no escapes).
fn quoted(s: &Vec<char>) -> (r: Option<Vec<char>>)
    ensures
        match r {
            Some(v) => quoted_spec(s@) == Some(v@),
            None => quoted_spec(s@) is None,
        },
{
    let t = text::trim(s);
    if t.len() == 0 || t[0] != '"' {
        return None;
    }
    let inner = text::slice(&t, 1, t.len());
    assert(inner@ =~= t@.drop_first());
    let q = vec!['"'];
    assert(q@ =~= seq!['"']);
    match text::find_pat(&inner, &q, 0) {
        Some(e) => {
            proof {
                lemma_find_from_range(inner@, q@, 0);
            }
            let v = text::slice(&inner, 0, e);
            assert(v@ =~= inner@.take(e as int));
            Some(v)
        },
        None => None,
    }
}

/// Extract the `mainMod` value a line assigns, if any.
fn parse_main_mod(line: &Vec<char>) -> (r: Option<Vec<char>>)
    ensures
        match r {
            Some(v) => main_mod_of(line@) == Some(v@),
            None => main_mod_of(line@) is None,
        },
{
    let t = text::trim(line);
    if !(text::starts_with_str(&t, "mainMod") || text::starts_with_str(&t, "local mainMod")) {
        return None;
    }
    let eqp = vec!['='];
    assert(eqp@ =~= seq!['=']);
    let after = match text::find_pat(&t, &eqp, 0) {
        Some(a) => a,
        None => {
            return None;
        },
    };
    proof {
        lemma_find_from_range(t@, eqp@, 0);
    }
    assert(after < t.len());
    let rhs = text::trim(&text::suffix_from(&t, after + 1));
    let after_name = text::trim(&text::suffix_from(&rhs, 7));
    let value = if text::starts_with_str(&rhs, "mainMod") && text::starts_with_str(&after_name, "or") {
        text::trim(&text::suffix_from(&after_name, 2))
    } else {
        rhs
    };
    quoted(&value)
}

fn is_ident(c: char) -> (r: bool)
    ensures
        r == is_ident_char(c),
{
    ('A' <= c && c <= 'Z') || ('a' <= c && c <= 'z') || ('0' <= c && c <= '9') || c == '_'
}

/// Resolve the key argument of a bind to its display string.
fn resolve_keys(key_text: &Vec<char>, main_mod: &Option<Vec<char>>) -> (r: Option<Vec<char>>)
    ensures
        match r {
            Some(v) => resolve_keys_spec(
                key_text@,
                match main_mod {
                    Some(m) => Some(m@),
                    None => None,
                },
            ) == Some(v@),
            None => resolve_keys_spec(
                key_text@,
                match main_mod {
                    Some(m) => Some(m@),
                    None => None,
                },
            ) is None,
        },
{
    let t = text::trim(key_text);
    if t.len() == 0 {
        return None;
    }
    match quoted(&t) {
        Some(lit) => {
            return Some(lit);
        },
        None => {},
    }
    let mut n: usize = 0;
    assert(t@.skip(0) =~= t@);
    while n < t.len() && is_ident(t[n])
        invariant
            n <= t.len(),
            ident_len(t@) == n + ident_len(t@.skip(n as int)),
        decreases t.len() - n,
    {
        assert(t@.skip(n as int).drop_first() =~= t@.skip(n + 1));
        n = n + 1;
    }
    assert(ident_len(t@.skip(n as int)) == 0);
    assert(tail(t@, n as int) == t@.skip(n as int));
    if n == 0 {
        return None;
    }
    let ident = text::slice(&t, 0, n);
    assert(ident@ =~= t@.take(n as int));
    let base = if text::eq_str(&ident, "mainMod") {
        match main_mod {
            Some(m) => text::slice(m, 0, m.len()),
            None => text::chars_of("SUPER"),
        }
    } else {
        ident
    };
    proof {
        match main_mod {
            Some(m) => {
                assert(m@.subrange(0, m@.len() as int) =~= m@);
            },
            None => {},
        }
    }
    let rest = text::trim(&text::suffix_from(&t, n));
    let suffix = quoted(&text::trim(&text::suffix_from(&rest, 2)));
    if text::starts_with_str(&rest, "..") {
        match suffix {
            Some(s) => {
                let mut out = base;
                text::extend(&mut out, &s);
                return Some(out);
            },
            None => {},
        }
    }
    Some(base)
}

/// Parse one `hl.bind(` slice into `(keys, action)`.
fn parse_bind_line(text: &Vec<char>, main_mod: &Option<Vec<char>>) -> (r: Option<
    (Vec<char>, Vec<char>),
>)
    ensures
        match r {
            Some(kv) => bind_line_spec(
                text@,
                match main_mod {
                    Some(m) => Some(m@),
                    None => None,
                },
            ) == Some((kv.0@, kv.1@)),
            None => bind_line_spec(
                text@,
                match main_mod {
                    Some(m) => Some(m@),
                    None => None,
                },
            ) is None,
        },
{
    if !text::starts_with_str(text, "hl.bind(") {
        return None;
    }
    let body = text::trim_start(&text::suffix_from(text, 8));
    let comma_pat = vec![','];
    assert(comma_pat@ =~= seq![',']);
    let comma = match text::find_pat(&body, &comma_pat, 0) {
        Some(c) => c,
        None => {
            return None;
        },
    };
    proof {
        lemma_find_from_range(body@, comma_pat@, 0);
    }
    let key_text = text::trim(&text::slice(&body, 0, comma));
    assert(body@.subrange(0, comma as int) =~= body@.take(comma as int));
    let rest = text::suffix_from(&body, comma + 1);
    let keys = match resolve_keys(&key_text, main_mod) {
        Some(k) => k,
        None => {
            return None;
        },
    };
    proof {
        lemma_rfind_char_range(rest@, ')');
    }
    let end = match text::rfind(&rest, ')') {
        Some(e) => e,
        None => rest.len(),
    };
    let a0 = text::trim(&text::slice(&rest, 0, end));
    assert(rest@.subrange(0, end as int) =~= rest@.take(end as int));
    let action = match text::find_str(&a0, "--") {
        Some(ci) => {
            proof {
                lemma_find_from_range(a0@, "--"@, 0);
            }
            let a = text::trim(&text::slice(&a0, 0, ci));
            assert(a0@.subrange(0, ci as int) =~= a0@.take(ci as int));
            a
        },
        None => a0,
    };
    if action.len() == 0 {
        return None;
    }
    Some((keys, action))
}

/// Does the line start (after blanks) with `--`?
fn comment_line(l: &Vec<char>) -> (r: bool)
    ensures
        r == is_comment(l@),
{
    let t = text::trim_start(l);
    text::starts_with_str(&t, "--")
}

/// Parse every `hl.bind(...)` in a Lua source, tracking the `mainMod` value.
pub fn parse_binds(source: &str, label: &str, path: &PathBuf) -> (r: Vec<BindRow>)
    ensures
        r@.len() == bind_rows(lines_of(source@), lines_of(source@).len() as int).len(),
        forall|i: int|
            0 <= i < r@.len() ==> {
                let row = bind_rows(lines_of(source@), lines_of(source@).len() as int)[i];
                &&& (#[trigger] r@[i]).keys@ == row.0
                &&& r@[i].action@ == row.1
                &&& r@[i].line as int == row.2
                &&& r@[i].source@ == label@
                &&& r@[i].path == *path
            },
{
    let src = text::chars_of(source);
    let ls = lines(&src);
    let ghost lv = lines_of(source@);
    let mut main_mod: Option<Vec<char>> = None;
    let mut out: Vec<BindRow> = Vec::new();
    let hl = text::chars_of("hl.bind(");
    let mut ix: usize = 0;
    while ix < ls.len()
        invariant
            ix <= ls.len(),
            lv == buf_views(ls@),
            hl@ == "hl.bind("@,
            match main_mod {
                Some(m) => main_mod_after(lv, ix as int) == Some(m@),
                None => main_mod_after(lv, ix as int) is None,
            },
            out@.len() == bind_rows(lv, ix as int).len(),
            forall|i: int|
                0 <= i < out@.len() ==> {
                    let row = bind_rows(lv, ix as int)[i];
                    &&& (#[trigger] out@[i]).keys@ == row.0
                    &&& out@[i].action@ == row.1
                    &&& out@[i].line as int == row.2
                    &&& out@[i].source@ == label@
                    &&& out@[i].path == *path
                },
        decreases ls.len() - ix,
    {
        let line = &ls[ix];
        assert(line@ == lv[ix as int]);
        let lineno = ix + 1;
        if comment_line(line) {
            ix = ix + 1;
            continue;
        }
        match parse_main_mod(line) {
            Some(m) => {
                main_mod = Some(m);
            },
            None => {},
        }
        match text::find_pat(line, &hl, 0) {
            Some(pos) => {
                proof {
                    lemma_find_from_range(line@, hl@, 0);
                }
                let slice = text::suffix_from(line, pos);
                match parse_bind_line(&slice, &main_mod) {
                    Some(kv) => {
                        let (keys, action) = kv;
                        out.push(
                            BindRow {
                                keys: text::string_of(&keys),
                                action: text::string_of(&action),
                                line: lineno,
                                source: text::owned(label),
                                path: path.clone(),
                            },
                        );
                    },
                    None => {},
                }
            },
            None => {},
        }
        ix = ix + 1;
    }
    out
}

/// Resolve a module's group label from its metadata comment, or `"Custom"`.
pub fn parse_group(source: &str) -> (r: String)
    ensures
        r@ == group_from(lines_of(source@), 0),
{
    let src = text::chars_of(source);
    let ls = lines(&src);
    let ghost lv = lines_of(source@);
    let gp = text::chars_of("group =");
    proof {
        reveal_strlit("group =");
    }
    assert(gp@.len() == 7);
    let mut k: usize = 0;
    while k < ls.len()
        invariant
            k <= ls.len(),
            lv == buf_views(ls@),
            gp@ == "group ="@,
            gp@.len() == 7,
            lv == lines_of(source@),
            group_from(lv, 0) == group_from(lv, k as int),
        decreases ls.len() - k,
    {
        let t = text::trim_start(&ls[k]);
        assert(ls@[k as int]@ == lv[k as int]);
        if text::starts_with_str(&t, "--") {
            match text::find_pat(&t, &gp, 0) {
                Some(eq) => {
                    proof {
                        lemma_find_from_range(t@, gp@, 0);
                    }
                    assert(eq + 7 <= t.len());
                    match quoted(&text::suffix_from(&t, eq + 7)) {
                        Some(g) => {
                            return text::string_of(&g);
                        },
                        None => {},
                    }
                },
                None => {},
            }
        }
        k = k + 1;
    }
    text::owned("Custom")
}

proof fn lemma_split_no_newline(s: Seq<char>)
    requires
        forall|i: int| 0 <= i < s.len() ==> s[i] != '\n',
    ensures
        split_nl(s) == seq![s],
    decreases s.len(),
{
    if s.len() > 0 {
        let d = s.drop_last();
        assert forall|i: int| 0 <= i < d.len() implies d[i] != '\n' by {
            assert(d[i] == s[i]);
        }
        lemma_split_no_newline(d);
        assert(s.last() == s[s.len() - 1]);
        assert(d.push(s.last()) =~= s);
    } else {
        assert(s =~= Seq::<char>::empty());
    }
}

/// `str::lines` scans the last line even without a final newline: a
/// non-empty text holding no `\n` is exactly one line, the whole text.
pub proof fn lemma_single_line(s: Seq<char>)
    requires
        s.len() > 0,
        forall|i: int| 0 <= i < s.len() ==> s[i] != '\n',
    ensures
        lines_of(s) == seq![s],
{
    lemma_split_no_newline(s);
    assert(split_nl(s).drop_last().map_values(|l: Seq<char>| strip_cr(l)) =~= Seq::<Seq<char>>::empty());
    assert(seq![s].drop_last() =~= Seq::<Seq<char>>::empty());
    assert(Seq::<Seq<char>>::empty().push(s) =~= seq![s]);
}

/// A final newline is optional: adding one after a text that does not end
/// in `\n` or `\r` changes neither its lines nor the bind rows read from
/// them.
pub proof fn lemma_final_newline_optional(s: Seq<char>)
    requires
        s.len() > 0,
        s.last() != '\n',
        s.last() != '\r',
    ensures
        lines_of(s.push('\n')) == lines_of(s),
        bind_rows(lines_of(s.push('\n')), lines_of(s.push('\n')).len() as int) == bind_rows(
            lines_of(s),
            lines_of(s).len() as int,
        ),
{
    let t = s.push('\n');
    assert(t.drop_last() =~= s);
    lemma_split_nl_len(s);
    let p = split_nl(s);
    assert(split_nl(t) == p.push(Seq::empty()));
    let d = s.drop_last();
    lemma_split_nl_len(d);
    assert(d.push(s.last()) =~= s);
    assert(p.last() == split_nl(d).last().push(s.last()));
    assert(p.last().len() > 0);
    assert(strip_cr(p.last()) == p.last());
    assert(p.push(Seq::<char>::empty()).drop_last() =~= p);
    let m = p.map_values(|l: Seq<char>| strip_cr(l));
    assert(lines_of(t) == m);
    assert(m =~= p.drop_last().map_values(|l: Seq<char>| strip_cr(l)).push(p.last()));
}

} // verus!
