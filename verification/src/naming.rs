//! Names derived from the name a user gives a new project: the Cargo crate
//! name, the Basecamp plugin name and the human-readable title.
use vstd::prelude::*;

use crate::text::{chars_of, string_of, sub_chars};

verus! {

pub open spec fn is_ascii_alnum(c: char) -> bool {
    ('a' <= c && c <= 'z') || ('A' <= c && c <= 'Z') || ('0' <= c && c <= '9')
}

pub open spec fn ascii_lower(c: char) -> char {
    if 'A' <= c && c <= 'Z' {
        (c as int + 32) as char
    } else {
        c
    }
}

pub open spec fn ascii_upper(c: char) -> char {
    if 'a' <= c && c <= 'z' {
        (c as int - 32) as char
    } else {
        c
    }
}

pub fn is_ascii_alphanumeric(c: char) -> (b: bool)
    ensures
        b == is_ascii_alnum(c),
{
    ('a' <= c && c <= 'z') || ('A' <= c && c <= 'Z') || ('0' <= c && c <= '9')
}

pub fn to_ascii_lowercase(c: char) -> (d: char)
    ensures
        d == ascii_lower(c),
{
    if 'A' <= c && c <= 'Z' {
        ((c as u8) + 32) as char
    } else {
        c
    }
}

pub fn to_ascii_uppercase(c: char) -> (d: char)
    ensures
        d == ascii_upper(c),
{
    if 'a' <= c && c <= 'z' {
        ((c as u8) - 32) as char
    } else {
        c
    }
}

/// Each ASCII letter or digit lower-cased, every other character replaced
/// by `sep`, and each run of `sep` written once.
pub open spec fn collapse(s: Seq<char>, sep: char) -> Seq<char>
    decreases s.len(),
{
    if s.len() == 0 {
        Seq::empty()
    } else {
        let p = collapse(s.drop_last(), sep);
        let c = s.last();
        if is_ascii_alnum(c) {
            p.push(ascii_lower(c))
        } else if p.len() > 0 && p.last() == sep {
            p
        } else {
            p.push(sep)
        }
    }
}

/// `s` without leading `c`s.
pub open spec fn strip_start(s: Seq<char>, c: char) -> Seq<char>
    decreases s.len(),
{
    if s.len() > 0 && s[0] == c {
        strip_start(s.drop_first(), c)
    } else {
        s
    }
}

/// `s` without trailing `c`s.
pub open spec fn strip_end(s: Seq<char>, c: char) -> Seq<char>
    decreases s.len(),
{
    if s.len() > 0 && s.last() == c {
        strip_end(s.drop_last(), c)
    } else {
        s
    }
}

/// `s` without leading and trailing `c`s (`str::trim_matches`).
pub open spec fn strip(s: Seq<char>, c: char) -> Seq<char> {
    strip_end(strip_start(s, c), c)
}

/// A name made only of lower-case ASCII letters, digits and single
/// separators, or `fallback` when nothing is left.
pub open spec fn sanitize_name(s: Seq<char>, sep: char, fallback: Seq<char>) -> Seq<char> {
    let t = strip(collapse(s, sep), sep);
    if t.len() == 0 {
        fallback
    } else {
        t
    }
}

pub open spec fn cargo_crate_name_spec(s: Seq<char>) -> Seq<char> {
    sanitize_name(s, '-', "program_deployment"@)
}

pub open spec fn plugin_name_spec(s: Seq<char>) -> Seq<char> {
    sanitize_name(s, '_', "basecamp_app"@)
}

proof fn lemma_strip_start_skip(s: Seq<char>, c: char, i: int)
    requires
        0 <= i <= s.len(),
        forall|j: int| 0 <= j < i ==> #[trigger] s[j] == c,
    ensures
        strip_start(s, c) == strip_start(s.skip(i), c),
    decreases i,
{
    if i > 0 {
        assert(s.skip(i - 1).drop_first() =~= s.skip(i));
        assert(s.skip(i - 1)[0] == s[i - 1]);
        lemma_strip_start_skip(s, c, i - 1);
    } else {
        assert(s.skip(0) =~= s);
    }
}

proof fn lemma_strip_end_take(s: Seq<char>, c: char, k: int)
    requires
        0 <= k <= s.len(),
        forall|j: int| k <= j < s.len() ==> #[trigger] s[j] == c,
    ensures
        strip_end(s, c) == strip_end(s.take(k), c),
    decreases s.len() - k,
{
    if k < s.len() {
        assert(s.take(k + 1).drop_last() =~= s.take(k));
        assert(s.take(k + 1).last() == s[k]);
        lemma_strip_end_take(s, c, k + 1);
    } else {
        assert(s.take(k) =~= s);
    }
}

/// `v` without leading and trailing `c`s.
fn strip_chars(v: &Vec<char>, c: char) -> (r: Vec<char>)
    ensures
        r@ == strip(v@, c),
{
    let n = v.len();
    let mut i: usize = 0;
    while i < n && v[i] == c
        invariant
            n == v.len(),
            i <= n,
            forall|j: int| 0 <= j < i ==> #[trigger] v@[j] == c,
        decreases n - i,
    {
        i = i + 1;
    }
    proof {
        lemma_strip_start_skip(v@, c, i as int);
    }
    let ghost t = v@.skip(i as int);
    assert(strip_start(t, c) == t) by {
        if t.len() > 0 {
            assert(t[0] == v@[i as int]);
        }
    }
    let mut j: usize = n;
    while j > i && v[j - 1] == c
        invariant
            n == v.len(),
            i <= j <= n,
            t == v@.skip(i as int),
            forall|k: int| j <= k < n ==> #[trigger] v@[k] == c,
        decreases j,
    {
        j = j - 1;
    }
    proof {
        assert forall|k: int| (j - i) <= k < t.len() implies #[trigger] t[k] == c by {
            assert(t[k] == v@[k + i]);
        }
        lemma_strip_end_take(t, c, j - i);
        let u = t.take(j - i);
        assert(u =~= v@.subrange(i as int, j as int));
        if u.len() > 0 {
            assert(u.last() == v@[j - 1]);
        }
        assert(strip_end(u, c) == u);
    }
    sub_chars(v, i, j)
}

fn sanitize(input: &str, sep: char, fallback: &str) -> (r: String)
    requires
        sep == '-' || sep == '_',
    ensures
        r@ == sanitize_name(input@, sep, fallback@),
{
    let v = chars_of(input);
    let mut out: Vec<char> = Vec::new();
    let mut prev_sep = false;
    let mut i: usize = 0;
    while i < v.len()
        invariant
            sep == '-' || sep == '_',
            i <= v.len(),
            out@ == collapse(v@.take(i as int), sep),
            prev_sep == (out@.len() > 0 && out@.last() == sep),
        decreases v.len() - i,
    {
        let c = v[i];
        assert(v@.take(i + 1).drop_last() =~= v@.take(i as int));
        assert(v@.take(i + 1).last() == c);
        if is_ascii_alphanumeric(c) {
            let m = to_ascii_lowercase(c);
            assert(m != sep) by {
                assert(is_ascii_alnum(m));
            }
            out.push(m);
            prev_sep = false;
        } else {
            if !prev_sep {
                out.push(sep);
                prev_sep = true;
            }
        }
        i = i + 1;
    }
    assert(v@.take(v.len() as int) =~= v@);
    let t = strip_chars(&out, sep);
    if t.len() == 0 {
        fallback.to_owned()
    } else {
        string_of(&t)
    }
}

/// A Cargo crate name for a project name: ASCII letters and digits
/// lower-cased, every run of other characters turned into one `-`, no `-`
/// at either end, and `program_deployment` when nothing is left.
pub fn to_cargo_crate_name(input: &str) -> (r: String)
    ensures
        r@ == cargo_crate_name_spec(input@),
{
    sanitize(input, '-', "program_deployment")
}

/// A Basecamp plugin name for a project name: as `to_cargo_crate_name`, but
/// with `_` as the separator and `basecamp_app` when nothing is left.
pub fn to_plugin_name(input: &str) -> (r: String)
    ensures
        r@ == plugin_name_spec(input@),
{
    sanitize(input, '_', "basecamp_app")
}

/// The maximal runs of ASCII letters and digits in `s`, each with its first
/// character upper-cased and the rest lower-cased.
pub open spec fn title_words(s: Seq<char>) -> Seq<Seq<char>>
    decreases s.len(),
{
    if s.len() == 0 {
        Seq::empty()
    } else {
        let p = title_words(s.drop_last());
        let c = s.last();
        if !is_ascii_alnum(c) {
            p
        } else if s.len() >= 2 && is_ascii_alnum(s[s.len() - 2]) {
            p.update(p.len() - 1, p.last().push(ascii_lower(c)))
        } else {
            p.push(seq![ascii_upper(c)])
        }
    }
}

/// The words joined by single spaces.
pub open spec fn join_words(ws: Seq<Seq<char>>) -> Seq<char>
    decreases ws.len(),
{
    if ws.len() == 0 {
        Seq::empty()
    } else if ws.len() == 1 {
        ws[0]
    } else {
        join_words(ws.drop_last()) + seq![' '] + ws.last()
    }
}

pub open spec fn project_title_spec(s: Seq<char>) -> Seq<char> {
    let ws = title_words(s);
    if ws.len() == 0 {
        "Basecamp App"@
    } else {
        join_words(ws)
    }
}

proof fn lemma_title_words_last(s: Seq<char>)
    requires
        s.len() > 0,
        is_ascii_alnum(s.last()),
    ensures
        title_words(s).len() > 0,
    decreases s.len(),
{
    if s.len() >= 2 && is_ascii_alnum(s[s.len() - 2]) {
        assert(s.drop_last().last() == s[s.len() - 2]);
        lemma_title_words_last(s.drop_last());
    }
}

proof fn lemma_join_words_update(ws: Seq<Seq<char>>, c: char)
    requires
        ws.len() > 0,
    ensures
        join_words(ws.update(ws.len() - 1, ws.last().push(c))) == join_words(ws).push(c),
{
    let u = ws.update(ws.len() - 1, ws.last().push(c));
    if ws.len() == 1 {
        assert(u[0] == ws[0].push(c));
    } else {
        assert(u.drop_last() =~= ws.drop_last());
        assert(u.last() == ws.last().push(c));
        assert(join_words(u) == join_words(ws.drop_last()) + seq![' '] + ws.last().push(c));
        assert(join_words(ws.drop_last()) + seq![' '] + ws.last().push(c) =~= (join_words(
            ws.drop_last(),
        ) + seq![' '] + ws.last()).push(c));
    }
}

proof fn lemma_join_words_push(ws: Seq<Seq<char>>, w: Seq<char>)
    ensures
        join_words(ws.push(w)) == (if ws.len() == 0 {
            w
        } else {
            join_words(ws) + seq![' '] + w
        }),
{
    assert(ws.push(w).drop_last() =~= ws);
    if ws.len() == 0 {
        assert(ws.push(w)[0] == w);
    }
}

/// A title for a project name: its runs of ASCII letters and digits, each
/// capitalised, joined by single spaces; `Basecamp App` when there are none.
pub fn to_project_title(input: &str) -> (r: String)
    ensures
        r@ == project_title_spec(input@),
{
    let v = chars_of(input);
    let mut out = String::new();
    let mut words: usize = 0;
    let mut i: usize = 0;
    while i < v.len()
        invariant
            i <= v.len(),
            words == title_words(v@.take(i as int)).len(),
            out@ == join_words(title_words(v@.take(i as int))),
        decreases v.len() - i,
    {
        let c = v[i];
        let ghost s = v@.take(i + 1);
        let ghost p = title_words(v@.take(i as int));
        assert(s.drop_last() =~= v@.take(i as int));
        assert(s.last() == c);
        if is_ascii_alphanumeric(c) {
            let continues = i > 0 && is_ascii_alphanumeric(v[i - 1]);
            if continues {
                assert(s[s.len() - 2] == v@[i - 1]);
                assert(v@.take(i as int).last() == v@[i - 1]);
                proof {
                    lemma_title_words_last(v@.take(i as int));
                    lemma_join_words_update(p, ascii_lower(c));
                }
                out.push(to_ascii_lowercase(c));
            } else {
                proof {
                    if i > 0 {
                        assert(s[s.len() - 2] == v@[i - 1]);
                    }
                    lemma_join_words_push(p, seq![ascii_upper(c)]);
                }
                if words > 0 {
                    out.push(' ');
                }
                out.push(to_ascii_uppercase(c));
                assert(words < usize::MAX) by {
                    assert(words <= i) by {
                        lemma_title_words_len(v@.take(i as int));
                    }
                }
                words = words + 1;
                assert(out@ =~= join_words(title_words(s)));
            }
        }
        i = i + 1;
    }
    assert(v@.take(v.len() as int) =~= v@);
    if words == 0 {
        "Basecamp App".to_owned()
    } else {
        out
    }
}

proof fn lemma_title_words_len(s: Seq<char>)
    ensures
        title_words(s).len() <= s.len(),
    decreases s.len(),
{
    if s.len() > 0 {
        lemma_title_words_len(s.drop_last());
        if s.len() >= 2 && is_ascii_alnum(s[s.len() - 2]) && is_ascii_alnum(s.last()) {
            assert(s.drop_last().last() == s[s.len() - 2]);
            lemma_title_words_last(s.drop_last());
        }
    }
}

// ---------------------------------------------------------------------------
// What every derived name looks like
// ---------------------------------------------------------------------------
pub open spec fn name_char(c: char, sep: char) -> bool {
    ('a' <= c && c <= 'z') || ('0' <= c && c <= '9') || c == sep
}

/// Only lower-case ASCII letters, digits and `sep`, never two `sep` in a row.
pub open spec fn name_chars_ok(r: Seq<char>, sep: char) -> bool {
    &&& forall|i: int| 0 <= i < r.len() ==> name_char(#[trigger] r[i], sep)
    &&& forall|i: int| 0 < i < r.len() && #[trigger] r[i] == sep ==> r[i - 1] != sep
}

/// A non-empty name of lower-case ASCII letters, digits and single
/// separators that neither starts nor ends with the separator.
pub open spec fn name_shaped(r: Seq<char>, sep: char) -> bool {
    &&& r.len() > 0
    &&& name_chars_ok(r, sep)
    &&& r[0] != sep
    &&& r.last() != sep
}

proof fn lemma_ascii_lower_name_char(c: char, sep: char)
    requires
        is_ascii_alnum(c),
    ensures
        name_char(ascii_lower(c), sep),
        ascii_lower(c) != '-' && ascii_lower(c) != '_',
{
}

proof fn lemma_collapse_chars(s: Seq<char>, sep: char)
    requires
        sep == '-' || sep == '_',
    ensures
        name_chars_ok(collapse(s, sep), sep),
    decreases s.len(),
{
    if s.len() > 0 {
        lemma_collapse_chars(s.drop_last(), sep);
        let p = collapse(s.drop_last(), sep);
        let c = s.last();
        if is_ascii_alnum(c) {
            lemma_ascii_lower_name_char(c, sep);
            let q = p.push(ascii_lower(c));
            assert forall|i: int| 0 <= i < q.len() implies name_char(#[trigger] q[i], sep) by {
                if i < p.len() {
                    assert(q[i] == p[i]);
                }
            }
            assert forall|i: int| 0 < i < q.len() && #[trigger] q[i] == sep implies q[i - 1]
                != sep by {
                assert(q[i] == p[i]);
                assert(q[i - 1] == p[i - 1]);
            }
        } else if !(p.len() > 0 && p.last() == sep) {
            let q = p.push(sep);
            assert forall|i: int| 0 <= i < q.len() implies name_char(#[trigger] q[i], sep) by {
                if i < p.len() {
                    assert(q[i] == p[i]);
                }
            }
            assert forall|i: int| 0 < i < q.len() && #[trigger] q[i] == sep implies q[i - 1]
                != sep by {
                if i < p.len() {
                    assert(q[i] == p[i]);
                    assert(q[i - 1] == p[i - 1]);
                } else {
                    assert(q[i - 1] == p.last());
                }
            }
        }
    }
}

proof fn lemma_strip_start_shape(s: Seq<char>, c: char)
    ensures
        strip_start(s, c).len() <= s.len(),
        strip_start(s, c) == s.skip(s.len() - strip_start(s, c).len()),
        strip_start(s, c).len() > 0 ==> strip_start(s, c)[0] != c,
    decreases s.len(),
{
    if s.len() > 0 && s[0] == c {
        lemma_strip_start_shape(s.drop_first(), c);
        let r = strip_start(s.drop_first(), c);
        assert(s.drop_first().skip(s.drop_first().len() - r.len()) =~= s.skip(s.len() - r.len()));
    } else {
        assert(s.skip(0) =~= s);
    }
}

proof fn lemma_strip_end_shape(s: Seq<char>, c: char)
    ensures
        strip_end(s, c).len() <= s.len(),
        strip_end(s, c) == s.take(strip_end(s, c).len() as int),
        strip_end(s, c).len() > 0 ==> strip_end(s, c).last() != c,
    decreases s.len(),
{
    if s.len() > 0 && s.last() == c {
        lemma_strip_end_shape(s.drop_last(), c);
        let r = strip_end(s.drop_last(), c);
        assert(s.drop_last().take(r.len() as int) =~= s.take(r.len() as int));
    } else {
        assert(s.take(s.len() as int) =~= s);
    }
}

proof fn lemma_sanitize_shape(s: Seq<char>, sep: char, fallback: Seq<char>)
    requires
        sep == '-' || sep == '_',
    ensures
        sanitize_name(s, sep, fallback) == fallback || name_shaped(
            sanitize_name(s, sep, fallback),
            sep,
        ),
{
    let x = collapse(s, sep);
    lemma_collapse_chars(s, sep);
    lemma_strip_start_shape(x, sep);
    let y = strip_start(x, sep);
    let k = x.len() - y.len();
    lemma_strip_end_shape(y, sep);
    let t = strip_end(y, sep);
    if t.len() > 0 {
        assert(t[0] == y[0]);
        assert forall|i: int| 0 <= i < t.len() implies name_char(#[trigger] t[i], sep) by {
            assert(t[i] == x[i + k]);
        }
        assert forall|i: int| 0 < i < t.len() && #[trigger] t[i] == sep implies t[i - 1]
            != sep by {
            assert(t[i] == x[i + k]);
            assert(t[i - 1] == x[i - 1 + k]);
        }
    }
}

/// Every Cargo crate name derived from a project name is either the fallback
/// `program_deployment` or a non-empty run of lower-case ASCII letters,
/// digits and single `-`, with no `-` at either end.
pub proof fn lemma_cargo_crate_name_shape(s: Seq<char>)
    ensures
        cargo_crate_name_spec(s) == "program_deployment"@ || name_shaped(
            cargo_crate_name_spec(s),
            '-',
        ),
{
    lemma_sanitize_shape(s, '-', "program_deployment"@);
}

/// Every plugin name derived from a project name is either the fallback
/// `basecamp_app` or a non-empty run of lower-case ASCII letters, digits and
/// single `_`, with no `_` at either end.
pub proof fn lemma_plugin_name_shape(s: Seq<char>)
    ensures
        plugin_name_spec(s) == "basecamp_app"@ || name_shaped(plugin_name_spec(s), '_'),
{
    lemma_sanitize_shape(s, '_', "basecamp_app"@);
}

proof fn lemma_collapse_fixed(t: Seq<char>, sep: char)
    requires
        sep == '-' || sep == '_',
        name_chars_ok(t, sep),
    ensures
        collapse(t, sep) == t,
    decreases t.len(),
{
    if t.len() > 0 {
        let p = t.drop_last();
        assert(name_chars_ok(p, sep)) by {
            assert forall|i: int| 0 <= i < p.len() implies name_char(#[trigger] p[i], sep) by {
                assert(p[i] == t[i]);
            }
            assert forall|i: int| 0 < i < p.len() && #[trigger] p[i] == sep implies p[i - 1]
                != sep by {
                assert(p[i] == t[i]);
                assert(p[i - 1] == t[i - 1]);
            }
        }
        lemma_collapse_fixed(p, sep);
        let c = t.last();
        assert(name_char(t[t.len() - 1], sep));
        if c == sep {
            if p.len() > 0 {
                assert(t[t.len() - 1] == sep);
                assert(p.last() == t[t.len() - 2]);
            }
        }
        assert(p.push(c) =~= t);
    }
}

proof fn lemma_sanitize_fixed(t: Seq<char>, sep: char, fallback: Seq<char>)
    requires
        sep == '-' || sep == '_',
        name_shaped(t, sep),
    ensures
        sanitize_name(t, sep, fallback) == t,
{
    lemma_collapse_fixed(t, sep);
    assert(strip_start(t, sep) == t);
    assert(strip_end(t, sep) == t);
}

/// Deriving a crate name from a derived crate name changes nothing, unless
/// the first derivation fell back to `program_deployment`.
pub proof fn lemma_cargo_crate_name_idempotent(s: Seq<char>)
    requires
        cargo_crate_name_spec(s) != "program_deployment"@,
    ensures
        cargo_crate_name_spec(cargo_crate_name_spec(s)) == cargo_crate_name_spec(s),
{
    lemma_cargo_crate_name_shape(s);
    lemma_sanitize_fixed(cargo_crate_name_spec(s), '-', "program_deployment"@);
}

/// Deriving a plugin name from a derived plugin name changes nothing.
pub proof fn lemma_plugin_name_idempotent(s: Seq<char>)
    ensures
        plugin_name_spec(plugin_name_spec(s)) == plugin_name_spec(s),
{
    lemma_plugin_name_shape(s);
    reveal_strlit("basecamp_app");
    if plugin_name_spec(s) == "basecamp_app"@ {
        assert(name_shaped("basecamp_app"@, '_')) by {
            let b = "basecamp_app"@;
            assert forall|i: int| 0 < i < b.len() && #[trigger] b[i] == '_' implies b[i - 1]
                != '_' by {
                assert(i == 8);
            }
        }
    }
    lemma_sanitize_fixed(plugin_name_spec(s), '_', "basecamp_app"@);
}

// ---------------------------------------------------------------------------
// Plugin names and crate names
// ---------------------------------------------------------------------------
pub open spec fn dash_to_underscore(c: char) -> char {
    if c == '-' {
        '_'
    } else {
        c
    }
}

/// `r` with every `-` written as `_`.
pub open spec fn dashes_to_underscores(r: Seq<char>) -> Seq<char> {
    r.map_values(|c: char| dash_to_underscore(c))
}

pub open spec fn no_underscore(r: Seq<char>) -> bool {
    forall|i: int| 0 <= i < r.len() ==> #[trigger] r[i] != '_'
}

proof fn lemma_collapse_separators(s: Seq<char>)
    ensures
        collapse(s, '_') == dashes_to_underscores(collapse(s, '-')),
        no_underscore(collapse(s, '-')),
    decreases s.len(),
{
    if s.len() > 0 {
        let s0 = s.drop_last();
        lemma_collapse_separators(s0);
        let p = collapse(s0, '-');
        let c = s.last();
        if is_ascii_alnum(c) {
            lemma_ascii_lower_name_char(c, '-');
            assert(dashes_to_underscores(p.push(ascii_lower(c))) =~= dashes_to_underscores(p).push(
                ascii_lower(c),
            ));
            assert forall|i: int| 0 <= i < p.push(ascii_lower(c)).len() implies #[trigger] p.push(
                ascii_lower(c),
            )[i] != '_' by {
                if i < p.len() {
                    assert(p.push(ascii_lower(c))[i] == p[i]);
                }
            }
        } else {
            let d = dashes_to_underscores(p);
            if p.len() > 0 {
                assert(d.last() == dash_to_underscore(p.last()));
                assert(p[p.len() - 1] != '_');
            }
            if !(p.len() > 0 && p.last() == '-') {
                assert(dashes_to_underscores(p.push('-')) =~= d.push('_'));
                assert forall|i: int| 0 <= i < p.push('-').len() implies #[trigger] p.push('-')[i]
                    != '_' by {
                    if i < p.len() {
                        assert(p.push('-')[i] == p[i]);
                    }
                }
            }
        }
    }
}

proof fn lemma_strip_start_separators(x: Seq<char>)
    requires
        no_underscore(x),
    ensures
        strip_start(dashes_to_underscores(x), '_') == dashes_to_underscores(strip_start(x, '-')),
        no_underscore(strip_start(x, '-')),
    decreases x.len(),
{
    let d = dashes_to_underscores(x);
    if x.len() > 0 {
        assert(d[0] == dash_to_underscore(x[0]));
        assert(x[0] != '_');
        if x[0] == '-' {
            let t = x.drop_first();
            assert(no_underscore(t)) by {
                assert forall|i: int| 0 <= i < t.len() implies #[trigger] t[i] != '_' by {
                    assert(t[i] == x[i + 1]);
                }
            }
            assert(d.drop_first() =~= dashes_to_underscores(t));
            lemma_strip_start_separators(t);
        }
    }
}

proof fn lemma_strip_end_separators(x: Seq<char>)
    requires
        no_underscore(x),
    ensures
        strip_end(dashes_to_underscores(x), '_') == dashes_to_underscores(strip_end(x, '-')),
        no_underscore(strip_end(x, '-')),
    decreases x.len(),
{
    let d = dashes_to_underscores(x);
    if x.len() > 0 {
        assert(d.last() == dash_to_underscore(x.last()));
        assert(x[x.len() - 1] != '_');
        if x.last() == '-' {
            let t = x.drop_last();
            assert(no_underscore(t)) by {
                assert forall|i: int| 0 <= i < t.len() implies #[trigger] t[i] != '_' by {
                    assert(t[i] == x[i]);
                }
            }
            assert(d.drop_last() =~= dashes_to_underscores(t));
            lemma_strip_end_separators(t);
        }
    }
}

/// The plugin name of a project name is its crate name with `_` for `-`,
/// or `basecamp_app` where the crate name falls back to `program_deployment`.
pub proof fn lemma_plugin_name_from_crate_name(s: Seq<char>)
    ensures
        plugin_name_spec(s) == (if cargo_crate_name_spec(s) == "program_deployment"@ {
            "basecamp_app"@
        } else {
            dashes_to_underscores(cargo_crate_name_spec(s))
        }),
{
    reveal_strlit("program_deployment");
    let x = collapse(s, '-');
    lemma_collapse_separators(s);
    lemma_strip_start_separators(x);
    let y = strip_start(x, '-');
    lemma_strip_end_separators(y);
    let t = strip_end(y, '-');
    assert(strip(collapse(s, '_'), '_') == dashes_to_underscores(t));
    if t.len() > 0 {
        assert(t != "program_deployment"@) by {
            assert("program_deployment"@[7] == '_');
            if t.len() > 7 {
                assert(t[7] != '_');
            }
        }
    }
}

// ---------------------------------------------------------------------------
// What every title looks like
// ---------------------------------------------------------------------------
pub open spec fn is_lower_ascii(c: char) -> bool {
    'a' <= c && c <= 'z'
}

pub open spec fn is_upper_ascii(c: char) -> bool {
    'A' <= c && c <= 'Z'
}

/// A title: non-empty words of ASCII letters and digits separated by single
/// spaces, no space at either end, each word starting with a character that
/// is not a lower-case letter and going on with characters that are not
/// upper-case letters.
pub open spec fn title_shaped(r: Seq<char>) -> bool {
    &&& r.len() > 0
    &&& forall|i: int| 0 <= i < r.len() ==> (#[trigger] r[i] == ' ' || is_ascii_alnum(r[i]))
    &&& forall|i: int|
        0 <= i < r.len() && #[trigger] r[i] == ' ' ==> 0 < i < r.len() - 1 && r[i - 1] != ' '
            && r[i + 1] != ' '
    &&& forall|i: int|
        0 <= i < r.len() && #[trigger] r[i] != ' ' && (i == 0 || r[i - 1] == ' ')
            ==> !is_lower_ascii(r[i])
    &&& forall|i: int|
        0 < i < r.len() && #[trigger] r[i] != ' ' && r[i - 1] != ' ' ==> !is_upper_ascii(r[i])
}

pub open spec fn good_word(w: Seq<char>) -> bool {
    &&& w.len() > 0
    &&& forall|j: int| 0 <= j < w.len() ==> is_ascii_alnum(#[trigger] w[j])
    &&& !is_lower_ascii(w[0])
    &&& forall|j: int| 0 < j < w.len() ==> !is_upper_ascii(#[trigger] w[j])
}

pub open spec fn good_words(ws: Seq<Seq<char>>) -> bool {
    forall|k: int| 0 <= k < ws.len() ==> good_word(#[trigger] ws[k])
}

proof fn lemma_title_words_good(s: Seq<char>)
    ensures
        good_words(title_words(s)),
    decreases s.len(),
{
    if s.len() > 0 {
        let p = title_words(s.drop_last());
        lemma_title_words_good(s.drop_last());
        let c = s.last();
        if is_ascii_alnum(c) {
            if s.len() >= 2 && is_ascii_alnum(s[s.len() - 2]) {
                assert(s.drop_last().last() == s[s.len() - 2]);
                lemma_title_words_last(s.drop_last());
                let w = p.last().push(ascii_lower(c));
                assert(good_word(p[p.len() - 1]));
                assert(good_word(w)) by {
                    assert forall|j: int| 0 <= j < w.len() implies is_ascii_alnum(#[trigger] w[j]) by {
                        if j < w.len() - 1 {
                            assert(w[j] == p.last()[j]);
                        }
                    }
                    assert forall|j: int| 0 < j < w.len() implies !is_upper_ascii(#[trigger] w[j]) by {
                        if j < w.len() - 1 {
                            assert(w[j] == p.last()[j]);
                        }
                    }
                    assert(w[0] == p.last()[0]);
                }
                let q = p.update(p.len() - 1, w);
                assert forall|k: int| 0 <= k < q.len() implies good_word(#[trigger] q[k]) by {
                    if k < p.len() - 1 {
                        assert(q[k] == p[k]);
                    }
                }
            } else {
                let w = seq![ascii_upper(c)];
                assert(good_word(w));
                let q = p.push(w);
                assert forall|k: int| 0 <= k < q.len() implies good_word(#[trigger] q[k]) by {
                    if k < p.len() {
                        assert(q[k] == p[k]);
                    }
                }
            }
        }
    }
}

proof fn lemma_join_good_words(ws: Seq<Seq<char>>)
    requires
        ws.len() > 0,
        good_words(ws),
    ensures
        title_shaped(join_words(ws)),
    decreases ws.len(),
{
    if ws.len() == 1 {
        let w = ws[0];
        assert(good_word(w));
        assert(join_words(ws) == w);
    } else {
        let init = ws.drop_last();
        assert(good_words(init)) by {
            assert forall|k: int| 0 <= k < init.len() implies good_word(#[trigger] init[k]) by {
                assert(init[k] == ws[k]);
            }
        }
        lemma_join_good_words(init);
        let x = join_words(init);
        let w = ws.last();
        assert(good_word(ws[ws.len() - 1]));
        let r = x + seq![' '] + w;
        assert(join_words(ws) == r);
        let n = x.len() as int;
        assert(x[n - 1] != ' ');
        assert(w[0] != ' ');
        assert forall|i: int| 0 <= i < r.len() implies (#[trigger] r[i] == ' ' || is_ascii_alnum(r[i])) by {
            if i < n {
                assert(r[i] == x[i]);
            } else if i > n {
                assert(r[i] == w[i - n - 1]);
            }
        }
        assert forall|i: int| 0 <= i < r.len() && #[trigger] r[i] == ' ' implies 0 < i < r.len() - 1
            && r[i - 1] != ' ' && r[i + 1] != ' ' by {
            if i < n {
                assert(r[i] == x[i]);
                assert(r[i - 1] == x[i - 1]);
                if i + 1 < n {
                    assert(r[i + 1] == x[i + 1]);
                }
            } else if i > n {
                assert(r[i] == w[i - n - 1]);
                assert(is_ascii_alnum(w[i - n - 1]));
            } else {
                assert(r[i - 1] == x[n - 1]);
                assert(r[i + 1] == w[0]);
            }
        }
        assert forall|i: int| 0 <= i < r.len() && #[trigger] r[i] != ' ' && (i == 0 || r[i - 1] == ' ')
            implies !is_lower_ascii(r[i]) by {
            if i < n {
                assert(r[i] == x[i]);
                if i > 0 {
                    assert(r[i - 1] == x[i - 1]);
                }
            } else if i > n {
                assert(r[i] == w[i - n - 1]);
                if i > n + 1 {
                    assert(r[i - 1] == w[i - n - 2]);
                    assert(is_ascii_alnum(w[i - n - 2]));
                }
            }
        }
        assert forall|i: int| 0 < i < r.len() && #[trigger] r[i] != ' ' && r[i - 1] != ' ' implies !is_upper_ascii(r[i]) by {
            if i < n {
                assert(r[i] == x[i]);
                assert(r[i - 1] == x[i - 1]);
            } else if i > n + 1 {
                assert(r[i] == w[i - n - 1]);
            } else if i == n + 1 {
                assert(r[i - 1] == ' ');
            }
        }
    }
}

/// Every project title is title-shaped: its words are separated by exactly
/// one space, it neither starts nor ends with a space, it holds only ASCII
/// letters, digits and spaces, and each word is capitalised.
pub proof fn lemma_project_title_shape(s: Seq<char>)
    ensures
        title_shaped(project_title_spec(s)),
{
    let ws = title_words(s);
    if ws.len() == 0 {
        reveal_strlit("Basecamp App");
        let r = "Basecamp App"@;
        assert(r[8] == ' ');
        assert forall|i: int| 0 <= i < r.len() && #[trigger] r[i] == ' ' implies i == 8 by {}
    } else {
        lemma_title_words_good(s);
        lemma_join_good_words(ws);
    }
}

// ---------------------------------------------------------------------------
// Derived names keep the letters and digits of the project name
// ---------------------------------------------------------------------------
/// The ASCII letters and digits of `s`, in order, lower-cased.
pub open spec fn alnum_folded(s: Seq<char>) -> Seq<char>
    decreases s.len(),
{
    if s.len() == 0 {
        Seq::empty()
    } else if is_ascii_alnum(s.last()) {
        alnum_folded(s.drop_last()).push(ascii_lower(s.last()))
    } else {
        alnum_folded(s.drop_last())
    }
}

proof fn lemma_alnum_folded_append(a: Seq<char>, b: Seq<char>)
    ensures
        alnum_folded(a + b) == alnum_folded(a) + alnum_folded(b),
    decreases b.len(),
{
    if b.len() == 0 {
        assert(a + b =~= a);
        assert(alnum_folded(a) + alnum_folded(b) =~= alnum_folded(a));
    } else {
        assert((a + b).drop_last() =~= a + b.drop_last());
        assert((a + b).last() == b.last());
        lemma_alnum_folded_append(a, b.drop_last());
        if is_ascii_alnum(b.last()) {
            assert(alnum_folded(a) + alnum_folded(b) =~= (alnum_folded(a) + alnum_folded(
                b.drop_last(),
            )).push(ascii_lower(b.last())));
        }
    }
}

proof fn lemma_case_fold(c: char)
    requires
        is_ascii_alnum(c),
    ensures
        is_ascii_alnum(ascii_lower(c)),
        is_ascii_alnum(ascii_upper(c)),
        ascii_lower(ascii_lower(c)) == ascii_lower(c),
        ascii_lower(ascii_upper(c)) == ascii_lower(c),
{
}

proof fn lemma_alnum_folded_single(c: char)
    ensures
        alnum_folded(seq![c]) == (if is_ascii_alnum(c) {
            seq![ascii_lower(c)]
        } else {
            Seq::empty()
        }),
{
    assert(seq![c].drop_last() =~= Seq::<char>::empty());
    assert(seq![c].last() == c);
    assert(alnum_folded(Seq::<char>::empty()) == Seq::<char>::empty());
    if is_ascii_alnum(c) {
        assert(Seq::<char>::empty().push(ascii_lower(c)) =~= seq![ascii_lower(c)]);
    }
}

proof fn lemma_title_words_content(s: Seq<char>)
    ensures
        alnum_folded(join_words(title_words(s))) == alnum_folded(s),
        title_words(s).len() == 0 <==> alnum_folded(s).len() == 0,
    decreases s.len(),
{
    if s.len() > 0 {
        let s0 = s.drop_last();
        lemma_title_words_content(s0);
        let p = title_words(s0);
        let c = s.last();
        if is_ascii_alnum(c) {
            lemma_case_fold(c);
            if s.len() >= 2 && is_ascii_alnum(s[s.len() - 2]) {
                assert(s0.last() == s[s.len() - 2]);
                lemma_title_words_last(s0);
                lemma_join_words_update(p, ascii_lower(c));
                let j = join_words(p);
                assert(j.push(ascii_lower(c)) =~= j + seq![ascii_lower(c)]);
                lemma_alnum_folded_append(j, seq![ascii_lower(c)]);
                lemma_alnum_folded_single(ascii_lower(c));
            } else {
                let w = seq![ascii_upper(c)];
                lemma_join_words_push(p, w);
                lemma_alnum_folded_single(ascii_upper(c));
                if p.len() == 0 {
                } else {
                    let j = join_words(p);
                    lemma_alnum_folded_append(j + seq![' '], w);
                    lemma_alnum_folded_append(j, seq![' ']);
                    lemma_alnum_folded_single(' ');
                    assert(alnum_folded(j) + Seq::<char>::empty() =~= alnum_folded(j));
                }
                assert(alnum_folded(s0).push(ascii_lower(c)) =~= alnum_folded(s0) + seq![
                    ascii_lower(c),
                ]);
            }
        }
    }
}

/// A project title keeps the ASCII letters and digits of the project name,
/// in order (up to case), and drops everything else; a name without any
/// gets the title `Basecamp App`.
pub proof fn lemma_project_title_content(s: Seq<char>)
    ensures
        alnum_folded(s).len() == 0 ==> project_title_spec(s) == "Basecamp App"@,
        alnum_folded(s).len() > 0 ==> alnum_folded(project_title_spec(s)) == alnum_folded(s),
{
    lemma_title_words_content(s);
}

proof fn lemma_collapse_content(s: Seq<char>, sep: char)
    requires
        !is_ascii_alnum(sep),
    ensures
        alnum_folded(collapse(s, sep)) == alnum_folded(s),
    decreases s.len(),
{
    if s.len() > 0 {
        let s0 = s.drop_last();
        lemma_collapse_content(s0, sep);
        let p = collapse(s0, sep);
        let c = s.last();
        if is_ascii_alnum(c) {
            lemma_case_fold(c);
            let q = p.push(ascii_lower(c));
            assert(q.drop_last() =~= p);
        } else if !(p.len() > 0 && p.last() == sep) {
            let q = p.push(sep);
            assert(q.drop_last() =~= p);
        }
    }
}

proof fn lemma_strip_start_content(x: Seq<char>, c: char)
    requires
        !is_ascii_alnum(c),
    ensures
        alnum_folded(strip_start(x, c)) == alnum_folded(x),
    decreases x.len(),
{
    if x.len() > 0 && x[0] == c {
        let t = x.drop_first();
        lemma_strip_start_content(t, c);
        assert(x =~= seq![c] + t);
        lemma_alnum_folded_append(seq![c], t);
        lemma_alnum_folded_single(c);
        assert(Seq::<char>::empty() + alnum_folded(t) =~= alnum_folded(t));
    }
}

proof fn lemma_strip_end_content(x: Seq<char>, c: char)
    requires
        !is_ascii_alnum(c),
    ensures
        alnum_folded(strip_end(x, c)) == alnum_folded(x),
    decreases x.len(),
{
    if x.len() > 0 && x.last() == c {
        lemma_strip_end_content(x.drop_last(), c);
    }
}

proof fn lemma_sanitize_content(s: Seq<char>, sep: char, fallback: Seq<char>)
    requires
        sep == '-' || sep == '_',
    ensures
        alnum_folded(s).len() == 0 ==> sanitize_name(s, sep, fallback) == fallback,
        alnum_folded(s).len() > 0 ==> alnum_folded(sanitize_name(s, sep, fallback)) == alnum_folded(s),
{
    let x = collapse(s, sep);
    lemma_collapse_content(s, sep);
    lemma_strip_start_content(x, sep);
    let y = strip_start(x, sep);
    lemma_strip_end_content(y, sep);
    let t = strip_end(y, sep);
    if t.len() > 0 {
        lemma_strip_start_shape(x, sep);
        lemma_strip_end_shape(y, sep);
        lemma_collapse_chars(s, sep);
        let k = x.len() - y.len();
        assert(t[0] == y[0]);
        assert(t[0] == x[k]);
        assert(name_char(x[k], sep));
        assert(is_ascii_alnum(t[0]));
        assert(t =~= seq![t[0]] + t.drop_first());
        lemma_alnum_folded_append(seq![t[0]], t.drop_first());
        lemma_alnum_folded_single(t[0]);
    }
}

/// A crate name keeps the ASCII letters and digits of the project name, in
/// order and lower-cased, and drops everything else; a name without any
/// gets `program_deployment`.
pub proof fn lemma_cargo_crate_name_content(s: Seq<char>)
    ensures
        alnum_folded(s).len() == 0 ==> cargo_crate_name_spec(s) == "program_deployment"@,
        alnum_folded(s).len() > 0 ==> alnum_folded(cargo_crate_name_spec(s)) == alnum_folded(s),
{
    lemma_sanitize_content(s, '-', "program_deployment"@);
}

/// A plugin name keeps the ASCII letters and digits of the project name, in
/// order and lower-cased, and drops everything else; a name without any
/// gets `basecamp_app`.
pub proof fn lemma_plugin_name_content(s: Seq<char>)
    ensures
        alnum_folded(s).len() == 0 ==> plugin_name_spec(s) == "basecamp_app"@,
        alnum_folded(s).len() > 0 ==> alnum_folded(plugin_name_spec(s)) == alnum_folded(s),
{
    lemma_sanitize_content(s, '_', "basecamp_app"@);
}

} // verus!
