//! What holds of the reader and the writer of `scaffold.toml` together.
use vstd::prelude::*;

use crate::config::{
    assign_entry, classify_line, config_lines, escape_char, escape_spec,
    finish_scan, head_lines, initial_scan, join_lines, opt_repo_lines, parse_config_spec,
    plain_entry, quoted_entry, repo_lines, scan_line, scan_lines, serialize_config_spec,
    tail_lines, unquote_spec, LineKind, ScanState,
};
use crate::model::{ConfigError, ConfigView, RepoRefView, PROJECT_KIND_LEZ};
use crate::numbers::{
    bool_text, decimal, is_digit, lemma_decimal_digits, lemma_parse_decimal, parse_u16_spec,
};
use crate::text::{
    find_char, is_ws, lemma_find_char_append, lemma_split_newlines_nonempty, split_newlines,
    strip_cr, text_lines, trim, trim_end, trim_start,
};

verus! {

/// Text that the writer can quote and the reader gives back unchanged: no
/// line feed, no double quote and no backslash.
pub open spec fn plain_text(s: Seq<char>) -> bool {
    forall|i: int| 0 <= i < s.len() ==> #[trigger] s[i] != '\n' && s[i] != '"' && s[i] != '\\'
}

pub open spec fn plain_repo(r: RepoRefView) -> bool {
    plain_text(r.url) && plain_text(r.source) && plain_text(r.path) && plain_text(r.pin)
}

/// No value of the configuration holds a line feed, a double quote or a
/// backslash, so that its written text reads back unchanged.
pub open spec fn config_plain(c: ConfigView) -> bool {
    &&& plain_text(c.version)
    &&& plain_text(c.cache_root)
    &&& plain_text(c.project_kind)
    &&& match c.lez {
        Some(r) => plain_repo(r),
        None => true,
    }
    &&& match c.logos_module_builder {
        Some(r) => plain_repo(r),
        None => true,
    }
    &&& plain_text(c.wallet_home_dir)
    &&& plain_text(c.framework_kind)
    &&& plain_text(c.framework_version)
    &&& plain_text(c.framework_idl_spec)
    &&& plain_text(c.framework_idl_path)
    &&& plain_text(c.basecamp_data_root)
    &&& plain_text(c.basecamp_runtime_variant)
}

/// A configuration that the reader can produce: every value that has a
/// default or is required is present, a present repository is complete
/// (only the module builder's `url` may be empty), and a LEZ project has its
/// LEZ repository.
pub open spec fn config_complete(c: ConfigView) -> bool {
    &&& c.version.len() > 0
    &&& c.cache_root.len() > 0
    &&& c.project_kind.len() > 0
    &&& match c.lez {
        Some(r) => r.url.len() > 0 && r.source.len() > 0 && r.path.len() > 0 && r.pin.len() > 0,
        None => c.project_kind != PROJECT_KIND_LEZ@,
    }
    &&& match c.logos_module_builder {
        Some(r) => r.source.len() > 0 && r.path.len() > 0 && r.pin.len() > 0,
        None => true,
    }
    &&& c.wallet_home_dir.len() > 0
    &&& c.framework_kind.len() > 0
    &&& c.framework_version.len() > 0
    &&& c.framework_idl_spec.len() > 0
    &&& c.framework_idl_path.len() > 0
    &&& c.basecamp_data_root.len() > 0
    &&& c.basecamp_runtime_variant.len() > 0
}

// ---------------------------------------------------------------------------
// Lines
// ---------------------------------------------------------------------------
proof fn lemma_split_no_newline(a: Seq<char>, b: Seq<char>)
    requires
        forall|i: int| 0 <= i < b.len() ==> #[trigger] b[i] != '\n',
    ensures
        split_newlines(a).len() >= 1,
        split_newlines(a + b) == split_newlines(a).update(
            split_newlines(a).len() - 1,
            split_newlines(a).last() + b,
        ),
    decreases b.len(),
{
    lemma_split_newlines_nonempty(a);
    let p = split_newlines(a);
    if b.len() == 0 {
        assert(a + b =~= a);
        assert(p.last() + b =~= p.last());
        assert(p.update(p.len() - 1, p.last() + b) =~= p);
    } else {
        let b0 = b.drop_last();
        lemma_split_no_newline(a, b0);
        assert((a + b).drop_last() =~= a + b0);
        assert((a + b).last() == b.last());
        let q = split_newlines(a + b0);
        assert(q.last() == p.last() + b0);
        assert(q.last().push(b.last()) =~= p.last() + b);
        assert(split_newlines(a + b) =~= p.update(p.len() - 1, p.last() + b));
    }
}

/// Each line without a line feed or a final carriage return.
pub open spec fn simple_lines(ls: Seq<Seq<char>>) -> bool {
    forall|i: int| 0 <= i < ls.len() ==> #[trigger] simple_line(ls[i])
}

pub open spec fn simple_line(l: Seq<char>) -> bool {
    (forall|j: int| 0 <= j < l.len() ==> #[trigger] l[j] != '\n') && (l.len() == 0 || l.last()
        != '\r')
}

proof fn lemma_split_join(ls: Seq<Seq<char>>)
    requires
        simple_lines(ls),
    ensures
        split_newlines(join_lines(ls)) == ls.push(Seq::empty()),
    decreases ls.len(),
{
    if ls.len() == 0 {
        assert(split_newlines(Seq::<char>::empty()) =~= seq![Seq::<char>::empty()]);
        assert(ls.push(Seq::empty()) =~= seq![Seq::<char>::empty()]);
    } else {
        let init = ls.drop_last();
        let l = ls.last();
        assert(simple_line(ls[ls.len() - 1]));
        assert forall|i: int| 0 <= i < init.len() implies #[trigger] simple_line(init[i]) by {
            assert(simple_line(ls[i]));
        }
        lemma_split_join(init);
        let x = join_lines(init);
        lemma_split_no_newline(x, l);
        let t = x + l + seq!['\n'];
        assert(join_lines(ls) == t);
        assert(t.drop_last() =~= x + l);
        assert(t.last() == '\n');
        let p = split_newlines(x);
        assert(split_newlines(x + l) =~= init.push(l)) by {
            assert(p.last() + l =~= l);
        }
        assert(ls =~= init.push(l));
    }
}

/// The lines of the text that `join_lines` writes are the lines it was given.
pub proof fn lemma_text_lines_join(ls: Seq<Seq<char>>)
    requires
        simple_lines(ls),
    ensures
        text_lines(join_lines(ls)) == ls,
{
    lemma_split_join(ls);
    let segs = ls.push(Seq::<char>::empty());
    assert(segs.drop_last() =~= ls);
    assert forall|i: int| 0 <= i < ls.len() implies strip_cr(#[trigger] ls[i]) == ls[i] by {
        assert(simple_line(ls[i]));
    }
    assert(ls.map_values(|l: Seq<char>| strip_cr(l)) =~= ls);
}

// ---------------------------------------------------------------------------
// One line
// ---------------------------------------------------------------------------
/// Escaping changes nothing in plain text.
pub proof fn lemma_escape_plain(s: Seq<char>)
    requires
        plain_text(s),
    ensures
        escape_spec(s) == s,
    decreases s.len(),
{
    if s.len() > 0 {
        let t = s.drop_last();
        assert(plain_text(t)) by {
            assert forall|i: int| 0 <= i < t.len() implies #[trigger] t[i] != '\n' && t[i] != '"'
                && t[i] != '\\' by {
                assert(t[i] == s[i]);
            }
        }
        lemma_escape_plain(t);
        assert(s[s.len() - 1] != '"' && s[s.len() - 1] != '\\');
        assert(escape_char(s.last()) =~= seq![s.last()]);
        assert(t + seq![s.last()] =~= s);
    }
}

proof fn lemma_find_char_absent(s: Seq<char>, c: char)
    requires
        forall|i: int| 0 <= i < s.len() ==> #[trigger] s[i] != c,
    ensures
        find_char(s, c) is None,
    decreases s.len(),
{
    if s.len() > 0 {
        let t = s.drop_first();
        assert forall|i: int| 0 <= i < t.len() implies #[trigger] t[i] != c by {
            assert(t[i] == s[i + 1]);
        }
        lemma_find_char_absent(t, c);
    }
}

/// The conditions a key literal meets.
pub open spec fn good_key(k: Seq<char>) -> bool {
    &&& k.len() > 0
    &&& !is_ws(k[0]) && !is_ws(k.last())
    &&& k[0] != '#' && k[0] != '['
    &&& forall|i: int| 0 <= i < k.len() ==> #[trigger] k[i] != '='
}

proof fn lemma_trim_fixed(s: Seq<char>)
    requires
        s.len() > 0,
        !is_ws(s[0]),
        !is_ws(s.last()),
    ensures
        trim(s) == s,
{
}

/// `K = rest`, where `rest` begins with `" = "`: the key is `K` and the value
/// part is what follows the `=`.
proof fn lemma_entry_split(k: Seq<char>, rest: Seq<char>)
    requires
        good_key(k),
        rest.len() >= 3,
        rest[0] == ' ',
        rest[1] == '=',
        !is_ws(rest.last()),
    ensures
        classify_line(k + rest) == LineKind::Entry(
            k,
            unquote_spec(trim((k + rest).skip(k.len() as int + 2))),
        ),
{
    let line = k + rest;
    assert(line[0] == k[0]);
    assert(line.last() == rest.last());
    lemma_trim_fixed(line);
    lemma_find_char_absent(k, '=');
    lemma_find_char_append(k, rest, '=');
    assert(rest.drop_first()[0] == '=');
    assert(find_char(rest.drop_first(), '=') == Some(0int));
    assert(find_char(rest, '=') == Some(1int));
    let key_part = line.take(k.len() as int + 1);
    assert(key_part =~= k.push(' '));
    assert(key_part[0] == k[0]);
    assert(trim_start(key_part) == key_part);
    assert(key_part.drop_last() =~= k);
    assert(trim_end(key_part) == trim_end(k));
    assert(trim(key_part) == k);
}

/// A quoted entry line reads back as its key and its (plain) value.
pub proof fn lemma_classify_quoted(k: Seq<char>, v: Seq<char>)
    requires
        good_key(k),
        plain_text(v),
    ensures
        classify_line(quoted_entry(k, v)) == LineKind::Entry(k, v),
{
    reveal_strlit(" = \"");
    reveal_strlit("\"");
    lemma_escape_plain(v);
    let rest = " = \""@ + v + "\""@;
    assert(quoted_entry(k, v) =~= k + rest);
    assert(rest[0] == ' ' && rest[1] == '=');
    assert(rest.last() == '"');
    lemma_entry_split(k, rest);
    let line = k + rest;
    let vp = line.skip(k.len() as int + 2);
    assert(vp =~= seq![' ', '"'] + v + seq!['"']);
    let inner = seq!['"'] + v + seq!['"'];
    assert(vp.drop_first() =~= inner);
    assert(trim_start(vp) == trim_start(inner));
    assert(trim_start(inner) == inner);
    assert(inner.last() == '"');
    assert(trim(vp) == inner);
    assert(inner.subrange(1, inner.len() - 1) =~= v);
}

/// An unquoted entry line reads back as its key and its value.
pub proof fn lemma_classify_plain(k: Seq<char>, w: Seq<char>)
    requires
        good_key(k),
        w.len() > 0,
        !is_ws(w[0]),
        !is_ws(w.last()),
        w[0] != '"',
    ensures
        classify_line(plain_entry(k, w)) == LineKind::Entry(k, w),
{
    reveal_strlit(" = ");
    let rest = " = "@ + w;
    assert(plain_entry(k, w) =~= k + rest);
    assert(rest[0] == ' ' && rest[1] == '=');
    assert(rest.last() == w.last());
    lemma_entry_split(k, rest);
    let vp = (k + rest).skip(k.len() as int + 2);
    assert(vp =~= seq![' '] + w);
    assert(vp.drop_first() =~= w);
    assert(trim_start(vp) == trim_start(w));
    assert(trim(vp) == w);
}

/// A section header `[name]` reads back as the section `name`.
pub proof fn lemma_classify_section(h: Seq<char>, name: Seq<char>)
    requires
        h == seq!['['] + name + seq![']'],
    ensures
        classify_line(h) == LineKind::Section(name),
{
    assert(h[0] == '[');
    assert(h.last() == ']');
    lemma_trim_fixed(h);
    assert(h.subrange(1, h.len() - 1) =~= name);
}

pub proof fn lemma_classify_blank()
    ensures
        classify_line(Seq::empty()) == LineKind::Skip,
{
    assert(trim(Seq::<char>::empty()) == Seq::<char>::empty());
}

// ---------------------------------------------------------------------------
// Reading many lines
// ---------------------------------------------------------------------------
pub proof fn lemma_scan_append(st: ScanState, a: Seq<Seq<char>>, b: Seq<Seq<char>>)
    ensures
        scan_lines(st, a + b) == scan_lines(scan_lines(st, a), b),
    decreases a.len(),
{
    if a.len() == 0 {
        assert(a + b =~= b);
    } else {
        assert((a + b)[0] == a[0]);
        assert((a + b).drop_first() =~= a.drop_first() + b);
        lemma_scan_append(scan_line(st, a[0]), a.drop_first(), b);
    }
}

proof fn lemma_scan_step(st: ScanState, ls: Seq<Seq<char>>, i: int)
    requires
        0 <= i < ls.len(),
    ensures
        scan_lines(st, ls.skip(i)) == scan_lines(scan_line(st, ls[i]), ls.skip(i + 1)),
{
    assert(ls.skip(i).drop_first() =~= ls.skip(i + 1));
    assert(ls.skip(i)[0] == ls[i]);
}

proof fn lemma_scan_end(st: ScanState, ls: Seq<Seq<char>>)
    ensures
        scan_lines(st, ls.skip(ls.len() as int)) == st,
{
    assert(ls.skip(ls.len() as int).len() == 0);
}

proof fn lemma_scan_head(st: ScanState, c: ConfigView)
    requires
        plain_text(c.version),
        plain_text(c.cache_root),
        plain_text(c.project_kind),
    ensures
        scan_lines(st, head_lines(c)) == (ScanState {
            section: "project"@,
            version: c.version,
            cache_root: c.cache_root,
            project_kind: c.project_kind,
            ..st
        }),
{
    reveal_strlit("scaffold");
    reveal_strlit("project");
    reveal_strlit("[scaffold]");
    reveal_strlit("[project]");
    reveal_strlit("version");
    reveal_strlit("cache_root");
    reveal_strlit("kind");
    let ls = head_lines(c);
    assert("[scaffold]"@ =~= seq!['['] + "scaffold"@ + seq![']']);
    assert("[project]"@ =~= seq!['['] + "project"@ + seq![']']);
    lemma_classify_section("[scaffold]"@, "scaffold"@);
    lemma_classify_section("[project]"@, "project"@);
    lemma_classify_quoted("version"@, c.version);
    lemma_classify_quoted("cache_root"@, c.cache_root);
    lemma_classify_quoted("kind"@, c.project_kind);
    lemma_classify_blank();
    let s1 = ScanState { section: "scaffold"@, ..st };
    let s2 = ScanState { version: c.version, ..s1 };
    let s3 = ScanState { cache_root: c.cache_root, ..s2 };
    let s5 = ScanState { section: "project"@, ..s3 };
    let s6 = ScanState { project_kind: c.project_kind, ..s5 };
    lemma_scan_step(st, ls, 0);
    assert(scan_line(st, ls[0]) == s1);
    lemma_scan_step(s1, ls, 1);
    assert(scan_line(s1, ls[1]) == s2);
    lemma_scan_step(s2, ls, 2);
    assert(scan_line(s2, ls[2]) == s3);
    lemma_scan_step(s3, ls, 3);
    assert(scan_line(s3, ls[3]) == s3);
    lemma_scan_step(s3, ls, 4);
    assert(scan_line(s3, ls[4]) == s5);
    lemma_scan_step(s5, ls, 5);
    assert(scan_line(s5, ls[5]) == s6);
    lemma_scan_end(s6, ls);
    assert(ls.skip(0) =~= ls);
}


proof fn lemma_quoted_simple(k: Seq<char>, v: Seq<char>)
    requires
        plain_text(v),
        forall|i: int| 0 <= i < k.len() ==> #[trigger] k[i] != '\n',
    ensures
        simple_line(quoted_entry(k, v)),
{
    reveal_strlit(" = \"");
    reveal_strlit("\"");
    lemma_escape_plain(v);
    let l = quoted_entry(k, v);
    assert(l =~= k + " = \""@ + v + "\""@);
    assert forall|j: int| 0 <= j < l.len() implies #[trigger] l[j] != '\n' by {
        if j < k.len() {
            assert(l[j] == k[j]);
        } else if j < k.len() + 4 {
        } else if j < k.len() + 4 + v.len() {
            assert(l[j] == v[j - k.len() - 4]);
        }
    }
    assert(l.last() == '"');
}

proof fn lemma_plain_simple(k: Seq<char>, w: Seq<char>)
    requires
        forall|i: int| 0 <= i < w.len() ==> #[trigger] w[i] != '\n' && w[i] != '\r',
        forall|i: int| 0 <= i < k.len() ==> #[trigger] k[i] != '\n',
        w.len() > 0,
    ensures
        simple_line(plain_entry(k, w)),
{
    reveal_strlit(" = ");
    let l = plain_entry(k, w);
    assert(l =~= k + " = "@ + w);
    assert forall|j: int| 0 <= j < l.len() implies #[trigger] l[j] != '\n' by {
        if j < k.len() {
            assert(l[j] == k[j]);
        } else if j < k.len() + 3 {
        } else {
            assert(l[j] == w[j - k.len() - 3]);
        }
    }
    assert(l.last() == w[w.len() - 1]);
}

proof fn lemma_blank_simple()
    ensures
        simple_line(Seq::empty()),
{
}

proof fn lemma_head_simple(c: ConfigView)
    requires
        plain_text(c.version),
        plain_text(c.cache_root),
        plain_text(c.project_kind),
    ensures
        simple_lines(head_lines(c)),
{
    reveal_strlit("[scaffold]");
    reveal_strlit("[project]");
    reveal_strlit("version");
    reveal_strlit("cache_root");
    reveal_strlit("kind");
    lemma_quoted_simple("version"@, c.version);
    lemma_quoted_simple("cache_root"@, c.cache_root);
    lemma_quoted_simple("kind"@, c.project_kind);
    let ls = head_lines(c);
    assert(simple_line("[scaffold]"@));
    assert(simple_line("[project]"@));
    assert forall|i: int| 0 <= i < ls.len() implies #[trigger] simple_line(ls[i]) by {
        if i == 3 {
            lemma_blank_simple();
        }
    }
}

proof fn lemma_repo_simple(header: Seq<char>, r: RepoRefView)
    requires
        plain_repo(r),
        simple_line(header),
    ensures
        simple_lines(repo_lines(header, r)),
{
    reveal_strlit("url");
    reveal_strlit("source");
    reveal_strlit("path");
    reveal_strlit("pin");
    lemma_quoted_simple("url"@, r.url);
    lemma_quoted_simple("source"@, r.source);
    lemma_quoted_simple("path"@, r.path);
    lemma_quoted_simple("pin"@, r.pin);
    let ls = repo_lines(header, r);
    assert forall|i: int| 0 <= i < ls.len() implies #[trigger] simple_line(ls[i]) by {
        if i == 0 {
            lemma_blank_simple();
        }
    }
}

proof fn lemma_tail_simple(c: ConfigView)
    requires
        plain_text(c.wallet_home_dir),
        plain_text(c.framework_kind),
        plain_text(c.framework_version),
        plain_text(c.framework_idl_spec),
        plain_text(c.framework_idl_path),
        plain_text(c.basecamp_data_root),
        plain_text(c.basecamp_runtime_variant),
    ensures
        simple_lines(tail_lines(c)),
{
    reveal_strlit("[wallet]");
    reveal_strlit("[framework]");
    reveal_strlit("[framework.idl]");
    reveal_strlit("[localnet]");
    reveal_strlit("[basecamp]");
    reveal_strlit("home_dir");
    reveal_strlit("kind");
    reveal_strlit("version");
    reveal_strlit("spec");
    reveal_strlit("path");
    reveal_strlit("port");
    reveal_strlit("risc0_dev_mode");
    reveal_strlit("data_root");
    reveal_strlit("runtime_variant");
    lemma_quoted_simple("home_dir"@, c.wallet_home_dir);
    lemma_quoted_simple("kind"@, c.framework_kind);
    lemma_quoted_simple("version"@, c.framework_version);
    lemma_quoted_simple("spec"@, c.framework_idl_spec);
    lemma_quoted_simple("path"@, c.framework_idl_path);
    lemma_quoted_simple("data_root"@, c.basecamp_data_root);
    lemma_quoted_simple("runtime_variant"@, c.basecamp_runtime_variant);
    let d = decimal(c.localnet_port as nat);
    lemma_decimal_digits(c.localnet_port as nat);
    assert forall|i: int| 0 <= i < d.len() implies #[trigger] d[i] != '\n' && d[i] != '\r' by {
        assert(is_digit(d[i]));
    }
    lemma_plain_simple("port"@, d);
    let b = bool_text(c.localnet_risc0_dev_mode);
    lemma_plain_simple("risc0_dev_mode"@, b);
    let ls = tail_lines(c);
    assert(simple_line("[wallet]"@));
    assert(simple_line("[framework]"@));
    assert(simple_line("[framework.idl]"@));
    assert(simple_line("[localnet]"@));
    assert(simple_line("[basecamp]"@));
    assert forall|i: int| 0 <= i < ls.len() implies #[trigger] simple_line(ls[i]) by {
        if i == 0 || i == 3 || i == 7 || i == 11 || i == 15 {
            lemma_blank_simple();
        }
    }
}

proof fn lemma_simple_append(a: Seq<Seq<char>>, b: Seq<Seq<char>>)
    requires
        simple_lines(a),
        simple_lines(b),
    ensures
        simple_lines(a + b),
{
    assert forall|i: int| 0 <= i < (a + b).len() implies #[trigger] simple_line((a + b)[i]) by {
        if i < a.len() {
            assert(simple_line(a[i]));
        } else {
            assert(simple_line(b[i - a.len()]));
        }
    }
}

pub open spec fn after_repo_lez(st: ScanState, r: RepoRefView) -> ScanState {
    ScanState {
        section: "repos.lez"@,
        lez_url: r.url,
        lez_source: r.source,
        lez_path: r.path,
        lez_pin: r.pin,
        ..st
    }
}

pub open spec fn after_repo_mb(st: ScanState, r: RepoRefView) -> ScanState {
    ScanState {
        section: "repos.logos_module_builder"@,
        mb_url: r.url,
        mb_source: r.source,
        mb_path: r.path,
        mb_pin: r.pin,
        ..st
    }
}

proof fn lemma_scan_lez(st: ScanState, r: RepoRefView)
    requires
        plain_repo(r),
    ensures
        scan_lines(st, repo_lines("[repos.lez]"@, r)) == after_repo_lez(st, r),
{
    reveal_strlit("scaffold");
    reveal_strlit("project");
    reveal_strlit("repos.lez");
    reveal_strlit("[repos.lez]");
    reveal_strlit("url");
    reveal_strlit("source");
    reveal_strlit("path");
    reveal_strlit("pin");
    assert("[repos.lez]"@ =~= seq!['['] + "repos.lez"@ + seq![']']);
    lemma_classify_section("[repos.lez]"@, "repos.lez"@);
    lemma_classify_blank();
    lemma_classify_quoted("url"@, r.url);
    lemma_classify_quoted("source"@, r.source);
    lemma_classify_quoted("path"@, r.path);
    lemma_classify_quoted("pin"@, r.pin);
    let ls = repo_lines("[repos.lez]"@, r);
    let s1 = ScanState { section: "repos.lez"@, ..st };
    let s2 = ScanState { lez_url: r.url, ..s1 };
    let s3 = ScanState { lez_source: r.source, ..s2 };
    let s4 = ScanState { lez_path: r.path, ..s3 };
    let s5 = ScanState { lez_pin: r.pin, ..s4 };
    lemma_scan_step(st, ls, 0);
    assert(scan_line(st, ls[0]) == st);
    lemma_scan_step(st, ls, 1);
    assert(scan_line(st, ls[1]) == s1);
    lemma_scan_step(s1, ls, 2);
    assert(scan_line(s1, ls[2]) == s2);
    lemma_scan_step(s2, ls, 3);
    assert(scan_line(s2, ls[3]) == s3);
    lemma_scan_step(s3, ls, 4);
    assert(scan_line(s3, ls[4]) == s4);
    lemma_scan_step(s4, ls, 5);
    assert(scan_line(s4, ls[5]) == s5);
    lemma_scan_end(s5, ls);
    assert(ls.skip(0) =~= ls);
}

proof fn lemma_scan_mb(st: ScanState, r: RepoRefView)
    requires
        plain_repo(r),
    ensures
        scan_lines(st, repo_lines("[repos.logos_module_builder]"@, r)) == after_repo_mb(st, r),
{
    reveal_strlit("scaffold");
    reveal_strlit("project");
    reveal_strlit("repos.lez");
    reveal_strlit("repos.lssa");
    reveal_strlit("repos.logos_module_builder");
    reveal_strlit("[repos.logos_module_builder]");
    reveal_strlit("url");
    reveal_strlit("source");
    reveal_strlit("path");
    reveal_strlit("pin");
    assert("[repos.logos_module_builder]"@ =~= seq!['['] + "repos.logos_module_builder"@ + seq![
        ']',
    ]);
    lemma_classify_section("[repos.logos_module_builder]"@, "repos.logos_module_builder"@);
    lemma_classify_blank();
    lemma_classify_quoted("url"@, r.url);
    lemma_classify_quoted("source"@, r.source);
    lemma_classify_quoted("path"@, r.path);
    lemma_classify_quoted("pin"@, r.pin);
    let ls = repo_lines("[repos.logos_module_builder]"@, r);
    let s1 = ScanState { section: "repos.logos_module_builder"@, ..st };
    let s2 = ScanState { mb_url: r.url, ..s1 };
    let s3 = ScanState { mb_source: r.source, ..s2 };
    let s4 = ScanState { mb_path: r.path, ..s3 };
    let s5 = ScanState { mb_pin: r.pin, ..s4 };
    lemma_scan_step(st, ls, 0);
    assert(scan_line(st, ls[0]) == st);
    lemma_scan_step(st, ls, 1);
    assert(scan_line(st, ls[1]) == s1);
    lemma_scan_step(s1, ls, 2);
    assert(scan_line(s1, ls[2]) == s2);
    lemma_scan_step(s2, ls, 3);
    assert(scan_line(s2, ls[3]) == s3);
    lemma_scan_step(s3, ls, 4);
    assert(scan_line(s3, ls[4]) == s4);
    lemma_scan_step(s4, ls, 5);
    assert(scan_line(s4, ls[5]) == s5);
    lemma_scan_end(s5, ls);
    assert(ls.skip(0) =~= ls);
}

pub open spec fn after_tail_a(st: ScanState, c: ConfigView) -> ScanState {
    ScanState {
        section: "framework.idl"@,
        wallet_home_dir: c.wallet_home_dir,
        framework_kind: c.framework_kind,
        framework_version: c.framework_version,
        idl_spec: c.framework_idl_spec,
        idl_path: c.framework_idl_path,
        ..st
    }
}

pub open spec fn after_tail_b(st: ScanState, c: ConfigView) -> ScanState {
    ScanState {
        section: "basecamp"@,
        port: c.localnet_port,
        risc0_dev_mode: c.localnet_risc0_dev_mode,
        data_root: c.basecamp_data_root,
        runtime_variant: c.basecamp_runtime_variant,
        ..st
    }
}

proof fn lemma_scan_tail_a(st: ScanState, c: ConfigView)
    requires
        plain_text(c.wallet_home_dir),
        plain_text(c.framework_kind),
        plain_text(c.framework_version),
        plain_text(c.framework_idl_spec),
        plain_text(c.framework_idl_path),
    ensures
        scan_lines(st, tail_lines(c)) == scan_lines(after_tail_a(st, c), tail_lines(c).skip(11)),
{
    reveal_strlit("scaffold");
    reveal_strlit("project");
    reveal_strlit("repos.lez");
    reveal_strlit("repos.lssa");
    reveal_strlit("repos.logos_module_builder");
    reveal_strlit("framework");
    reveal_strlit("framework.idl");
    reveal_strlit("wallet");
    reveal_strlit("[wallet]");
    reveal_strlit("[framework]");
    reveal_strlit("[framework.idl]");
    reveal_strlit("home_dir");
    reveal_strlit("kind");
    reveal_strlit("version");
    reveal_strlit("spec");
    reveal_strlit("path");
    assert("[wallet]"@ =~= seq!['['] + "wallet"@ + seq![']']);
    assert("[framework]"@ =~= seq!['['] + "framework"@ + seq![']']);
    assert("[framework.idl]"@ =~= seq!['['] + "framework.idl"@ + seq![']']);
    lemma_classify_section("[wallet]"@, "wallet"@);
    lemma_classify_section("[framework]"@, "framework"@);
    lemma_classify_section("[framework.idl]"@, "framework.idl"@);
    lemma_classify_blank();
    assert("framework"@ != "repos.lez"@) by {
        assert("framework"@[0] != "repos.lez"@[0]);
    }
    lemma_classify_quoted("home_dir"@, c.wallet_home_dir);
    lemma_classify_quoted("kind"@, c.framework_kind);
    lemma_classify_quoted("version"@, c.framework_version);
    lemma_classify_quoted("spec"@, c.framework_idl_spec);
    lemma_classify_quoted("path"@, c.framework_idl_path);
    let ls = tail_lines(c);
    let s1 = ScanState { section: "wallet"@, ..st };
    let s2 = ScanState { wallet_home_dir: c.wallet_home_dir, ..s1 };
    let s4 = ScanState { section: "framework"@, ..s2 };
    let s5 = ScanState { framework_kind: c.framework_kind, ..s4 };
    let s6 = ScanState { framework_version: c.framework_version, ..s5 };
    let s8 = ScanState { section: "framework.idl"@, ..s6 };
    let s9 = ScanState { idl_spec: c.framework_idl_spec, ..s8 };
    let s10 = ScanState { idl_path: c.framework_idl_path, ..s9 };
    lemma_scan_step(st, ls, 0);
    assert(scan_line(st, ls[0]) == st);
    lemma_scan_step(st, ls, 1);
    assert(scan_line(st, ls[1]) == s1);
    lemma_scan_step(s1, ls, 2);
    assert(scan_line(s1, ls[2]) == s2);
    lemma_scan_step(s2, ls, 3);
    assert(scan_line(s2, ls[3]) == s2);
    lemma_scan_step(s2, ls, 4);
    assert(scan_line(s2, ls[4]) == s4);
    lemma_scan_step(s4, ls, 5);
    assert(scan_line(s4, ls[5]) == s5);
    lemma_scan_step(s5, ls, 6);
    assert(scan_line(s5, ls[6]) == s6);
    lemma_scan_step(s6, ls, 7);
    assert(scan_line(s6, ls[7]) == s6);
    lemma_scan_step(s6, ls, 8);
    assert(scan_line(s6, ls[8]) == s8);
    lemma_scan_step(s8, ls, 9);
    assert(scan_line(s8, ls[9]) == s9);
    lemma_scan_step(s9, ls, 10);
    assert(scan_line(s9, ls[10]) == s10);
    assert(ls.skip(0) =~= ls);
    assert(s10 == after_tail_a(st, c));
}

proof fn lemma_scan_tail_b(st: ScanState, c: ConfigView)
    requires
        plain_text(c.basecamp_data_root),
        plain_text(c.basecamp_runtime_variant),
    ensures
        scan_lines(st, tail_lines(c).skip(11)) == after_tail_b(st, c),
{
    reveal_strlit("scaffold");
    reveal_strlit("project");
    reveal_strlit("repos.lez");
    reveal_strlit("repos.lssa");
    reveal_strlit("repos.logos_module_builder");
    reveal_strlit("framework");
    reveal_strlit("framework.idl");
    reveal_strlit("wallet");
    reveal_strlit("localnet");
    reveal_strlit("basecamp");
    reveal_strlit("[localnet]");
    reveal_strlit("[basecamp]");
    reveal_strlit("port");
    reveal_strlit("risc0_dev_mode");
    reveal_strlit("data_root");
    reveal_strlit("runtime_variant");
    reveal_strlit("false");
    reveal_strlit("0");
    assert("[localnet]"@ =~= seq!['['] + "localnet"@ + seq![']']);
    assert("[basecamp]"@ =~= seq!['['] + "basecamp"@ + seq![']']);
    lemma_classify_section("[localnet]"@, "localnet"@);
    lemma_classify_section("[basecamp]"@, "basecamp"@);
    lemma_classify_blank();
    let d = decimal(c.localnet_port as nat);
    lemma_decimal_digits(c.localnet_port as nat);
    lemma_parse_decimal(c.localnet_port);
    assert(is_digit(d[0]) && is_digit(d[d.len() - 1]));
    lemma_classify_plain("port"@, d);
    let b = bool_text(c.localnet_risc0_dev_mode);
    lemma_classify_plain("risc0_dev_mode"@, b);
    assert((b != "false"@ && b != "0"@) == c.localnet_risc0_dev_mode) by {
        if c.localnet_risc0_dev_mode {
            assert(b.len() == 4);
        } else {
            assert(b =~= "false"@);
        }
    }
    assert("localnet"@ != "scaffold"@) by {
        assert("localnet"@[0] != "scaffold"@[0]);
    }
    assert("basecamp"@ != "scaffold"@) by {
        assert("basecamp"@[0] != "scaffold"@[0]);
    }
    assert("basecamp"@ != "localnet"@) by {
        assert("basecamp"@[0] != "localnet"@[0]);
    }
    assert("framework"@ != "repos.lez"@) by {
        assert("framework"@[0] != "repos.lez"@[0]);
    }
    lemma_classify_quoted("data_root"@, c.basecamp_data_root);
    lemma_classify_quoted("runtime_variant"@, c.basecamp_runtime_variant);
    let ls = tail_lines(c);
    let s12 = ScanState { section: "localnet"@, ..st };
    let s13 = ScanState { port: c.localnet_port, ..s12 };
    let s14 = ScanState { risc0_dev_mode: c.localnet_risc0_dev_mode, ..s13 };
    let s16 = ScanState { section: "basecamp"@, ..s14 };
    let s17 = ScanState { data_root: c.basecamp_data_root, ..s16 };
    let s18 = ScanState { runtime_variant: c.basecamp_runtime_variant, ..s17 };
    lemma_scan_step(st, ls, 11);
    assert(scan_line(st, ls[11]) == st);
    lemma_scan_step(st, ls, 12);
    assert(scan_line(st, ls[12]) == s12);
    lemma_scan_step(s12, ls, 13);
    assert(scan_line(s12, ls[13]) == s13);
    lemma_scan_step(s13, ls, 14);
    assert(scan_line(s13, ls[14]) == s14);
    lemma_scan_step(s14, ls, 15);
    assert(scan_line(s14, ls[15]) == s14);
    lemma_scan_step(s14, ls, 16);
    assert(scan_line(s14, ls[16]) == s16);
    lemma_scan_step(s16, ls, 17);
    assert(scan_line(s16, ls[17]) == s17);
    lemma_scan_step(s17, ls, 18);
    assert(scan_line(s17, ls[18]) == s18);
    lemma_scan_end(s18, ls);
    assert(s18 == after_tail_b(st, c));
}

proof fn lemma_scan_empty(st: ScanState)
    ensures
        scan_lines(st, Seq::empty()) == st,
{
}

/// Reading the lines that the writer produces for a complete, plain
/// configuration gives that configuration.
proof fn lemma_read_config_lines(c: ConfigView)
    requires
        config_complete(c),
        config_plain(c),
    ensures
        finish_scan(scan_lines(initial_scan(), config_lines(c))) == Ok::<ConfigView, ConfigError>(c),
{
    let h = head_lines(c);
    let a = opt_repo_lines("[repos.lez]"@, c.lez);
    let m = opt_repo_lines("[repos.logos_module_builder]"@, c.logos_module_builder);
    let t = tail_lines(c);
    let ls = config_lines(c);
    assert(ls == h + a + m + t);
    let s0 = initial_scan();
    lemma_scan_append(s0, h + a + m, t);
    lemma_scan_append(s0, h + a, m);
    lemma_scan_append(s0, h, a);
    lemma_scan_head(s0, c);
    let s1 = scan_lines(s0, h);
    let s2 = scan_lines(s1, a);
    match c.lez {
        Some(r) => {
            lemma_scan_lez(s1, r);
        },
        None => {
            lemma_scan_empty(s1);
        },
    }
    let s3 = scan_lines(s2, m);
    match c.logos_module_builder {
        Some(r) => {
            lemma_scan_mb(s2, r);
        },
        None => {
            lemma_scan_empty(s2);
        },
    }
    lemma_scan_tail_a(s3, c);
    lemma_scan_tail_b(after_tail_a(s3, c), c);
    let fin = after_tail_b(after_tail_a(s3, c), c);
    assert(scan_lines(s0, ls) == fin);
    assert(finish_scan(fin) == Ok::<ConfigView, ConfigError>(c));
}

/// Writing a complete configuration whose values are plain text and reading
/// the text back gives the same configuration.
pub proof fn lemma_serialize_parse_roundtrip(c: ConfigView)
    requires
        config_complete(c),
        config_plain(c),
    ensures
        parse_config_spec(serialize_config_spec(c)) == Ok::<ConfigView, ConfigError>(c),
{
    let h = head_lines(c);
    let a = opt_repo_lines("[repos.lez]"@, c.lez);
    let m = opt_repo_lines("[repos.logos_module_builder]"@, c.logos_module_builder);
    let t = tail_lines(c);
    lemma_head_simple(c);
    reveal_strlit("[repos.lez]");
    reveal_strlit("[repos.logos_module_builder]");
    match c.lez {
        Some(r) => {
            assert(simple_line("[repos.lez]"@));
            lemma_repo_simple("[repos.lez]"@, r);
        },
        None => {},
    }
    match c.logos_module_builder {
        Some(r) => {
            assert(simple_line("[repos.logos_module_builder]"@));
            lemma_repo_simple("[repos.logos_module_builder]"@, r);
        },
        None => {},
    }
    lemma_tail_simple(c);
    lemma_simple_append(h, a);
    lemma_simple_append(h + a, m);
    lemma_simple_append(h + a + m, t);
    let ls = config_lines(c);
    assert(ls == h + a + m + t);
    lemma_text_lines_join(ls);
    lemma_read_config_lines(c);
}

/// Whatever the reader accepts is complete.
pub proof fn lemma_parsed_config_complete(text: Seq<char>)
    ensures
        parse_config_spec(text) matches Ok(c) ==> config_complete(c),
{
    reveal_strlit("lez");
    reveal_strlit("https://github.com/logos-blockchain/lssa.git");
    reveal_strlit(".scaffold/wallet");
    reveal_strlit("default");
    reveal_strlit("0.1.0");
    reveal_strlit("lssa-idl/0.1.0");
    reveal_strlit("idl");
    reveal_strlit(".scaffold/runtime/LogosBasecamp");
    reveal_strlit("dev");
}

/// Reading a text, writing what was read and reading that again gives the
/// same configuration, provided its values are plain text.
pub proof fn lemma_parse_serialize_stable(text: Seq<char>)
    requires
        parse_config_spec(text) matches Ok(c) && config_plain(c),
    ensures
        parse_config_spec(text) matches Ok(c) && parse_config_spec(serialize_config_spec(c))
            == Ok::<ConfigView, ConfigError>(c),
{
    lemma_parsed_config_complete(text);
    let c = parse_config_spec(text)->Ok_0;
    lemma_serialize_parse_roundtrip(c);
}

// ---------------------------------------------------------------------------
// Lines that do not matter
// ---------------------------------------------------------------------------
/// What a list of lines means (`parse_config_spec` of a text is this of the
/// text's lines).
pub open spec fn parse_lines_spec(lines: Seq<Seq<char>>) -> Result<ConfigView, ConfigError> {
    finish_scan(scan_lines(initial_scan(), lines))
}

/// The sections whose entries the reader takes.
pub open spec fn known_section(n: Seq<char>) -> bool {
    ||| n == "scaffold"@
    ||| n == "project"@
    ||| n == "repos.lez"@
    ||| n == "repos.lssa"@
    ||| n == "repos.logos_module_builder"@
    ||| n == "framework"@
    ||| n == "framework.idl"@
    ||| n == "wallet"@
    ||| n == "localnet"@
    ||| n == "basecamp"@
}

/// Two reader states that differ at most in the current section.
pub open spec fn same_but_section(a: ScanState, b: ScanState) -> bool {
    ScanState { section: b.section, ..a } == b
}

proof fn lemma_finish_ignores_section(a: ScanState, b: ScanState)
    requires
        same_but_section(a, b),
    ensures
        finish_scan(a) == finish_scan(b),
{
}

proof fn lemma_entry_in_unknown_section(st: ScanState, k: Seq<char>, v: Seq<char>)
    requires
        !known_section(st.section),
    ensures
        assign_entry(st, k, v) == st,
{
}

proof fn lemma_scan_unknown_tail(st: ScanState, tail: Seq<Seq<char>>)
    requires
        !known_section(st.section),
        forall|i: int| 0 <= i < tail.len() ==> (#[trigger] classify_line(tail[i]) matches LineKind::Section(n) ==> !known_section(n)),
    ensures
        same_but_section(st, scan_lines(st, tail)),
        !known_section(scan_lines(st, tail).section),
    decreases tail.len(),
{
    if tail.len() > 0 {
        let l = tail[0];
        assert(classify_line(tail[0]) matches LineKind::Section(n) ==> !known_section(n));
        let s1 = scan_line(st, l);
        match classify_line(l) {
            LineKind::Entry(k, v) => {
                lemma_entry_in_unknown_section(st, k, v);
            },
            _ => {},
        }
        let rest = tail.drop_first();
        assert forall|i: int| 0 <= i < rest.len() implies (#[trigger] classify_line(rest[i]) matches LineKind::Section(n) ==> !known_section(n)) by {
            assert(rest[i] == tail[i + 1]);
            assert(classify_line(tail[i + 1]) matches LineKind::Section(n) ==> !known_section(n));
        }
        lemma_scan_unknown_tail(s1, rest);
    }
}

/// A blank line or a comment line anywhere in a text changes nothing.
pub proof fn lemma_skip_line_ignored(text1: Seq<char>, text2: Seq<char>, a: Seq<Seq<char>>, l: Seq<char>, b: Seq<Seq<char>>)
    requires
        text_lines(text1) == a + b,
        text_lines(text2) == a + seq![l] + b,
        classify_line(l) == LineKind::Skip,
    ensures
        parse_config_spec(text2) == parse_config_spec(text1),
{
    let s0 = initial_scan();
    lemma_scan_append(s0, a + seq![l], b);
    lemma_scan_append(s0, a, seq![l]);
    lemma_scan_append(s0, a, b);
    let sa = scan_lines(s0, a);
    assert(seq![l].drop_first() =~= Seq::<Seq<char>>::empty());
    assert(scan_lines(sa, seq![l]) == scan_lines(scan_line(sa, l), Seq::<Seq<char>>::empty()));
}

/// Entries before the first section header (and blank or comment lines
/// there) belong to no section and change nothing.
pub proof fn lemma_leading_entries_ignored(text1: Seq<char>, text2: Seq<char>, pre: Seq<Seq<char>>)
    requires
        text_lines(text2) == pre + text_lines(text1),
        forall|i: int| 0 <= i < pre.len() ==> !(#[trigger] classify_line(pre[i]) is Section),
    ensures
        parse_config_spec(text2) == parse_config_spec(text1),
{
    reveal_strlit("scaffold");
    reveal_strlit("project");
    reveal_strlit("repos.lez");
    reveal_strlit("repos.lssa");
    reveal_strlit("repos.logos_module_builder");
    reveal_strlit("framework");
    reveal_strlit("framework.idl");
    reveal_strlit("wallet");
    reveal_strlit("localnet");
    reveal_strlit("basecamp");
    let s0 = initial_scan();
    assert("scaffold"@.len() > 0 && "project"@.len() > 0 && "repos.lez"@.len() > 0);
    assert("repos.lssa"@.len() > 0 && "repos.logos_module_builder"@.len() > 0);
    assert("framework"@.len() > 0 && "framework.idl"@.len() > 0 && "wallet"@.len() > 0);
    assert("localnet"@.len() > 0 && "basecamp"@.len() > 0);
    assert(!known_section(s0.section));
    assert forall|i: int| 0 <= i < pre.len() implies (#[trigger] classify_line(pre[i]) matches LineKind::Section(n) ==> !known_section(n)) by {
        assert(!(classify_line(pre[i]) is Section));
    }
    lemma_scan_unknown_tail(s0, pre);
    let s1 = scan_lines(s0, pre);
    assert(s1.section == s0.section) by {
        lemma_scan_no_sections_keeps_section(s0, pre);
    }
    assert(s1 == s0);
    lemma_scan_append(s0, pre, text_lines(text1));
}

proof fn lemma_scan_no_sections_keeps_section(st: ScanState, ls: Seq<Seq<char>>)
    requires
        forall|i: int| 0 <= i < ls.len() ==> !(#[trigger] classify_line(ls[i]) is Section),
        !known_section(st.section),
    ensures
        scan_lines(st, ls).section == st.section,
    decreases ls.len(),
{
    if ls.len() > 0 {
        assert(!(classify_line(ls[0]) is Section));
        match classify_line(ls[0]) {
            LineKind::Entry(k, v) => {
                lemma_entry_in_unknown_section(st, k, v);
            },
            _ => {},
        }
        let rest = ls.drop_first();
        assert forall|i: int| 0 <= i < rest.len() implies !(#[trigger] classify_line(rest[i]) is Section) by {
            assert(rest[i] == ls[i + 1]);
            assert(!(classify_line(ls[i + 1]) is Section));
        }
        lemma_scan_no_sections_keeps_section(scan_line(st, ls[0]), rest);
    }
}

/// A section the reader does not know, appended at the end of a text with
/// any lines under it that open no known section, changes nothing.
pub proof fn lemma_unknown_section_ignored(text1: Seq<char>, text2: Seq<char>, h: Seq<char>, tail: Seq<Seq<char>>)
    requires
        text_lines(text2) == text_lines(text1) + seq![h] + tail,
        classify_line(h) matches LineKind::Section(x) && !known_section(x),
        forall|i: int| 0 <= i < tail.len() ==> (#[trigger] classify_line(tail[i]) matches LineKind::Section(n) ==> !known_section(n)),
    ensures
        parse_config_spec(text2) == parse_config_spec(text1),
{
    let s0 = initial_scan();
    let ls = text_lines(text1);
    lemma_scan_append(s0, ls + seq![h], tail);
    lemma_scan_append(s0, ls, seq![h]);
    let s1 = scan_lines(s0, ls);
    assert(seq![h].drop_first() =~= Seq::<Seq<char>>::empty());
    let s2 = scan_line(s1, h);
    assert(scan_lines(s1, seq![h]) == scan_lines(s2, Seq::<Seq<char>>::empty()));
    assert(same_but_section(s1, s2));
    lemma_scan_unknown_tail(s2, tail);
    let s3 = scan_lines(s2, tail);
    assert(same_but_section(s1, s3));
    lemma_finish_ignores_section(s1, s3);
}

// ---------------------------------------------------------------------------
// The legacy section name
// ---------------------------------------------------------------------------
/// The line with a legacy `[repos.lssa]` header written as `[repos.lez]`.
pub open spec fn legacy_to_lez(l: Seq<char>) -> Seq<char> {
    if trim(l) == "[repos.lssa]"@ {
        "[repos.lez]"@
    } else {
        l
    }
}

/// `a` and `b` agree but for the current section, which is the same or is
/// `repos.lssa` in `a` where it is `repos.lez` in `b`.
pub open spec fn legacy_related(a: ScanState, b: ScanState) -> bool {
    same_but_section(a, b) && (a.section == b.section || (a.section == "repos.lssa"@
        && b.section == "repos.lez"@))
}

proof fn lemma_legacy_step(a: ScanState, b: ScanState, l: Seq<char>)
    requires
        legacy_related(a, b),
    ensures
        legacy_related(scan_line(a, l), scan_line(b, legacy_to_lez(l))),
{
    reveal_strlit("scaffold");
    reveal_strlit("project");
    reveal_strlit("repos.lez");
    reveal_strlit("repos.lssa");
    reveal_strlit("[repos.lez]");
    reveal_strlit("[repos.lssa]");
    if trim(l) == "[repos.lssa]"@ {
        let t = trim(l);
        assert(t[0] == '[' && t.last() == ']');
        assert(t.subrange(1, t.len() - 1) =~= "repos.lssa"@);
        assert(classify_line(l) == LineKind::Section("repos.lssa"@));
        assert("[repos.lez]"@ =~= seq!['['] + "repos.lez"@ + seq![']']);
        lemma_classify_section("[repos.lez]"@, "repos.lez"@);
    } else {
        match classify_line(l) {
            LineKind::Entry(k, v) => {
                assert("repos.lssa"@.len() == 10 && "repos.lez"@.len() == 9);
                assert("scaffold"@.len() == 8 && "project"@.len() == 7);
                assert(legacy_related(assign_entry(a, k, v), assign_entry(b, k, v)));
            },
            _ => {},
        }
    }
}

proof fn lemma_legacy_scan(a: ScanState, b: ScanState, ls: Seq<Seq<char>>)
    requires
        legacy_related(a, b),
    ensures
        legacy_related(
            scan_lines(a, ls),
            scan_lines(b, ls.map_values(|l: Seq<char>| legacy_to_lez(l))),
        ),
    decreases ls.len(),
{
    if ls.len() > 0 {
        let m = ls.map_values(|l: Seq<char>| legacy_to_lez(l));
        lemma_legacy_step(a, b, ls[0]);
        assert(m[0] == legacy_to_lez(ls[0]));
        assert(m.drop_first() =~= ls.drop_first().map_values(|l: Seq<char>| legacy_to_lez(l)));
        lemma_legacy_scan(scan_line(a, ls[0]), scan_line(b, m[0]), ls.drop_first());
    }
}

/// The legacy section header `[repos.lssa]` is read exactly as
/// `[repos.lez]`: writing each such header line as `[repos.lez]` changes
/// nothing.
pub proof fn lemma_legacy_section_alias(text1: Seq<char>, text2: Seq<char>)
    requires
        text_lines(text2) == text_lines(text1).map_values(|l: Seq<char>| legacy_to_lez(l)),
    ensures
        parse_config_spec(text2) == parse_config_spec(text1),
{
    let s0 = initial_scan();
    lemma_legacy_scan(s0, s0, text_lines(text1));
    lemma_finish_ignores_section(
        scan_lines(s0, text_lines(text1)),
        scan_lines(s0, text_lines(text2)),
    );
}

// ---------------------------------------------------------------------------
// Each key goes to its own field
// ---------------------------------------------------------------------------
proof fn lemma_quoted_as(prefix: Seq<char>, key: Seq<char>, v: Seq<char>)
    requires
        prefix == key + " = \""@,
        plain_text(v),
    ensures
        prefix + v + "\""@ == quoted_entry(key, v),
{
    lemma_escape_plain(v);
    assert(prefix + v + "\""@ =~= key + " = \""@ + escape_spec(v) + "\""@);
}

/// A text that gives every section and every key, each value written in
/// double quotes on its own line (the port and the dev-mode flag unquoted),
/// reads as the configuration with exactly those values: each key's value
/// lands in that key's field, for the repositories as for everything else.
pub proof fn lemma_reader_takes_each_key(
    text: Seq<char>,
    c: ConfigView,
    lez: RepoRefView,
    mb: RepoRefView,
)
    requires
        config_complete(c),
        config_plain(c),
        c.lez == Some(lez),
        c.logos_module_builder == Some(mb),
        text_lines(text) == seq![
            "[scaffold]"@,
            "version = \""@ + c.version + "\""@,
            "cache_root = \""@ + c.cache_root + "\""@,
            Seq::empty(),
            "[project]"@,
            "kind = \""@ + c.project_kind + "\""@,
        ] + seq![
            Seq::empty(),
            "[repos.lez]"@,
            "url = \""@ + lez.url + "\""@,
            "source = \""@ + lez.source + "\""@,
            "path = \""@ + lez.path + "\""@,
            "pin = \""@ + lez.pin + "\""@,
        ] + seq![
            Seq::empty(),
            "[repos.logos_module_builder]"@,
            "url = \""@ + mb.url + "\""@,
            "source = \""@ + mb.source + "\""@,
            "path = \""@ + mb.path + "\""@,
            "pin = \""@ + mb.pin + "\""@,
        ] + seq![
            Seq::empty(),
            "[wallet]"@,
            "home_dir = \""@ + c.wallet_home_dir + "\""@,
            Seq::empty(),
            "[framework]"@,
            "kind = \""@ + c.framework_kind + "\""@,
            "version = \""@ + c.framework_version + "\""@,
            Seq::empty(),
            "[framework.idl]"@,
            "spec = \""@ + c.framework_idl_spec + "\""@,
            "path = \""@ + c.framework_idl_path + "\""@,
            Seq::empty(),
            "[localnet]"@,
            "port = "@ + decimal(c.localnet_port as nat),
            "risc0_dev_mode = "@ + bool_text(c.localnet_risc0_dev_mode),
            Seq::empty(),
            "[basecamp]"@,
            "data_root = \""@ + c.basecamp_data_root + "\""@,
            "runtime_variant = \""@ + c.basecamp_runtime_variant + "\""@,
        ],
    ensures
        parse_config_spec(text) == Ok::<ConfigView, ConfigError>(c),
{
    reveal_strlit(" = \"");
    reveal_strlit(" = ");
    reveal_strlit("version");
    reveal_strlit("version = \"");
    reveal_strlit("cache_root");
    reveal_strlit("cache_root = \"");
    reveal_strlit("kind");
    reveal_strlit("kind = \"");
    reveal_strlit("url");
    reveal_strlit("url = \"");
    reveal_strlit("source");
    reveal_strlit("source = \"");
    reveal_strlit("path");
    reveal_strlit("path = \"");
    reveal_strlit("pin");
    reveal_strlit("pin = \"");
    reveal_strlit("home_dir");
    reveal_strlit("home_dir = \"");
    reveal_strlit("spec");
    reveal_strlit("spec = \"");
    reveal_strlit("port");
    reveal_strlit("port = ");
    reveal_strlit("risc0_dev_mode");
    reveal_strlit("risc0_dev_mode = ");
    reveal_strlit("data_root");
    reveal_strlit("data_root = \"");
    reveal_strlit("runtime_variant");
    reveal_strlit("runtime_variant = \"");
    assert("version = \""@ =~= "version"@ + " = \""@);
    assert("cache_root = \""@ =~= "cache_root"@ + " = \""@);
    assert("kind = \""@ =~= "kind"@ + " = \""@);
    assert("url = \""@ =~= "url"@ + " = \""@);
    assert("source = \""@ =~= "source"@ + " = \""@);
    assert("path = \""@ =~= "path"@ + " = \""@);
    assert("pin = \""@ =~= "pin"@ + " = \""@);
    assert("home_dir = \""@ =~= "home_dir"@ + " = \""@);
    assert("spec = \""@ =~= "spec"@ + " = \""@);
    assert("port = "@ =~= "port"@ + " = "@);
    assert("risc0_dev_mode = "@ =~= "risc0_dev_mode"@ + " = "@);
    assert("data_root = \""@ =~= "data_root"@ + " = \""@);
    assert("runtime_variant = \""@ =~= "runtime_variant"@ + " = \""@);
    lemma_quoted_as("version = \""@, "version"@, c.version);
    lemma_quoted_as("cache_root = \""@, "cache_root"@, c.cache_root);
    lemma_quoted_as("kind = \""@, "kind"@, c.project_kind);
    lemma_quoted_as("url = \""@, "url"@, lez.url);
    lemma_quoted_as("source = \""@, "source"@, lez.source);
    lemma_quoted_as("path = \""@, "path"@, lez.path);
    lemma_quoted_as("pin = \""@, "pin"@, lez.pin);
    lemma_quoted_as("url = \""@, "url"@, mb.url);
    lemma_quoted_as("source = \""@, "source"@, mb.source);
    lemma_quoted_as("path = \""@, "path"@, mb.path);
    lemma_quoted_as("pin = \""@, "pin"@, mb.pin);
    lemma_quoted_as("home_dir = \""@, "home_dir"@, c.wallet_home_dir);
    lemma_quoted_as("kind = \""@, "kind"@, c.framework_kind);
    lemma_quoted_as("version = \""@, "version"@, c.framework_version);
    lemma_quoted_as("spec = \""@, "spec"@, c.framework_idl_spec);
    lemma_quoted_as("path = \""@, "path"@, c.framework_idl_path);
    lemma_quoted_as("data_root = \""@, "data_root"@, c.basecamp_data_root);
    lemma_quoted_as("runtime_variant = \""@, "runtime_variant"@, c.basecamp_runtime_variant);
    assert(text_lines(text) =~= config_lines(c));
    lemma_read_config_lines(c);
}

// ---------------------------------------------------------------------------
// Quoting
// ---------------------------------------------------------------------------
/// `unquote` removes one pair of surrounding double quotes, and leaves a
/// value that does not start with one unchanged.
pub proof fn lemma_unquote_laws(v: Seq<char>)
    ensures
        unquote_spec(seq!['"'] + v + seq!['"']) == v,
        (v.len() == 0 || v[0] != '"') ==> unquote_spec(v) == v,
{
    let q = seq!['"'] + v + seq!['"'];
    assert(q[0] == '"');
    assert(q.last() == '"');
    assert(q.subrange(1, q.len() - 1) =~= v);
}

/// Escaping works character by character: it distributes over
/// concatenation, writes a backslash as two backslashes and a double quote
/// as a backslash and a double quote, and keeps every other character.
pub proof fn lemma_escape_laws(a: Seq<char>, b: Seq<char>, c: char)
    ensures
        escape_spec(a + b) == escape_spec(a) + escape_spec(b),
        escape_spec(seq!['\\']) == seq!['\\', '\\'],
        escape_spec(seq!['"']) == seq!['\\', '"'],
        c != '\\' && c != '"' ==> escape_spec(seq![c]) == seq![c],
    decreases b.len(),
{
    if b.len() == 0 {
        assert(a + b =~= a);
        assert(escape_spec(a) + escape_spec(b) =~= escape_spec(a));
    } else {
        assert((a + b).drop_last() =~= a + b.drop_last());
        assert((a + b).last() == b.last());
        lemma_escape_laws(a, b.drop_last(), c);
        assert(escape_spec(a) + escape_spec(b) =~= escape_spec(a) + escape_spec(b.drop_last())
            + escape_char(b.last()));
    }
    let e = Seq::<char>::empty();
    assert(escape_spec(e) == e);
    assert(seq!['\\'].drop_last() =~= e);
    assert(seq!['"'].drop_last() =~= e);
    assert(seq![c].drop_last() =~= e);
    assert(e + escape_char('\\') =~= seq!['\\', '\\']);
    assert(e + escape_char('"') =~= seq!['\\', '"']);
    assert(e + escape_char(c) =~= escape_char(c));
}

} // verus!
