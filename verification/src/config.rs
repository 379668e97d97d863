//! Reading and writing `scaffold.toml`.
//!
//! The reader understands the small TOML subset that the writer produces:
//! `[section]` headers, `key = value` lines, blank lines and `#` comments.
//! Values may be wrapped in double quotes; the quotes are removed, nothing is
//! unescaped.  Keys that a section does not know, and unknown sections, are
//! ignored; a later assignment of a key overrides an earlier one.
use vstd::prelude::*;

use crate::model::{
    BasecampConfig, Config, ConfigError, ConfigView, FrameworkConfig, FrameworkIdlConfig,
    LocalnetConfig, ProjectConfig, RepoRef, RepoRefView, BASECAMP_RUNTIME_DEV,
    DEFAULT_BASECAMP_DATA_ROOT, DEFAULT_FRAMEWORK_IDL_PATH, DEFAULT_FRAMEWORK_IDL_SPEC,
    DEFAULT_FRAMEWORK_VERSION, DEFAULT_LOCALNET_PORT, DEFAULT_WALLET_HOME_DIR,
    FRAMEWORK_KIND_DEFAULT, LEZ_URL, PROJECT_KIND_LEZ,
};
use crate::numbers::{bool_text, decimal, decimal_chars, parse_u16, parse_u16_spec};
use crate::text::{
    chars_eq_str, chars_of, find_char, find_char_in, split_lines, string_of, sub_chars,
    text_lines, trim, trim_chars, views_of,
};

verus! {

// ---------------------------------------------------------------------------
// What a text means
// ---------------------------------------------------------------------------
/// `v` without one pair of surrounding double quotes, if it has them.
pub open spec fn unquote_spec(v: Seq<char>) -> Seq<char> {
    if v.len() >= 2 && v[0] == '"' && v.last() == '"' {
        v.subrange(1, v.len() - 1)
    } else {
        v
    }
}

/// What one line of the text is.
pub enum LineKind {
    /// A blank line or a `#` comment.
    Skip,
    /// `[name]`: the entries that follow belong to `name`.
    Section(Seq<char>),
    /// `key = value` (a line without `=` is a key with an empty value).
    Entry(Seq<char>, Seq<char>),
}

pub open spec fn classify_line(raw: Seq<char>) -> LineKind {
    let line = trim(raw);
    if line.len() == 0 || line[0] == '#' {
        LineKind::Skip
    } else if line[0] == '[' && line.last() == ']' {
        LineKind::Section(line.subrange(1, line.len() - 1))
    } else {
        match find_char(line, '=') {
            Some(k) => LineKind::Entry(trim(line.take(k)), unquote_spec(trim(line.skip(k + 1)))),
            None => LineKind::Entry(line, Seq::empty()),
        }
    }
}

/// Everything the reader has gathered so far: the current section and the
/// last value seen for each key it knows.
pub struct ScanState {
    pub section: Seq<char>,
    pub version: Seq<char>,
    pub cache_root: Seq<char>,
    pub project_kind: Seq<char>,
    pub lez_url: Seq<char>,
    pub lez_source: Seq<char>,
    pub lez_path: Seq<char>,
    pub lez_pin: Seq<char>,
    pub mb_url: Seq<char>,
    pub mb_source: Seq<char>,
    pub mb_path: Seq<char>,
    pub mb_pin: Seq<char>,
    pub wallet_home_dir: Seq<char>,
    pub port: u16,
    pub risc0_dev_mode: bool,
    pub framework_kind: Seq<char>,
    pub framework_version: Seq<char>,
    pub idl_spec: Seq<char>,
    pub idl_path: Seq<char>,
    pub data_root: Seq<char>,
    pub runtime_variant: Seq<char>,
}

pub open spec fn initial_scan() -> ScanState {
    ScanState {
        section: Seq::empty(),
        version: Seq::empty(),
        cache_root: Seq::empty(),
        project_kind: Seq::empty(),
        lez_url: Seq::empty(),
        lez_source: Seq::empty(),
        lez_path: Seq::empty(),
        lez_pin: Seq::empty(),
        mb_url: Seq::empty(),
        mb_source: Seq::empty(),
        mb_path: Seq::empty(),
        mb_pin: Seq::empty(),
        wallet_home_dir: Seq::empty(),
        port: DEFAULT_LOCALNET_PORT,
        risc0_dev_mode: true,
        framework_kind: Seq::empty(),
        framework_version: Seq::empty(),
        idl_spec: Seq::empty(),
        idl_path: Seq::empty(),
        data_root: Seq::empty(),
        runtime_variant: Seq::empty(),
    }
}

/// The effect of the entry `key = value` in the current section.
pub open spec fn assign_entry(st: ScanState, key: Seq<char>, value: Seq<char>) -> ScanState {
    let sec = st.section;
    if sec == "scaffold"@ {
        if key == "version"@ {
            ScanState { version: value, ..st }
        } else if key == "cache_root"@ {
            ScanState { cache_root: value, ..st }
        } else {
            st
        }
    } else if sec == "project"@ {
        if key == "kind"@ {
            ScanState { project_kind: value, ..st }
        } else {
            st
        }
    } else if sec == "repos.lez"@ || sec == "repos.lssa"@ {
        if key == "url"@ {
            ScanState { lez_url: value, ..st }
        } else if key == "source"@ {
            ScanState { lez_source: value, ..st }
        } else if key == "path"@ {
            ScanState { lez_path: value, ..st }
        } else if key == "pin"@ {
            ScanState { lez_pin: value, ..st }
        } else {
            st
        }
    } else if sec == "repos.logos_module_builder"@ {
        if key == "url"@ {
            ScanState { mb_url: value, ..st }
        } else if key == "source"@ {
            ScanState { mb_source: value, ..st }
        } else if key == "path"@ {
            ScanState { mb_path: value, ..st }
        } else if key == "pin"@ {
            ScanState { mb_pin: value, ..st }
        } else {
            st
        }
    } else if sec == "framework"@ {
        if key == "kind"@ {
            ScanState { framework_kind: value, ..st }
        } else if key == "version"@ {
            ScanState { framework_version: value, ..st }
        } else {
            st
        }
    } else if sec == "framework.idl"@ {
        if key == "spec"@ {
            ScanState { idl_spec: value, ..st }
        } else if key == "path"@ {
            ScanState { idl_path: value, ..st }
        } else {
            st
        }
    } else if sec == "wallet"@ {
        if key == "home_dir"@ {
            ScanState { wallet_home_dir: value, ..st }
        } else {
            st
        }
    } else if sec == "localnet"@ {
        if key == "port"@ {
            match parse_u16_spec(value) {
                Some(p) => ScanState { port: p, ..st },
                None => st,
            }
        } else if key == "risc0_dev_mode"@ {
            ScanState { risc0_dev_mode: value != "false"@ && value != "0"@, ..st }
        } else {
            st
        }
    } else if sec == "basecamp"@ {
        if key == "data_root"@ {
            ScanState { data_root: value, ..st }
        } else if key == "runtime_variant"@ {
            ScanState { runtime_variant: value, ..st }
        } else {
            st
        }
    } else {
        st
    }
}

pub open spec fn scan_line(st: ScanState, raw: Seq<char>) -> ScanState {
    match classify_line(raw) {
        LineKind::Skip => st,
        LineKind::Section(name) => ScanState { section: name, ..st },
        LineKind::Entry(key, value) => assign_entry(st, key, value),
    }
}

/// The state after reading `lines`, one after the other, from `st`.
pub open spec fn scan_lines(st: ScanState, lines: Seq<Seq<char>>) -> ScanState
    decreases lines.len(),
{
    if lines.len() == 0 {
        st
    } else {
        scan_lines(scan_line(st, lines[0]), lines.drop_first())
    }
}

pub open spec fn or_default(v: Seq<char>, d: Seq<char>) -> Seq<char> {
    if v.len() == 0 {
        d
    } else {
        v
    }
}

pub open spec fn all_empty(a: Seq<char>, b: Seq<char>, c: Seq<char>) -> bool {
    a.len() == 0 && b.len() == 0 && c.len() == 0
}

pub open spec fn any_empty(a: Seq<char>, b: Seq<char>, c: Seq<char>) -> bool {
    a.len() == 0 || b.len() == 0 || c.len() == 0
}

/// The configuration that the gathered values make, with the defaults for
/// what is missing, or the first rule that they break.
pub open spec fn finish_scan(st: ScanState) -> Result<ConfigView, ConfigError> {
    let kind = or_default(st.project_kind, PROJECT_KIND_LEZ@);
    let lez_none = all_empty(st.lez_source, st.lez_path, st.lez_pin);
    let lez = if lez_none {
        None
    } else {
        Some(
            RepoRefView {
                url: or_default(st.lez_url, LEZ_URL@),
                source: st.lez_source,
                path: st.lez_path,
                pin: st.lez_pin,
            },
        )
    };
    let mb_none = all_empty(st.mb_source, st.mb_path, st.mb_pin);
    if st.version.len() == 0 || st.cache_root.len() == 0 {
        Err(ConfigError::MissingScaffoldKeys)
    } else if !lez_none && any_empty(st.lez_source, st.lez_path, st.lez_pin) {
        Err(ConfigError::MissingLezKeys)
    } else if kind == PROJECT_KIND_LEZ@ && lez_none {
        Err(ConfigError::MissingLezKeys)
    } else if !mb_none && any_empty(st.mb_source, st.mb_path, st.mb_pin) {
        Err(ConfigError::MissingModuleBuilderKeys)
    } else {
        Ok(
            ConfigView {
                version: st.version,
                cache_root: st.cache_root,
                project_kind: kind,
                lez: lez,
                logos_module_builder: if mb_none {
                    None
                } else {
                    Some(
                        RepoRefView {
                            url: st.mb_url,
                            source: st.mb_source,
                            path: st.mb_path,
                            pin: st.mb_pin,
                        },
                    )
                },
                wallet_home_dir: or_default(st.wallet_home_dir, DEFAULT_WALLET_HOME_DIR@),
                localnet_port: st.port,
                localnet_risc0_dev_mode: st.risc0_dev_mode,
                framework_kind: or_default(st.framework_kind, FRAMEWORK_KIND_DEFAULT@),
                framework_version: or_default(st.framework_version, DEFAULT_FRAMEWORK_VERSION@),
                framework_idl_spec: or_default(st.idl_spec, DEFAULT_FRAMEWORK_IDL_SPEC@),
                framework_idl_path: or_default(st.idl_path, DEFAULT_FRAMEWORK_IDL_PATH@),
                basecamp_data_root: or_default(st.data_root, DEFAULT_BASECAMP_DATA_ROOT@),
                basecamp_runtime_variant: or_default(st.runtime_variant, BASECAMP_RUNTIME_DEV@),
            },
        )
    }
}

/// What a `scaffold.toml` text means: its lines read in order, then the
/// defaults and the rules.
pub open spec fn parse_config_spec(text: Seq<char>) -> Result<ConfigView, ConfigError> {
    finish_scan(scan_lines(initial_scan(), text_lines(text)))
}

pub open spec fn config_result_view(r: Result<Config, ConfigError>) -> Result<
    ConfigView,
    ConfigError,
> {
    match r {
        Ok(c) => Ok(c@),
        Err(e) => Err(e),
    }
}

// ---------------------------------------------------------------------------
// What the writer produces
// ---------------------------------------------------------------------------
/// How one character is written inside a double-quoted TOML string.
pub open spec fn escape_char(c: char) -> Seq<char> {
    if c == '\\' {
        seq!['\\', '\\']
    } else if c == '"' {
        seq!['\\', '"']
    } else {
        seq![c]
    }
}

/// `s` with every backslash and double quote preceded by a backslash.
pub open spec fn escape_spec(s: Seq<char>) -> Seq<char>
    decreases s.len(),
{
    if s.len() == 0 {
        Seq::empty()
    } else {
        escape_spec(s.drop_last()) + escape_char(s.last())
    }
}

/// The lines, each followed by a line feed.
pub open spec fn join_lines(lines: Seq<Seq<char>>) -> Seq<char>
    decreases lines.len(),
{
    if lines.len() == 0 {
        Seq::empty()
    } else {
        join_lines(lines.drop_last()) + lines.last() + seq!['\n']
    }
}

pub open spec fn quoted_entry(key: Seq<char>, value: Seq<char>) -> Seq<char> {
    key + " = \""@ + escape_spec(value) + "\""@
}

pub open spec fn plain_entry(key: Seq<char>, value: Seq<char>) -> Seq<char> {
    key + " = "@ + value
}

pub open spec fn repo_lines(header: Seq<char>, r: RepoRefView) -> Seq<Seq<char>> {
    seq![
        Seq::empty(),
        header,
        quoted_entry("url"@, r.url),
        quoted_entry("source"@, r.source),
        quoted_entry("path"@, r.path),
        quoted_entry("pin"@, r.pin),
    ]
}

pub open spec fn opt_repo_lines(header: Seq<char>, r: Option<RepoRefView>) -> Seq<Seq<char>> {
    match r {
        Some(x) => repo_lines(header, x),
        None => Seq::empty(),
    }
}

pub open spec fn head_lines(c: ConfigView) -> Seq<Seq<char>> {
    seq![
        "[scaffold]"@,
        quoted_entry("version"@, c.version),
        quoted_entry("cache_root"@, c.cache_root),
        Seq::empty(),
        "[project]"@,
        quoted_entry("kind"@, c.project_kind),
    ]
}

pub open spec fn tail_lines(c: ConfigView) -> Seq<Seq<char>> {
    seq![
        Seq::empty(),
        "[wallet]"@,
        quoted_entry("home_dir"@, c.wallet_home_dir),
        Seq::empty(),
        "[framework]"@,
        quoted_entry("kind"@, c.framework_kind),
        quoted_entry("version"@, c.framework_version),
        Seq::empty(),
        "[framework.idl]"@,
        quoted_entry("spec"@, c.framework_idl_spec),
        quoted_entry("path"@, c.framework_idl_path),
        Seq::empty(),
        "[localnet]"@,
        plain_entry("port"@, decimal(c.localnet_port as nat)),
        plain_entry("risc0_dev_mode"@, bool_text(c.localnet_risc0_dev_mode)),
        Seq::empty(),
        "[basecamp]"@,
        quoted_entry("data_root"@, c.basecamp_data_root),
        quoted_entry("runtime_variant"@, c.basecamp_runtime_variant),
    ]
}

/// The lines that the writer produces for `c`.
pub open spec fn config_lines(c: ConfigView) -> Seq<Seq<char>> {
    head_lines(c) + opt_repo_lines("[repos.lez]"@, c.lez) + opt_repo_lines(
        "[repos.logos_module_builder]"@,
        c.logos_module_builder,
    ) + tail_lines(c)
}

pub open spec fn serialize_config_spec(c: ConfigView) -> Seq<char> {
    join_lines(config_lines(c))
}

// ---------------------------------------------------------------------------
// Reading
// ---------------------------------------------------------------------------
fn unquote_chars(v: Vec<char>) -> (r: Vec<char>)
    ensures
        r@ == unquote_spec(v@),
{
    if v.len() >= 2 && v[0] == '"' && v[v.len() - 1] == '"' {
        sub_chars(&v, 1, v.len() - 1)
    } else {
        v
    }
}

/// `value` without one pair of surrounding double quotes, if it has them.
pub fn unquote(value: &str) -> (r: String)
    ensures
        r@ == unquote_spec(value@),
{
    let v = chars_of(value);
    let u = unquote_chars(v);
    string_of(&u)
}

enum LineClass {
    Skip,
    Section(Vec<char>),
    Entry(Vec<char>, Vec<char>),
}

impl LineClass {
    spec fn kind(&self) -> LineKind {
        match self {
            LineClass::Skip => LineKind::Skip,
            LineClass::Section(n) => LineKind::Section(n@),
            LineClass::Entry(k, v) => LineKind::Entry(k@, v@),
        }
    }
}

fn classify(raw: &Vec<char>) -> (r: LineClass)
    ensures
        r.kind() == classify_line(raw@),
{
    let line = trim_chars(raw);
    let n = line.len();
    if n == 0 || line[0] == '#' {
        return LineClass::Skip;
    }
    if line[0] == '[' && line[n - 1] == ']' {
        return LineClass::Section(sub_chars(&line, 1, n - 1));
    }
    match find_char_in(&line, '=') {
        Some(k) => {
            proof {
                crate::text::lemma_find_char_found(line@, '=');
            }
            let key = trim_chars(&sub_chars(&line, 0, k));
            let rest = trim_chars(&sub_chars(&line, k + 1, n));
            proof {
                crate::text::lemma_find_char_found(line@, '=');
                assert(line@.subrange(0, k as int) =~= line@.take(k as int));
                assert(line@.subrange(k + 1, n as int) =~= line@.skip(k + 1));
            }
            LineClass::Entry(key, unquote_chars(rest))
        },
        None => LineClass::Entry(line, Vec::new()),
    }
}

struct Scanner {
    section: Vec<char>,
    version: Vec<char>,
    cache_root: Vec<char>,
    project_kind: Vec<char>,
    lez_url: Vec<char>,
    lez_source: Vec<char>,
    lez_path: Vec<char>,
    lez_pin: Vec<char>,
    mb_url: Vec<char>,
    mb_source: Vec<char>,
    mb_path: Vec<char>,
    mb_pin: Vec<char>,
    wallet_home_dir: Vec<char>,
    port: u16,
    risc0_dev_mode: bool,
    framework_kind: Vec<char>,
    framework_version: Vec<char>,
    idl_spec: Vec<char>,
    idl_path: Vec<char>,
    data_root: Vec<char>,
    runtime_variant: Vec<char>,
}

impl View for Scanner {
    type V = ScanState;

    closed spec fn view(&self) -> ScanState {
        ScanState {
            section: self.section@,
            version: self.version@,
            cache_root: self.cache_root@,
            project_kind: self.project_kind@,
            lez_url: self.lez_url@,
            lez_source: self.lez_source@,
            lez_path: self.lez_path@,
            lez_pin: self.lez_pin@,
            mb_url: self.mb_url@,
            mb_source: self.mb_source@,
            mb_path: self.mb_path@,
            mb_pin: self.mb_pin@,
            wallet_home_dir: self.wallet_home_dir@,
            port: self.port,
            risc0_dev_mode: self.risc0_dev_mode,
            framework_kind: self.framework_kind@,
            framework_version: self.framework_version@,
            idl_spec: self.idl_spec@,
            idl_path: self.idl_path@,
            data_root: self.data_root@,
            runtime_variant: self.runtime_variant@,
        }
    }
}

impl Scanner {
    fn new() -> (s: Scanner)
        ensures
            s@ == initial_scan(),
    {
        let s = Scanner {
            section: Vec::new(),
            version: Vec::new(),
            cache_root: Vec::new(),
            project_kind: Vec::new(),
            lez_url: Vec::new(),
            lez_source: Vec::new(),
            lez_path: Vec::new(),
            lez_pin: Vec::new(),
            mb_url: Vec::new(),
            mb_source: Vec::new(),
            mb_path: Vec::new(),
            mb_pin: Vec::new(),
            wallet_home_dir: Vec::new(),
            port: DEFAULT_LOCALNET_PORT,
            risc0_dev_mode: true,
            framework_kind: Vec::new(),
            framework_version: Vec::new(),
            idl_spec: Vec::new(),
            idl_path: Vec::new(),
            data_root: Vec::new(),
            runtime_variant: Vec::new(),
        };
        assert(s@ =~= initial_scan());
        s
    }

    fn assign(&mut self, key: Vec<char>, value: Vec<char>)
        ensures
            final(self)@ == assign_entry(old(self)@, key@, value@),
    {
        if chars_eq_str(&self.section, "scaffold") {
            if chars_eq_str(&key, "version") {
                self.version = value;
            } else if chars_eq_str(&key, "cache_root") {
                self.cache_root = value;
            }
        } else if chars_eq_str(&self.section, "project") {
            if chars_eq_str(&key, "kind") {
                self.project_kind = value;
            }
        } else if chars_eq_str(&self.section, "repos.lez") || chars_eq_str(
            &self.section,
            "repos.lssa",
        ) {
            if chars_eq_str(&key, "url") {
                self.lez_url = value;
            } else if chars_eq_str(&key, "source") {
                self.lez_source = value;
            } else if chars_eq_str(&key, "path") {
                self.lez_path = value;
            } else if chars_eq_str(&key, "pin") {
                self.lez_pin = value;
            }
        } else if chars_eq_str(&self.section, "repos.logos_module_builder") {
            if chars_eq_str(&key, "url") {
                self.mb_url = value;
            } else if chars_eq_str(&key, "source") {
                self.mb_source = value;
            } else if chars_eq_str(&key, "path") {
                self.mb_path = value;
            } else if chars_eq_str(&key, "pin") {
                self.mb_pin = value;
            }
        } else if chars_eq_str(&self.section, "framework") {
            if chars_eq_str(&key, "kind") {
                self.framework_kind = value;
            } else if chars_eq_str(&key, "version") {
                self.framework_version = value;
            }
        } else if chars_eq_str(&self.section, "framework.idl") {
            if chars_eq_str(&key, "spec") {
                self.idl_spec = value;
            } else if chars_eq_str(&key, "path") {
                self.idl_path = value;
            }
        } else if chars_eq_str(&self.section, "wallet") {
            if chars_eq_str(&key, "home_dir") {
                self.wallet_home_dir = value;
            }
        } else if chars_eq_str(&self.section, "localnet") {
            if chars_eq_str(&key, "port") {
                match parse_u16(&value) {
                    Some(p) => {
                        self.port = p;
                    },
                    None => {},
                }
            } else if chars_eq_str(&key, "risc0_dev_mode") {
                self.risc0_dev_mode = !chars_eq_str(&value, "false") && !chars_eq_str(
                    &value,
                    "0",
                );
            }
        } else if chars_eq_str(&self.section, "basecamp") {
            if chars_eq_str(&key, "data_root") {
                self.data_root = value;
            } else if chars_eq_str(&key, "runtime_variant") {
                self.runtime_variant = value;
            }
        }
    }

    fn read_line(&mut self, raw: &Vec<char>)
        ensures
            final(self)@ == scan_line(old(self)@, raw@),
    {
        match classify(raw) {
            LineClass::Skip => {},
            LineClass::Section(name) => {
                self.section = name;
            },
            LineClass::Entry(key, value) => {
                self.assign(key, value);
            },
        }
    }
}

fn string_or_default(v: &Vec<char>, d: &str) -> (r: String)
    ensures
        r@ == or_default(v@, d@),
{
    if v.len() == 0 {
        d.to_owned()
    } else {
        string_of(v)
    }
}

fn finish(st: Scanner) -> (r: Result<Config, ConfigError>)
    ensures
        config_result_view(r) == finish_scan(st@),
{
    if st.version.len() == 0 || st.cache_root.len() == 0 {
        return Err(ConfigError::MissingScaffoldKeys);
    }
    let kind = string_or_default(&st.project_kind, PROJECT_KIND_LEZ);
    let lez_none = st.lez_source.len() == 0 && st.lez_path.len() == 0 && st.lez_pin.len() == 0;
    let lez = if lez_none {
        None
    } else {
        if st.lez_source.len() == 0 || st.lez_path.len() == 0 || st.lez_pin.len() == 0 {
            return Err(ConfigError::MissingLezKeys);
        }
        Some(
            RepoRef {
                url: string_or_default(&st.lez_url, LEZ_URL),
                source: string_of(&st.lez_source),
                path: string_of(&st.lez_path),
                pin: string_of(&st.lez_pin),
            },
        )
    };
    let kind_chars = chars_of(kind.as_str());
    if chars_eq_str(&kind_chars, PROJECT_KIND_LEZ) && lez_none {
        return Err(ConfigError::MissingLezKeys);
    }
    let mb_none = st.mb_source.len() == 0 && st.mb_path.len() == 0 && st.mb_pin.len() == 0;
    let logos_module_builder = if mb_none {
        None
    } else {
        if st.mb_source.len() == 0 || st.mb_path.len() == 0 || st.mb_pin.len() == 0 {
            return Err(ConfigError::MissingModuleBuilderKeys);
        }
        Some(
            RepoRef {
                url: string_of(&st.mb_url),
                source: string_of(&st.mb_source),
                path: string_of(&st.mb_path),
                pin: string_of(&st.mb_pin),
            },
        )
    };
    let cfg = Config {
        version: string_of(&st.version),
        cache_root: string_of(&st.cache_root),
        project: ProjectConfig { kind },
        lez,
        logos_module_builder,
        wallet_home_dir: string_or_default(&st.wallet_home_dir, DEFAULT_WALLET_HOME_DIR),
        localnet: LocalnetConfig { port: st.port, risc0_dev_mode: st.risc0_dev_mode },
        framework: FrameworkConfig {
            kind: string_or_default(&st.framework_kind, FRAMEWORK_KIND_DEFAULT),
            version: string_or_default(&st.framework_version, DEFAULT_FRAMEWORK_VERSION),
            idl: FrameworkIdlConfig {
                spec: string_or_default(&st.idl_spec, DEFAULT_FRAMEWORK_IDL_SPEC),
                path: string_or_default(&st.idl_path, DEFAULT_FRAMEWORK_IDL_PATH),
            },
        },
        basecamp: BasecampConfig {
            data_root: string_or_default(&st.data_root, DEFAULT_BASECAMP_DATA_ROOT),
            runtime_variant: string_or_default(&st.runtime_variant, BASECAMP_RUNTIME_DEV),
        },
    };
    assert(config_result_view(Ok(cfg)) =~= finish_scan(st@));
    Ok(cfg)
}

/// Reads the text of a `scaffold.toml`.
///
/// Succeeds exactly when `[scaffold]` gives a non-empty `version` and
/// `cache_root`, the `[repos.lez]` (or legacy `[repos.lssa]`) keys `source`,
/// `path` and `pin` are all given or all absent, they are given when the
/// project kind is `lez` (the default kind), and the
/// `[repos.logos_module_builder]` keys `source`, `path` and `pin` are all
/// given or all absent.  Missing values take their defaults.
pub fn parse_config(text: &str) -> (r: Result<Config, ConfigError>)
    ensures
        config_result_view(r) == parse_config_spec(text@),
{
    let chars = chars_of(text);
    let lines = split_lines(&chars);
    let ghost all = views_of(lines@);
    let mut st = Scanner::new();
    let mut i: usize = 0;
    assert(all.skip(0) =~= all);
    while i < lines.len()
        invariant
            i <= lines.len(),
            all == views_of(lines@),
            all == text_lines(text@),
            scan_lines(st@, all.skip(i as int)) == scan_lines(initial_scan(), all),
        decreases lines.len() - i,
    {
        assert(all.skip(i as int).drop_first() =~= all.skip(i + 1));
        assert(all.skip(i as int)[0] == lines@[i as int]@);
        st.read_line(&lines[i]);
        i = i + 1;
    }
    assert(all.skip(i as int).len() == 0);
    finish(st)
}

// ---------------------------------------------------------------------------
// Writing
// ---------------------------------------------------------------------------
/// `s` with every backslash and double quote preceded by a backslash.
pub fn escape_toml_string(s: &str) -> (r: String)
    ensures
        r@ == escape_spec(s@),
{
    let v = chars_of(s);
    let mut out = String::new();
    let mut i: usize = 0;
    while i < v.len()
        invariant
            i <= v.len(),
            out@ == escape_spec(v@.take(i as int)),
        decreases v.len() - i,
    {
        let c = v[i];
        if c == '\\' {
            out.push('\\');
            out.push('\\');
        } else if c == '"' {
            out.push('\\');
            out.push('"');
        } else {
            out.push(c);
        }
        assert(v@.take(i + 1).drop_last() =~= v@.take(i as int));
        assert(out@ =~= escape_spec(v@.take(i + 1)));
        i = i + 1;
    }
    assert(v@.take(v.len() as int) =~= v@);
    out
}

fn emit_line(out: &mut String, Ghost(lines): Ghost<Seq<Seq<char>>>, line: &str)
    requires
        old(out)@ == join_lines(lines),
    ensures
        final(out)@ == join_lines(lines.push(line@)),
{
    out.append(line);
    out.push('\n');
    assert(lines.push(line@).drop_last() =~= lines);
}

fn emit_blank(out: &mut String, Ghost(lines): Ghost<Seq<Seq<char>>>)
    requires
        old(out)@ == join_lines(lines),
    ensures
        final(out)@ == join_lines(lines.push(Seq::empty())),
{
    out.push('\n');
    assert(lines.push(Seq::empty()).drop_last() =~= lines);
    assert(out@ =~= join_lines(lines) + Seq::<char>::empty() + seq!['\n']);
}

fn emit_quoted(out: &mut String, Ghost(lines): Ghost<Seq<Seq<char>>>, key: &str, value: &str)
    requires
        old(out)@ == join_lines(lines),
    ensures
        final(out)@ == join_lines(lines.push(quoted_entry(key@, value@))),
{
    let escaped = escape_toml_string(value);
    out.append(key);
    out.append(" = \"");
    out.append(escaped.as_str());
    out.append("\"");
    out.push('\n');
    let ghost l = quoted_entry(key@, value@);
    assert(lines.push(l).drop_last() =~= lines);
    assert(out@ =~= join_lines(lines) + l + seq!['\n']);
}

fn emit_plain(out: &mut String, Ghost(lines): Ghost<Seq<Seq<char>>>, key: &str, value: &Vec<char>)
    requires
        old(out)@ == join_lines(lines),
    ensures
        final(out)@ == join_lines(lines.push(plain_entry(key@, value@))),
{
    out.append(key);
    out.append(" = ");
    let s = string_of(value);
    out.append(s.as_str());
    out.push('\n');
    let ghost l = plain_entry(key@, value@);
    assert(lines.push(l).drop_last() =~= lines);
    assert(out@ =~= join_lines(lines) + l + seq!['\n']);
}

fn emit_repo(
    out: &mut String,
    Ghost(lines): Ghost<Seq<Seq<char>>>,
    header: &str,
    r: &Option<RepoRef>,
)
    requires
        old(out)@ == join_lines(lines),
    ensures
        final(out)@ == join_lines(lines + opt_repo_lines(header@, repo_view_of(r))),
{
    match r {
        Some(repo) => {
            let ghost l0 = lines;
            emit_blank(out, Ghost(l0));
            let ghost l1 = l0.push(Seq::empty());
            emit_line(out, Ghost(l1), header);
            let ghost l2 = l1.push(header@);
            emit_quoted(out, Ghost(l2), "url", repo.url.as_str());
            let ghost l3 = l2.push(quoted_entry("url"@, repo.url@));
            emit_quoted(out, Ghost(l3), "source", repo.source.as_str());
            let ghost l4 = l3.push(quoted_entry("source"@, repo.source@));
            emit_quoted(out, Ghost(l4), "path", repo.path.as_str());
            let ghost l5 = l4.push(quoted_entry("path"@, repo.path@));
            emit_quoted(out, Ghost(l5), "pin", repo.pin.as_str());
            let ghost l6 = l5.push(quoted_entry("pin"@, repo.pin@));
            assert(l6 =~= lines + opt_repo_lines(header@, repo_view_of(r)));
        },
        None => {
            assert(lines + opt_repo_lines(header@, repo_view_of(r)) =~= lines);
        },
    }
}

pub open spec fn repo_view_of(r: &Option<RepoRef>) -> Option<RepoRefView> {
    match r {
        Some(x) => Some(x@),
        None => None,
    }
}

fn emit_head(out: &mut String, Ghost(lines): Ghost<Seq<Seq<char>>>, cfg: &Config)
    requires
        old(out)@ == join_lines(lines),
    ensures
        final(out)@ == join_lines(lines + head_lines(cfg@)),
{
    let ghost c = cfg@;
    let ghost l0 = lines;
    emit_line(out, Ghost(l0), "[scaffold]");
    let ghost l1 = l0.push("[scaffold]"@);
    emit_quoted(out, Ghost(l1), "version", cfg.version.as_str());
    let ghost l2 = l1.push(quoted_entry("version"@, c.version));
    emit_quoted(out, Ghost(l2), "cache_root", cfg.cache_root.as_str());
    let ghost l3 = l2.push(quoted_entry("cache_root"@, c.cache_root));
    emit_blank(out, Ghost(l3));
    let ghost l4 = l3.push(Seq::empty());
    emit_line(out, Ghost(l4), "[project]");
    let ghost l5 = l4.push("[project]"@);
    emit_quoted(out, Ghost(l5), "kind", cfg.project.kind.as_str());
    let ghost l6 = l5.push(quoted_entry("kind"@, c.project_kind));
    assert(l6 =~= lines + head_lines(c));
}

fn emit_tail_a(out: &mut String, Ghost(lines): Ghost<Seq<Seq<char>>>, cfg: &Config)
    requires
        old(out)@ == join_lines(lines),
    ensures
        final(out)@ == join_lines(lines + tail_lines(cfg@).take(11)),
{
    let ghost c = cfg@;
    let ghost t0 = lines;
    emit_blank(out, Ghost(t0));
    let ghost t1 = t0.push(Seq::empty());
    emit_line(out, Ghost(t1), "[wallet]");
    let ghost t2 = t1.push("[wallet]"@);
    emit_quoted(out, Ghost(t2), "home_dir", cfg.wallet_home_dir.as_str());
    let ghost t3 = t2.push(quoted_entry("home_dir"@, c.wallet_home_dir));
    emit_blank(out, Ghost(t3));
    let ghost t4 = t3.push(Seq::empty());
    emit_line(out, Ghost(t4), "[framework]");
    let ghost t5 = t4.push("[framework]"@);
    emit_quoted(out, Ghost(t5), "kind", cfg.framework.kind.as_str());
    let ghost t6 = t5.push(quoted_entry("kind"@, c.framework_kind));
    emit_quoted(out, Ghost(t6), "version", cfg.framework.version.as_str());
    let ghost t7 = t6.push(quoted_entry("version"@, c.framework_version));
    emit_blank(out, Ghost(t7));
    let ghost t8 = t7.push(Seq::empty());
    emit_line(out, Ghost(t8), "[framework.idl]");
    let ghost t9 = t8.push("[framework.idl]"@);
    emit_quoted(out, Ghost(t9), "spec", cfg.framework.idl.spec.as_str());
    let ghost t10 = t9.push(quoted_entry("spec"@, c.framework_idl_spec));
    emit_quoted(out, Ghost(t10), "path", cfg.framework.idl.path.as_str());
    let ghost t11 = t10.push(quoted_entry("path"@, c.framework_idl_path));
    assert(t11 =~= lines + tail_lines(c).take(11));
}

fn emit_tail_b(out: &mut String, Ghost(lines): Ghost<Seq<Seq<char>>>, cfg: &Config)
    requires
        old(out)@ == join_lines(lines),
    ensures
        final(out)@ == join_lines(lines + tail_lines(cfg@).skip(11)),
{
    let ghost c = cfg@;
    let ghost t11 = lines;
    emit_blank(out, Ghost(t11));
    let ghost t12 = t11.push(Seq::empty());
    emit_line(out, Ghost(t12), "[localnet]");
    let ghost t13 = t12.push("[localnet]"@);
    let port = decimal_chars(cfg.localnet.port);
    emit_plain(out, Ghost(t13), "port", &port);
    let ghost t14 = t13.push(plain_entry("port"@, decimal(c.localnet_port as nat)));
    let flag = if cfg.localnet.risc0_dev_mode {
        chars_of("true")
    } else {
        chars_of("false")
    };
    proof {
        reveal_strlit("true");
        reveal_strlit("false");
        assert(flag@ =~= bool_text(c.localnet_risc0_dev_mode));
    }
    emit_plain(out, Ghost(t14), "risc0_dev_mode", &flag);
    let ghost t15 = t14.push(plain_entry("risc0_dev_mode"@, bool_text(c.localnet_risc0_dev_mode)));
    emit_blank(out, Ghost(t15));
    let ghost t16 = t15.push(Seq::empty());
    emit_line(out, Ghost(t16), "[basecamp]");
    let ghost t17 = t16.push("[basecamp]"@);
    emit_quoted(out, Ghost(t17), "data_root", cfg.basecamp.data_root.as_str());
    let ghost t18 = t17.push(quoted_entry("data_root"@, c.basecamp_data_root));
    emit_quoted(out, Ghost(t18), "runtime_variant", cfg.basecamp.runtime_variant.as_str());
    let ghost t19 = t18.push(quoted_entry("runtime_variant"@, c.basecamp_runtime_variant));
    assert(t19 =~= lines + tail_lines(c).skip(11));
}

/// Writes a configuration as `scaffold.toml` text, one `key = value` line per
/// field; string values are double-quoted with backslashes and double quotes
/// escaped, and a repository section is written only when it is present.
pub fn serialize_config(cfg: &Config) -> (out: String)
    ensures
        out@ == serialize_config_spec(cfg@),
{
    let ghost c = cfg@;
    let mut out = String::new();
    let ghost l0 = Seq::<Seq<char>>::empty();
    emit_head(&mut out, Ghost(l0), cfg);
    let ghost h = l0 + head_lines(c);
    emit_repo(&mut out, Ghost(h), "[repos.lez]", &cfg.lez);
    assert(repo_view_of(&cfg.lez) == c.lez);
    let ghost h2 = h + opt_repo_lines("[repos.lez]"@, c.lez);
    emit_repo(&mut out, Ghost(h2), "[repos.logos_module_builder]", &cfg.logos_module_builder);
    assert(repo_view_of(&cfg.logos_module_builder) == c.logos_module_builder);
    let ghost h3 = h2 + opt_repo_lines("[repos.logos_module_builder]"@, c.logos_module_builder);
    emit_tail_a(&mut out, Ghost(h3), cfg);
    let ghost h4 = h3 + tail_lines(c).take(11);
    emit_tail_b(&mut out, Ghost(h4), cfg);
    let ghost h5 = h4 + tail_lines(c).skip(11);
    assert(h5 =~= config_lines(c));
    out
}

} // verus!
