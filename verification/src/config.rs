//! Connection preferences, the multi-tab session file of the desktop client,
//! and the values a connection is started with.

use vstd::prelude::*;

use crate::numbers::{
    all_digits, is_digit, parse_bool, parse_i32, parse_u64, parse_usize, spec_parse_bool, spec_parse_i32,
    spec_parse_u64, spec_parse_usize,
};
use crate::text::{
    chars_eq, chars_of, eq_ignore_ascii_case, is_text, lines, split_once, spec_eq_ignore_ascii_case, spec_lines,
    spec_split_once, spec_trim, spec_trim_set, string_from_chars, trim, trim_set, CharSet, spec_ascii_lower,
    ascii_lower, copy_chars, first_index, find_char, lemma_first_index, lemma_first_index_bounds,
};

verus! {

/// The connection form of one desktop tab.
#[derive(Clone, Debug, PartialEq, Eq)]
pub struct Prefs {
    pub host: String,
    pub port: String,
    pub username: String,
    pub password: String,
    pub domain: String,
    pub mode: String,
    pub width: String,
    pub height: String,
    pub enable_hover_throttle: bool,
    pub hover_send_interval_ms: u64,
    pub disable_rust_log: bool,
}

/// The mathematical value of [`Prefs`].
pub ghost struct PrefsView {
    pub host: Seq<char>,
    pub port: Seq<char>,
    pub username: Seq<char>,
    pub password: Seq<char>,
    pub domain: Seq<char>,
    pub mode: Seq<char>,
    pub width: Seq<char>,
    pub height: Seq<char>,
    pub enable_hover_throttle: bool,
    pub hover_send_interval_ms: u64,
    pub disable_rust_log: bool,
}

impl View for Prefs {
    type V = PrefsView;

    open spec fn view(&self) -> PrefsView {
        PrefsView {
            host: self.host@,
            port: self.port@,
            username: self.username@,
            password: self.password@,
            domain: self.domain@,
            mode: self.mode@,
            width: self.width@,
            height: self.height@,
            enable_hover_throttle: self.enable_hover_throttle,
            hover_send_interval_ms: self.hover_send_interval_ms,
            disable_rust_log: self.disable_rust_log,
        }
    }
}

/// A blank RDP form: port 3389, 1920 x 1080, hover throttling off at 1000 ms.
pub open spec fn default_prefs() -> PrefsView {
    PrefsView {
        host: Seq::empty(),
        port: "3389"@,
        username: Seq::empty(),
        password: Seq::empty(),
        domain: Seq::empty(),
        mode: "RDP"@,
        width: "1920"@,
        height: "1080"@,
        enable_hover_throttle: false,
        hover_send_interval_ms: 1000,
        disable_rust_log: false,
    }
}

impl Default for Prefs {
    fn default() -> (r: Self)
        ensures
            r@ == default_prefs(),
    {
        Prefs {
            host: String::new(),
            port: String::from_str("3389"),
            username: String::new(),
            password: String::new(),
            domain: String::new(),
            mode: String::from_str("RDP"),
            width: String::from_str("1920"),
            height: String::from_str("1080"),
            enable_hover_throttle: false,
            hover_send_interval_ms: 1000,
            disable_rust_log: false,
        }
    }
}

/// The desktop client's saved state: global settings and one form per tab.
#[derive(Clone, Debug, PartialEq, Eq)]
pub struct AppSession {
    pub active_tab: usize,
    pub enable_hover_throttle: bool,
    pub hover_send_interval_ms: u64,
    pub disable_rust_log: bool,
    pub tabs: Vec<Prefs>,
}

/// The mathematical value of [`AppSession`].
pub ghost struct AppSessionView {
    pub active_tab: usize,
    pub enable_hover_throttle: bool,
    pub hover_send_interval_ms: u64,
    pub disable_rust_log: bool,
    pub tabs: Seq<PrefsView>,
}

impl View for AppSession {
    type V = AppSessionView;

    open spec fn view(&self) -> AppSessionView {
        AppSessionView {
            active_tab: self.active_tab,
            enable_hover_throttle: self.enable_hover_throttle,
            hover_send_interval_ms: self.hover_send_interval_ms,
            disable_rust_log: self.disable_rust_log,
            tabs: self.tabs@.map_values(|p: Prefs| p@),
        }
    }
}

/// A boolean setting: `true`/`false`, anything else is off.
pub open spec fn bool_setting(v: Seq<char>) -> bool {
    match spec_parse_bool(v) {
        Some(b) => b,
        None => false,
    }
}

/// The hover interval setting in milliseconds; 1000 when it does not parse.
pub open spec fn ms_setting(v: Seq<char>) -> u64 {
    match spec_parse_u64(v) {
        Some(n) => n,
        None => 1000,
    }
}

/// Whether `k` names the diagnostic-log setting (under its current or former name).
pub open spec fn is_log_key(k: Seq<char>) -> bool {
    k == "disable_rust_log"@ || k == "disable_frame_complete_log"@
}

/// A tab form after a `key=value` line inside a `[tab]` section.
pub open spec fn assign_tab_field(p: PrefsView, k: Seq<char>, v: Seq<char>) -> PrefsView {
    if k == "host"@ {
        PrefsView { host: v, ..p }
    } else if k == "port"@ {
        PrefsView { port: v, ..p }
    } else if k == "username"@ {
        PrefsView { username: v, ..p }
    } else if k == "password"@ {
        PrefsView { password: spec_trim_set(v, CharSet::LineBreak), ..p }
    } else if k == "domain"@ {
        PrefsView { domain: v, ..p }
    } else if k == "mode"@ {
        PrefsView { mode: v, ..p }
    } else if k == "width"@ {
        PrefsView { width: v, ..p }
    } else if k == "height"@ {
        PrefsView { height: v, ..p }
    } else if k == "enable_hover_throttle"@ {
        PrefsView { enable_hover_throttle: bool_setting(v), ..p }
    } else if k == "hover_send_interval_ms"@ {
        PrefsView { hover_send_interval_ms: ms_setting(v), ..p }
    } else if is_log_key(k) {
        PrefsView { disable_rust_log: bool_setting(v), ..p }
    } else {
        p
    }
}

/// The state of the session-file reader between lines.
pub ghost struct ParseState {
    pub session: AppSessionView,
    pub current: Option<PrefsView>,
    pub fallback: PrefsView,
    pub saw_tab: bool,
}

pub open spec fn initial_parse_state() -> ParseState {
    ParseState {
        session: AppSessionView {
            active_tab: 0,
            enable_hover_throttle: false,
            hover_send_interval_ms: 1000,
            disable_rust_log: false,
            tabs: Seq::empty(),
        },
        current: None,
        fallback: default_prefs(),
        saw_tab: false,
    }
}

/// A `key=value` line before any `[tab]`: global settings (which also seed the
/// single tab of an old-style file) and the fields of that single tab.
pub open spec fn assign_global(st: ParseState, k: Seq<char>, v: Seq<char>) -> ParseState {
    if k == "active_tab"@ {
        ParseState {
            session: AppSessionView {
                active_tab: match spec_parse_usize(v) {
                    Some(n) => n,
                    None => 0,
                },
                ..st.session
            },
            ..st
        }
    } else if k == "enable_hover_throttle"@ {
        ParseState {
            session: AppSessionView { enable_hover_throttle: bool_setting(v), ..st.session },
            fallback: PrefsView { enable_hover_throttle: bool_setting(v), ..st.fallback },
            ..st
        }
    } else if k == "hover_send_interval_ms"@ {
        ParseState {
            session: AppSessionView { hover_send_interval_ms: ms_setting(v), ..st.session },
            fallback: PrefsView { hover_send_interval_ms: ms_setting(v), ..st.fallback },
            ..st
        }
    } else if is_log_key(k) {
        ParseState {
            session: AppSessionView { disable_rust_log: bool_setting(v), ..st.session },
            fallback: PrefsView { disable_rust_log: bool_setting(v), ..st.fallback },
            ..st
        }
    } else if k == "host"@ || k == "port"@ || k == "username"@ || k == "password"@ || k == "domain"@ || k == "mode"@ || k
        == "width"@ || k == "height"@ {
        ParseState { fallback: assign_tab_field(st.fallback, k, v), ..st }
    } else {
        st
    }
}

/// One line of the session file.
pub open spec fn parse_step(st: ParseState, raw: Seq<char>) -> ParseState {
    let line = spec_trim_set(raw, CharSet::LineBreak);
    let trimmed = spec_trim(line);
    if trimmed.len() == 0 || trimmed[0] == '#' {
        st
    } else if spec_eq_ignore_ascii_case(trimmed, "[tab]"@) {
        ParseState {
            session: AppSessionView {
                tabs: match st.current {
                    Some(t) => st.session.tabs.push(t),
                    None => st.session.tabs,
                },
                ..st.session
            },
            current: Some(default_prefs()),
            saw_tab: true,
            ..st
        }
    } else {
        match spec_split_once(line, '=') {
            None => st,
            Some((k0, v0)) => {
                let k = spec_trim(k0);
                let v = spec_trim(v0);
                match st.current {
                    Some(p) => ParseState { current: Some(assign_tab_field(p, k, v)), ..st },
                    None => assign_global(st, k, v),
                }
            },
        }
    }
}

/// The reader's state after the given lines.
pub open spec fn parse_lines(ls: Seq<Seq<char>>) -> ParseState
    decreases ls.len(),
{
    if ls.len() == 0 {
        initial_parse_state()
    } else {
        parse_step(parse_lines(ls.drop_last()), ls.last())
    }
}

/// The session at the end of the file: the open tab closes; an old-style file
/// without sections becomes its single tab; there is always a tab; the active
/// tab is clamped to the last one.
pub open spec fn finish_parse(st: ParseState) -> AppSessionView {
    let tabs1 = match st.current {
        Some(t) => st.session.tabs.push(t),
        None => st.session.tabs,
    };
    let tabs2 = if !st.saw_tab && tabs1.len() == 0 {
        seq![st.fallback]
    } else {
        tabs1
    };
    let tabs3 = if tabs2.len() == 0 {
        seq![default_prefs()]
    } else {
        tabs2
    };
    AppSessionView {
        active_tab: if st.session.active_tab >= tabs3.len() {
            (tabs3.len() - 1) as usize
        } else {
            st.session.active_tab
        },
        tabs: tabs3,
        ..st.session
    }
}

/// The session a session file holds.
pub open spec fn spec_parse_app_session(text: Seq<char>) -> AppSessionView {
    finish_parse(parse_lines(spec_lines(text)))
}

pub open spec fn prefs_views(ps: Seq<Prefs>) -> Seq<PrefsView> {
    ps.map_values(|p: Prefs| p@)
}

/// The executable state of the session-file reader.
struct Reader {
    session: AppSession,
    current: Option<Prefs>,
    fallback: Prefs,
    saw_tab: bool,
}

impl Reader {
    spec fn state(&self) -> ParseState {
        ParseState {
            session: self.session@,
            current: match self.current {
                Some(p) => Some(p@),
                None => None,
            },
            fallback: self.fallback@,
            saw_tab: self.saw_tab,
        }
    }
}

fn bool_value(v: &[char]) -> (r: bool)
    ensures
        r == bool_setting(v@),
{
    match parse_bool(v) {
        Some(b) => b,
        None => false,
    }
}

fn ms_value(v: &[char]) -> (r: u64)
    ensures
        r == ms_setting(v@),
{
    match parse_u64(v) {
        Some(n) => n,
        None => 1000,
    }
}

fn log_key(k: &[char]) -> (r: bool)
    ensures
        r == is_log_key(k@),
{
    is_text(k, "disable_rust_log") || is_text(k, "disable_frame_complete_log")
}

fn apply_tab_field(p: &mut Prefs, k: &[char], v: &[char])
    ensures
        final(p)@ == assign_tab_field(old(p)@, k@, v@),
{
    if is_text(k, "host") {
        p.host = string_from_chars(v);
    } else if is_text(k, "port") {
        p.port = string_from_chars(v);
    } else if is_text(k, "username") {
        p.username = string_from_chars(v);
    } else if is_text(k, "password") {
        let t = trim_set(v, CharSet::LineBreak);
        p.password = string_from_chars(&t);
    } else if is_text(k, "domain") {
        p.domain = string_from_chars(v);
    } else if is_text(k, "mode") {
        p.mode = string_from_chars(v);
    } else if is_text(k, "width") {
        p.width = string_from_chars(v);
    } else if is_text(k, "height") {
        p.height = string_from_chars(v);
    } else if is_text(k, "enable_hover_throttle") {
        p.enable_hover_throttle = bool_value(v);
    } else if is_text(k, "hover_send_interval_ms") {
        p.hover_send_interval_ms = ms_value(v);
    } else if log_key(k) {
        p.disable_rust_log = bool_value(v);
    }
}

fn apply_global(r: &mut Reader, k: &[char], v: &[char])
    ensures
        final(r).state() == assign_global(old(r).state(), k@, v@),
{
    if is_text(k, "active_tab") {
        r.session.active_tab = match parse_usize(v) {
            Some(n) => n,
            None => 0,
        };
    } else if is_text(k, "enable_hover_throttle") {
        let b = bool_value(v);
        r.session.enable_hover_throttle = b;
        r.fallback.enable_hover_throttle = b;
    } else if is_text(k, "hover_send_interval_ms") {
        let ms = ms_value(v);
        r.session.hover_send_interval_ms = ms;
        r.fallback.hover_send_interval_ms = ms;
    } else if log_key(k) {
        let b = bool_value(v);
        r.session.disable_rust_log = b;
        r.fallback.disable_rust_log = b;
    } else if is_text(k, "host") || is_text(k, "port") || is_text(k, "username") || is_text(k, "password") || is_text(
        k,
        "domain",
    ) || is_text(k, "mode") || is_text(k, "width") || is_text(k, "height") {
        apply_tab_field(&mut r.fallback, k, v);
    }
}

fn read_line(r: &mut Reader, raw: &[char])
    ensures
        final(r).state() == parse_step(old(r).state(), raw@),
{
    let line = trim_set(raw, CharSet::LineBreak);
    let trimmed = trim(&line);
    if trimmed.len() == 0 || trimmed[0] == '#' {
        return;
    }
    let tab_header = chars_of("[tab]");
    if eq_ignore_ascii_case(&trimmed, &tab_header) {
        r.saw_tab = true;
        let ghost tabs_before = r.session@.tabs;
        match r.current.take() {
            Some(t) => {
                r.session.tabs.push(t);
                assert(r.session@.tabs =~= tabs_before.push(old(r).current->0@));
            },
            None => {},
        }
        r.current = Some(Prefs::default());
        return;
    }
    if let Some((k0, v0)) = split_once(&line, '=') {
        let k = trim(&k0);
        let v = trim(&v0);
        match r.current.take() {
            Some(mut p) => {
                apply_tab_field(&mut p, &k, &v);
                r.current = Some(p);
            },
            None => {
                apply_global(r, &k, &v);
            },
        }
    }
}

impl AppSession {
    /// Reads a session file: global `key=value` lines, then `[tab]` sections of
    /// `key=value` lines; `#` comments and blank lines are skipped. A file without
    /// sections is read as the old single-tab format.
    pub fn parse(text: &str) -> (r: Self)
        ensures
            r@ == spec_parse_app_session(text@),
    {
        let chars = chars_of(text);
        let ls = lines(&chars);
        let ghost lv = ls@.map_values(|l: Vec<char>| l@);
        let mut reader = Reader {
            session: AppSession {
                active_tab: 0,
                enable_hover_throttle: false,
                hover_send_interval_ms: 1000,
                disable_rust_log: false,
                tabs: Vec::new(),
            },
            current: None,
            fallback: Prefs::default(),
            saw_tab: false,
        };
        assert(reader.session@.tabs =~= Seq::<PrefsView>::empty());
        assert(reader.state() == initial_parse_state());
        let mut i: usize = 0;
        while i < ls.len()
            invariant
                i <= ls@.len(),
                lv == ls@.map_values(|l: Vec<char>| l@),
                reader.state() == parse_lines(lv.take(i as int)),
            decreases ls.len() - i,
        {
            assert(lv.take(i as int + 1).drop_last() =~= lv.take(i as int));
            read_line(&mut reader, &ls[i]);
            i = i + 1;
        }
        assert(lv.take(ls@.len() as int) =~= lv);
        let ghost st = reader.state();
        let Reader { session: mut session, current, fallback, saw_tab } = reader;
        let ghost tabs0 = session@.tabs;
        if let Some(t) = current {
            session.tabs.push(t);
            assert(session@.tabs =~= tabs0.push(st.current->0));
        }
        let ghost tabs1 = session@.tabs;
        if !saw_tab && session.tabs.len() == 0 {
            session.tabs.push(fallback);
            assert(session@.tabs =~= seq![st.fallback]);
        }
        let ghost tabs2 = session@.tabs;
        if session.tabs.len() == 0 {
            session.tabs.push(Prefs::default());
            assert(session@.tabs =~= seq![default_prefs()]);
        }
        if session.active_tab >= session.tabs.len() {
            session.active_tab = session.tabs.len() - 1;
        }
        assert(session@.tabs == finish_parse(st).tabs);
        assert(session@ == finish_parse(st));
        session
    }
}

/// Appends characters to a buffer.
pub fn push_chars(out: &mut Vec<char>, s: &[char])
    ensures
        final(out)@ == old(out)@ + s@,
{
    let mut i: usize = 0;
    while i < s.len()
        invariant
            i <= s@.len(),
            out@ == old(out)@ + s@.take(i as int),
        decreases s.len() - i,
    {
        out.push(s[i]);
        i = i + 1;
        assert(out@ =~= old(out)@ + s@.take(i as int));
    }
    assert(s@.take(s@.len() as int) =~= s@);
}

/// Appends the characters of a string slice to a buffer.
pub fn push_str(out: &mut Vec<char>, s: &str)
    ensures
        final(out)@ == old(out)@ + s@,
{
    let cs = chars_of(s);
    push_chars(out, &cs);
}

/// ASCII upper-casing of one character.
pub open spec fn spec_ascii_upper(c: char) -> char {
    if 'a' <= c && c <= 'z' {
        ((c as u8) - 32) as char
    } else {
        c
    }
}

/// Whether `s` contains `pat` as a contiguous part.
pub open spec fn contains_seq(s: Seq<char>, pat: Seq<char>) -> bool {
    exists|i: int| 0 <= i && i + pat.len() <= s.len() && #[trigger] s.subrange(i, i + pat.len()) == pat
}

/// Whether the ASCII upper-case form of `s` contains "VNC".
pub open spec fn mentions_vnc(s: Seq<char>) -> bool {
    exists|i: int|
        0 <= i && i + 3 <= s.len() && #[trigger] spec_ascii_upper(s[i]) == 'V' && spec_ascii_upper(s[i + 1]) == 'N'
            && spec_ascii_upper(s[i + 2]) == 'C'
}

fn upper(c: char) -> (r: char)
    ensures
        r == spec_ascii_upper(c),
{
    if 'a' <= c && c <= 'z' {
        ((c as u8) - 32) as char
    } else {
        c
    }
}

fn has_vnc(s: &[char]) -> (r: bool)
    ensures
        r == mentions_vnc(s@),
{
    if s.len() < 3 {
        return false;
    }
    let mut i: usize = 0;
    while i < s.len() - 2
        invariant
            i + 3 <= s@.len() + 1,
            s@.len() <= usize::MAX,
            s@.len() >= 3,
            forall|j: int| 0 <= j < i ==> !(#[trigger] spec_ascii_upper(s@[j]) == 'V' && spec_ascii_upper(s@[j + 1])
                == 'N' && spec_ascii_upper(s@[j + 2]) == 'C'),
        decreases s.len() - i,
    {
        if upper(s[i]) == 'V' && upper(s[i + 1]) == 'N' && upper(s[i + 2]) == 'C' {
            return true;
        }
        i = i + 1;
    }
    false
}

/// Whether a character may stand in a generated file name.
pub open spec fn filename_safe(c: char) -> bool {
    ('a' <= c && c <= 'z') || ('A' <= c && c <= 'Z') || ('0' <= c && c <= '9') || c == '-' || c == '_' || c == '.'
}

/// `s` with every character that may not stand in a file name replaced by '_'.
pub open spec fn sanitize_filename(s: Seq<char>) -> Seq<char> {
    s.map_values(|c: char| if filename_safe(c) { c } else { '_' })
}

impl Prefs {
    /// Whether the form selects VNC (case-insensitively); otherwise it is RDP.
    pub open spec fn is_vnc(&self) -> bool {
        spec_eq_ignore_ascii_case(self.mode@, "VNC"@)
    }

    /// The file extension of the selected protocol.
    pub open spec fn spec_file_extension(&self) -> Seq<char> {
        if self.is_vnc() {
            "vnc"@
        } else {
            "rdp"@
        }
    }

    pub fn file_extension(&self) -> (r: &'static str)
        ensures
            r@ == self.spec_file_extension(),
    {
        let mode = chars_of(self.mode.as_str());
        let vnc = chars_of("VNC");
        if eq_ignore_ascii_case(&mode, &vnc) {
            "vnc"
        } else {
            "rdp"
        }
    }

    /// The suggested file name: the host (trimmed, file-name safe) or "connection",
    /// with the protocol's extension.
    pub open spec fn spec_default_filename(&self) -> Seq<char> {
        let host = spec_trim(self.host@);
        let base = if host.len() == 0 {
            "connection"@
        } else {
            sanitize_filename(host)
        };
        base + "."@ + self.spec_file_extension()
    }

    pub fn default_filename(&self) -> (r: String)
        ensures
            r@ == self.spec_default_filename(),
    {
        let host_chars = chars_of(self.host.as_str());
        let host = trim(&host_chars);
        let mut out: Vec<char> = Vec::new();
        if host.len() == 0 {
            push_str(&mut out, "connection");
        } else {
            let mut i: usize = 0;
            while i < host.len()
                invariant
                    i <= host@.len(),
                    out@ == sanitize_filename(host@.take(i as int)),
                decreases host.len() - i,
            {
                let c = host[i];
                let safe = ('a' <= c && c <= 'z') || ('A' <= c && c <= 'Z') || ('0' <= c && c <= '9') || c == '-'
                    || c == '_' || c == '.';
                out.push(if safe { c } else { '_' });
                i = i + 1;
                assert(out@ =~= sanitize_filename(host@.take(i as int)));
            }
            assert(host@.take(host@.len() as int) =~= host@);
        }
        push_str(&mut out, ".");
        push_str(&mut out, self.file_extension());
        string_from_chars(&out)
    }

    /// "host:port", or a dash when no host is set.
    pub open spec fn spec_endpoint_label(&self) -> Seq<char> {
        if self.host@.len() == 0 {
            "\u{2014}"@
        } else {
            self.host@ + ":"@ + self.port@
        }
    }

    pub fn endpoint_label(&self) -> (r: String)
        ensures
            r@ == self.spec_endpoint_label(),
    {
        if self.host.as_str().unicode_len() == 0 {
            String::from_str("\u{2014}")
        } else {
            let mut out: Vec<char> = Vec::new();
            push_str(&mut out, self.host.as_str());
            push_str(&mut out, ":");
            push_str(&mut out, self.port.as_str());
            string_from_chars(&out)
        }
    }

    /// Whether a file with extension `current` (if any) already has the protocol's
    /// extension, compared in ASCII lower case; otherwise the extension is replaced.
    pub open spec fn spec_keeps_extension(&self, current: Option<Seq<char>>) -> bool {
        match current {
            Some(ext) => ext.map_values(|c: char| spec_ascii_lower(c)) == self.spec_file_extension(),
            None => false,
        }
    }

    pub fn keeps_extension(&self, current: Option<&str>) -> (r: bool)
        ensures
            r == self.spec_keeps_extension(
                match current {
                    Some(e) => Some(e@),
                    None => None,
                },
            ),
    {
        match current {
            Some(e) => {
                let cs = chars_of(e);
                let mut lower: Vec<char> = Vec::new();
                let mut i: usize = 0;
                while i < cs.len()
                    invariant
                        i <= cs@.len(),
                        lower@ == cs@.take(i as int).map_values(|c: char| spec_ascii_lower(c)),
                    decreases cs.len() - i,
                {
                    lower.push(ascii_lower(cs[i]));
                    i = i + 1;
                    assert(lower@ =~= cs@.take(i as int).map_values(|c: char| spec_ascii_lower(c)));
                }
                assert(cs@.take(cs@.len() as int) =~= cs@);
                let want = chars_of(self.file_extension());
                chars_eq(&lower, &want)
            },
            None => false,
        }
    }

    /// The body of an RDP/VNC connection file (compatible with the Android client).
    pub open spec fn spec_connection_file(&self) -> Seq<char> {
        address_line(spec_trim(self.host@), spec_trim(self.port@))
            + optional_line("username:s:"@, self.username@)
            + optional_line("password:s:"@, self.password@)
            + optional_line("domain:s:"@, self.domain@)
            + ("connection mode:s:"@ + self.mode@ + "\n"@)
            + optional_trimmed_line("desktopwidth:i:"@, self.width@)
            + optional_trimmed_line("desktopheight:i:"@, self.height@)
    }

    pub fn to_connection_file(&self) -> (r: String)
        ensures
            r@ == self.spec_connection_file(),
    {
        let mut out: Vec<char> = Vec::new();
        let host_chars = chars_of(self.host.as_str());
        let host = trim(&host_chars);
        let port_chars = chars_of(self.port.as_str());
        let port = trim(&port_chars);
        push_str(&mut out, "full address:s:");
        push_chars(&mut out, &host);
        if port.len() > 0 {
            push_str(&mut out, ":");
            push_chars(&mut out, &port);
        }
        push_str(&mut out, "\n");
        assert(out@ =~= address_line(host@, port@));
        let ghost a = out@;
        let uc = chars_of(self.username.as_str());
        push_optional_line(&mut out, "username:s:", &uc);
        let pc = chars_of(self.password.as_str());
        push_optional_line(&mut out, "password:s:", &pc);
        let dc = chars_of(self.domain.as_str());
        push_optional_line(&mut out, "domain:s:", &dc);
        let ghost d = out@;
        push_str(&mut out, "connection mode:s:");
        push_str(&mut out, self.mode.as_str());
        push_str(&mut out, "\n");
        assert(out@ =~= d + ("connection mode:s:"@ + self.mode@ + "\n"@));
        let wc = chars_of(self.width.as_str());
        push_optional_trimmed(&mut out, "desktopwidth:i:", &wc);
        let hc = chars_of(self.height.as_str());
        push_optional_trimmed(&mut out, "desktopheight:i:", &hc);
        string_from_chars(&out)
    }
}

/// The address line: "full address:s:host" and ":port" when a port is set.
pub open spec fn address_line(host: Seq<char>, port: Seq<char>) -> Seq<char> {
    if port.len() == 0 {
        "full address:s:"@ + host + "\n"@
    } else {
        "full address:s:"@ + host + ":"@ + port + "\n"@
    }
}

/// A "label value" line, or nothing when the value is empty.
pub open spec fn optional_line(label: Seq<char>, v: Seq<char>) -> Seq<char> {
    if v.len() > 0 {
        label + v + "\n"@
    } else {
        Seq::empty()
    }
}

fn push_optional_line(out: &mut Vec<char>, label: &str, v: &[char])
    ensures
        final(out)@ == old(out)@ + optional_line(label@, v@),
{
    if v.len() > 0 {
        push_str(out, label);
        push_chars(out, v);
        push_str(out, "\n");
        assert(out@ =~= old(out)@ + optional_line(label@, v@));
    } else {
        assert(out@ =~= old(out)@ + optional_line(label@, v@));
    }
}

/// Like [`push_optional_line`] with the trimmed value, but only when the untrimmed
/// value is non-empty (a blank value still writes an empty line).
pub open spec fn optional_trimmed_line(label: Seq<char>, v: Seq<char>) -> Seq<char> {
    if v.len() > 0 {
        label + spec_trim(v) + "\n"@
    } else {
        Seq::empty()
    }
}

fn push_optional_trimmed(out: &mut Vec<char>, label: &str, v: &[char])
    ensures
        final(out)@ == old(out)@ + optional_trimmed_line(label@, v@),
{
    if v.len() > 0 {
        let t = trim(v);
        push_str(out, label);
        push_chars(out, &t);
        push_str(out, "\n");
        assert(out@ =~= old(out)@ + optional_trimmed_line(label@, v@));
    } else {
        assert(out@ =~= old(out)@ + optional_trimmed_line(label@, v@));
    }
}

/// The ASCII lower-case form of `s`.
pub open spec fn lower_seq(s: Seq<char>) -> Seq<char> {
    s.map_values(|c: char| spec_ascii_lower(c))
}

pub(crate) fn to_lower(s: &[char]) -> (r: Vec<char>)
    ensures
        r@ == lower_seq(s@),
{
    let mut r: Vec<char> = Vec::new();
    let mut i: usize = 0;
    while i < s.len()
        invariant
            i <= s@.len(),
            r@ == s@.take(i as int).map_values(|c: char| spec_ascii_lower(c)),
        decreases s.len() - i,
    {
        r.push(ascii_lower(s[i]));
        i = i + 1;
        assert(r@ =~= s@.take(i as int).map_values(|c: char| spec_ascii_lower(c)));
    }
    assert(s@.take(s@.len() as int) =~= s@);
    r
}

/// The fields a connection file sets, as read so far.
pub ghost struct ConnFields {
    pub host_full: Seq<char>,
    pub username: Seq<char>,
    pub password: Seq<char>,
    pub domain: Seq<char>,
    pub mode: Seq<char>,
    pub width: Seq<char>,
    pub height: Seq<char>,
}

/// The value of a "key:type:value" line's remainder: the part after a known type
/// tag (s, i or b), else the whole remainder; trimmed either way.
pub open spec fn typed_value(rest: Seq<char>) -> Seq<char> {
    match spec_split_once(rest, ':') {
        Some((ty, v)) => {
            let t = lower_seq(spec_trim(ty));
            if t == "s"@ || t == "i"@ || t == "b"@ {
                spec_trim(v)
            } else {
                spec_trim(rest)
            }
        },
        None => spec_trim(rest),
    }
}

/// The fields after a "key:type:value" line.
pub open spec fn conn_colon_line(f: ConnFields, key: Seq<char>, value: Seq<char>) -> ConnFields {
    if key == "full address"@ || key == "server"@ || key == "host"@ {
        ConnFields { host_full: value, ..f }
    } else if key == "username"@ || key == "user name"@ {
        ConnFields { username: value, ..f }
    } else if key == "password"@ {
        ConnFields { password: value, ..f }
    } else if key == "domain"@ {
        ConnFields { domain: value, ..f }
    } else if key == "connection mode"@ || key == "mode"@ || key == "protocol"@ {
        ConnFields { mode: value, ..f }
    } else if key == "desktopwidth"@ || key == "screen mode width"@ || key == "width"@ {
        ConnFields { width: value, ..f }
    } else if key == "desktopheight"@ || key == "screen mode height"@ || key == "height"@ {
        ConnFields { height: value, ..f }
    } else {
        f
    }
}

/// The fields after a "key=value" line (the app's own preference style); a port
/// is appended to a host that has none.
pub open spec fn conn_eq_line(f: ConnFields, k: Seq<char>, v: Seq<char>) -> ConnFields {
    if k == "host"@ {
        ConnFields { host_full: v, ..f }
    } else if k == "port"@ {
        if !f.host_full.contains(':') && f.host_full.len() != 0 {
            ConnFields { host_full: f.host_full + ":"@ + v, ..f }
        } else {
            f
        }
    } else if k == "username"@ {
        ConnFields { username: v, ..f }
    } else if k == "password"@ {
        ConnFields { password: v, ..f }
    } else if k == "domain"@ {
        ConnFields { domain: v, ..f }
    } else if k == "mode"@ {
        ConnFields { mode: v, ..f }
    } else if k == "width"@ {
        ConnFields { width: v, ..f }
    } else if k == "height"@ {
        ConnFields { height: v, ..f }
    } else {
        f
    }
}

/// One line of a connection file; blank lines and `#` or `//` comments are skipped.
pub open spec fn conn_step(f: ConnFields, raw: Seq<char>) -> ConnFields {
    let line = spec_trim(raw);
    if line.len() == 0 || line[0] == '#' || (line.len() >= 2 && line[0] == '/' && line[1] == '/') {
        f
    } else {
        match spec_split_once(line, ':') {
            Some((key, rest)) => conn_colon_line(f, lower_seq(spec_trim(key)), typed_value(rest)),
            None => match spec_split_once(line, '=') {
                Some((k, v)) => conn_eq_line(f, spec_trim(k), spec_trim(v)),
                None => f,
            },
        }
    }
}

pub open spec fn conn_lines(f0: ConnFields, ls: Seq<Seq<char>>) -> ConnFields
    decreases ls.len(),
{
    if ls.len() == 0 {
        f0
    } else {
        conn_step(conn_lines(f0, ls.drop_last()), ls.last())
    }
}

/// The last position of `c` in `s`.
pub open spec fn last_index(s: Seq<char>, c: char) -> Option<int>
    decreases s.len(),
{
    if s.len() == 0 {
        None
    } else if s.last() == c {
        Some(s.len() - 1)
    } else {
        last_index(s.drop_last(), c)
    }
}

/// The protocol a connection file selects: "VNC" when its mode (or, without a
/// mode, its extension) mentions VNC, else "RDP".
pub open spec fn conn_mode(mode: Seq<char>, extension: Option<Seq<char>>) -> Seq<char> {
    let m = if mode.len() == 0 {
        match extension {
            Some(e) => if spec_eq_ignore_ascii_case(e, "vnc"@) {
                "VNC"@
            } else {
                "RDP"@
            },
            None => "RDP"@,
        }
    } else {
        mode
    };
    if mentions_vnc(m) {
        "VNC"@
    } else {
        "RDP"@
    }
}

/// Host and port from a "host:port" address: split at the last ':' when what
/// follows is a non-empty run of digits, else the protocol's default port.
pub open spec fn split_host_port(full: Seq<char>, mode: Seq<char>) -> (Seq<char>, Seq<char>) {
    let default_port = if mode == "VNC"@ {
        "5900"@
    } else {
        "3389"@
    };
    match last_index(full, ':') {
        Some(i) => {
            let p = full.skip(i + 1);
            if p.len() > 0 && all_digits(p) {
                (full.take(i), p)
            } else {
                (full, default_port)
            }
        },
        None => (full, default_port),
    }
}

/// The error of a connection file without a host.
pub open spec fn no_host_error() -> Seq<char> {
    "File has no host (full address)"@
}

/// The form a connection file fills in, or the no-host error. Display size
/// fields keep `base`'s values when the file omits them; other settings are defaults.
pub open spec fn spec_parse_connection_file(text: Seq<char>, extension: Option<Seq<char>>, base: PrefsView) -> Result<
    PrefsView,
    Seq<char>,
> {
    let f0 = ConnFields {
        host_full: Seq::empty(),
        username: Seq::empty(),
        password: Seq::empty(),
        domain: Seq::empty(),
        mode: Seq::empty(),
        width: base.width,
        height: base.height,
    };
    let f = conn_lines(f0, spec_lines(text));
    let mode = conn_mode(f.mode, extension);
    let full = spec_trim(f.host_full);
    if full.len() == 0 {
        Err(no_host_error())
    } else {
        let (host, port) = split_host_port(full, mode);
        Ok(
            PrefsView {
                host,
                port,
                username: f.username,
                password: f.password,
                domain: f.domain,
                mode,
                width: f.width,
                height: f.height,
                ..default_prefs()
            },
        )
    }
}

struct ConnReader {
    host_full: Vec<char>,
    username: Vec<char>,
    password: Vec<char>,
    domain: Vec<char>,
    mode: Vec<char>,
    width: Vec<char>,
    height: Vec<char>,
}

impl ConnReader {
    spec fn fields(&self) -> ConnFields {
        ConnFields {
            host_full: self.host_full@,
            username: self.username@,
            password: self.password@,
            domain: self.domain@,
            mode: self.mode@,
            width: self.width@,
            height: self.height@,
        }
    }
}

fn typed_value_of(rest: &[char]) -> (r: Vec<char>)
    ensures
        r@ == typed_value(rest@),
{
    match split_once(rest, ':') {
        Some((ty, v)) => {
            let tt = trim(&ty);
            let t = to_lower(&tt);
            if is_text(&t, "s") || is_text(&t, "i") || is_text(&t, "b") {
                trim(&v)
            } else {
                trim(rest)
            }
        },
        None => trim(rest),
    }
}

fn contains_char(s: &[char], c: char) -> (r: bool)
    ensures
        r == s@.contains(c),
{
    match find_char(s, c) {
        Some(i) => {
            assert(s@[i as int] == c) by {
                lemma_first_index_bounds(s@, c);
            }
            true
        },
        None => {
            proof {
                lemma_first_index_bounds(s@, c);
            }
            false
        },
    }
}

fn read_conn_line(r: &mut ConnReader, raw: &[char])
    ensures
        final(r).fields() == conn_step(old(r).fields(), raw@),
{
    let line = trim(raw);
    if line.len() == 0 || line[0] == '#' || (line.len() >= 2 && line[0] == '/' && line[1] == '/') {
        return;
    }
    match split_once(&line, ':') {
        Some((key0, rest)) => {
            let kt = trim(&key0);
            let key = to_lower(&kt);
            let value = typed_value_of(&rest);
            if is_text(&key, "full address") || is_text(&key, "server") || is_text(&key, "host") {
                r.host_full = value;
            } else if is_text(&key, "username") || is_text(&key, "user name") {
                r.username = value;
            } else if is_text(&key, "password") {
                r.password = value;
            } else if is_text(&key, "domain") {
                r.domain = value;
            } else if is_text(&key, "connection mode") || is_text(&key, "mode") || is_text(&key, "protocol") {
                r.mode = value;
            } else if is_text(&key, "desktopwidth") || is_text(&key, "screen mode width") || is_text(&key, "width") {
                r.width = value;
            } else if is_text(&key, "desktopheight") || is_text(&key, "screen mode height") || is_text(&key, "height") {
                r.height = value;
            }
        },
        None => {
            if let Some((k0, v0)) = split_once(&line, '=') {
                let k = trim(&k0);
                let v = trim(&v0);
                if is_text(&k, "host") {
                    r.host_full = v;
                } else if is_text(&k, "port") {
                    if !contains_char(&r.host_full, ':') && r.host_full.len() != 0 {
                        let mut h = r.host_full.clone();
                        h.push(':');
                        push_chars(&mut h, &v);
                        assert(h@ =~= old(r).host_full@ + ":"@ + v@) by {
                            reveal_strlit(":");
                        }
                        r.host_full = h;
                    }
                } else if is_text(&k, "username") {
                    r.username = v;
                } else if is_text(&k, "password") {
                    r.password = v;
                } else if is_text(&k, "domain") {
                    r.domain = v;
                } else if is_text(&k, "mode") {
                    r.mode = v;
                } else if is_text(&k, "width") {
                    r.width = v;
                } else if is_text(&k, "height") {
                    r.height = v;
                }
            }
        },
    }
}

pub(crate) fn find_last(s: &[char], c: char) -> (r: Option<usize>)
    ensures
        r matches Some(i) ==> last_index(s@, c) == Some(i as int) && i < s@.len(),
        r is None ==> last_index(s@, c) is None,
{
    let mut i: usize = s.len();
    assert(s@.take(i as int) =~= s@);
    while i > 0
        invariant
            i <= s@.len(),
            last_index(s@, c) == last_index(s@.take(i as int), c),
        decreases i,
    {
        if s[i - 1] == c {
            assert(s@.take(i as int).last() == c);
            return Some(i - 1);
        }
        assert(s@.take(i as int).drop_last() =~= s@.take(i as int - 1));
        i = i - 1;
    }
    None
}

fn all_digit_chars(s: &[char]) -> (r: bool)
    ensures
        r == all_digits(s@),
{
    let mut i: usize = 0;
    while i < s.len()
        invariant
            i <= s@.len(),
            forall|j: int| 0 <= j < i ==> is_digit(#[trigger] s@[j]),
        decreases s.len() - i,
    {
        if !('0' <= s[i] && s[i] <= '9') {
            assert(!is_digit(s@[i as int]));
            return false;
        }
        i = i + 1;
    }
    true
}

impl Prefs {
    /// Parse a `.rdp` / `.vnc` connection file (Android-compatible format), given
    /// its text and the extension of its path. Existing display size prefs are
    /// preserved when the file omits them.
    pub fn parse_connection_file(text: &str, extension: Option<&str>, base: &Self) -> (r: Result<Self, String>)
        ensures
            match r {
                Ok(p) => spec_parse_connection_file(
                    text@,
                    match extension {
                        Some(e) => Some(e@),
                        None => None,
                    },
                    base@,
                ) == Ok::<PrefsView, Seq<char>>(p@),
                Err(e) => spec_parse_connection_file(
                    text@,
                    match extension {
                        Some(e) => Some(e@),
                        None => None,
                    },
                    base@,
                ) == Err::<PrefsView, Seq<char>>(e@),
            },
    {
        let chars = chars_of(text);
        let ls = lines(&chars);
        let ghost lv = ls@.map_values(|l: Vec<char>| l@);
        let mut reader = ConnReader {
            host_full: Vec::new(),
            username: Vec::new(),
            password: Vec::new(),
            domain: Vec::new(),
            mode: Vec::new(),
            width: chars_of(base.width.as_str()),
            height: chars_of(base.height.as_str()),
        };
        let ghost f0 = reader.fields();
        let mut i: usize = 0;
        while i < ls.len()
            invariant
                i <= ls@.len(),
                lv == ls@.map_values(|l: Vec<char>| l@),
                reader.fields() == conn_lines(f0, lv.take(i as int)),
            decreases ls.len() - i,
        {
            assert(lv.take(i as int + 1).drop_last() =~= lv.take(i as int));
            read_conn_line(&mut reader, &ls[i]);
            i = i + 1;
        }
        assert(lv.take(ls@.len() as int) =~= lv);
        let ghost ext = match extension {
            Some(e) => Some(e@),
            None => None,
        };
        // Extension hint when the mode is not specified.
        let m: Vec<char> = if reader.mode.len() == 0 {
            let vnc_ext = match extension {
                Some(e) => {
                    let ec = chars_of(e);
                    let v = chars_of("vnc");
                    eq_ignore_ascii_case(&ec, &v)
                },
                None => false,
            };
            if vnc_ext {
                chars_of("VNC")
            } else {
                chars_of("RDP")
            }
        } else {
            reader.mode.clone()
        };
        let mode: Vec<char> = if has_vnc(&m) {
            chars_of("VNC")
        } else {
            chars_of("RDP")
        };
        assert(mode@ == conn_mode(reader.fields().mode, ext));
        let full = trim(&reader.host_full);
        if full.len() == 0 {
            return Err(String::from_str("File has no host (full address)"));
        }
        let is_vnc_mode = is_text(&mode, "VNC");
        let default_port: Vec<char> = if is_vnc_mode {
            chars_of("5900")
        } else {
            chars_of("3389")
        };
        let (host, port) = match find_last(&full, ':') {
            Some(i) => {
                let n = full.len();
                let p = copy_chars(&full, i + 1, n);
                if p.len() > 0 && all_digit_chars(&p) {
                    (copy_chars(&full, 0, i), p)
                } else {
                    (full.clone(), default_port)
                }
            },
            None => (full.clone(), default_port),
        };
        assert((host@, port@) == split_host_port(full@, mode@));
        let d = Prefs::default();
        Ok(
            Prefs {
                host: string_from_chars(&host),
                port: string_from_chars(&port),
                username: string_from_chars(&reader.username),
                password: string_from_chars(&reader.password),
                domain: string_from_chars(&reader.domain),
                mode: string_from_chars(&mode),
                width: string_from_chars(&reader.width),
                height: string_from_chars(&reader.height),
                ..d
            },
        )
    }
}

} // verus!
