//! Writing the desktop client's session file (global settings, then one
//! `[tab]` section per open tab), and what reading it back gives.

use vstd::prelude::*;

use crate::config::{
    assign_global, assign_tab_field, bool_setting, default_prefs, finish_parse, initial_parse_state, ms_setting,
    parse_lines, parse_step, push_str, spec_parse_app_session, AppSession, AppSessionView, ParseState, Prefs,
    PrefsView,
};
use crate::numbers::{
    all_digits, is_digit, lemma_decimal_round_trip, push_decimal, spec_decimal, spec_parse_bool, spec_parse_u64,
    spec_parse_usize,
};
use crate::round_trip::{
    is_trimmed, join_lines, lemma_join_append, lemma_join_one, lemma_lines_join, lemma_trim_fixed, no_line_break,
};
use crate::text::{
    lemma_first_index, lemma_leading_count, lemma_trailing_count, spec_ascii_lower, spec_eq_ignore_ascii_case,
    spec_lines, spec_split_once, spec_trim, spec_trim_set, CharSet,
};

verus! {

/// A `key=value` line.
pub open spec fn setting(key: Seq<char>, v: Seq<char>) -> Seq<char> {
    key + "="@ + v
}

pub open spec fn bool_text(b: bool) -> Seq<char> {
    if b {
        "true"@
    } else {
        "false"@
    }
}

/// The section of one tab, ended by a blank line.
pub open spec fn tab_lines(p: PrefsView) -> Seq<Seq<char>> {
    seq![
        "[tab]"@,
        setting("host"@, p.host),
        setting("port"@, p.port),
        setting("username"@, p.username),
        setting("password"@, p.password),
        setting("domain"@, p.domain),
        setting("mode"@, p.mode),
        setting("width"@, p.width),
        setting("height"@, p.height),
        setting("enable_hover_throttle"@, bool_text(p.enable_hover_throttle)),
        setting("hover_send_interval_ms"@, spec_decimal(p.hover_send_interval_ms as nat)),
        setting("disable_rust_log"@, bool_text(p.disable_rust_log)),
        Seq::<char>::empty(),
    ]
}

/// The sections of the given tabs, in order.
pub open spec fn tabs_lines(ts: Seq<PrefsView>) -> Seq<Seq<char>>
    decreases ts.len(),
{
    if ts.len() == 0 {
        Seq::empty()
    } else {
        tabs_lines(ts.drop_last()) + tab_lines(ts.last())
    }
}

/// The global settings, ended by a blank line.
pub open spec fn global_lines(s: AppSessionView) -> Seq<Seq<char>> {
    seq![
        setting("active_tab"@, spec_decimal(s.active_tab as nat)),
        setting("enable_hover_throttle"@, bool_text(s.enable_hover_throttle)),
        setting("hover_send_interval_ms"@, spec_decimal(s.hover_send_interval_ms as nat)),
        setting("disable_rust_log"@, bool_text(s.disable_rust_log)),
        Seq::<char>::empty(),
    ]
}

/// The lines of the session file for a session.
pub open spec fn session_lines(s: AppSessionView) -> Seq<Seq<char>> {
    global_lines(s) + tabs_lines(s.tabs)
}

proof fn lemma_join_push(ls: Seq<Seq<char>>, l: Seq<char>)
    ensures
        join_lines(ls.push(l)) == join_lines(ls) + l + "\n"@,
{
    lemma_join_append(ls, seq![l]);
    lemma_join_one(l);
    assert(ls + seq![l] =~= ls.push(l));
    assert(join_lines(ls) + (l + "\n"@) =~= join_lines(ls) + l + "\n"@);
}

fn push_line(out: &mut Vec<char>, key: &str, value: &[char], Ghost(ls): Ghost<Seq<Seq<char>>>)
    requires
        old(out)@ == join_lines(ls),
    ensures
        final(out)@ == join_lines(ls.push(setting(key@, value@))),
{
    push_str(out, key);
    push_str(out, "=");
    crate::config::push_chars(out, value);
    push_str(out, "\n");
    proof {
        lemma_join_push(ls, setting(key@, value@));
    }
    assert(out@ =~= join_lines(ls) + setting(key@, value@) + "\n"@);
}

fn push_bare_line(out: &mut Vec<char>, line: &str, Ghost(ls): Ghost<Seq<Seq<char>>>)
    requires
        old(out)@ == join_lines(ls),
    ensures
        final(out)@ == join_lines(ls.push(line@)),
{
    push_str(out, line);
    push_str(out, "\n");
    proof {
        lemma_join_push(ls, line@);
    }
    assert(out@ =~= join_lines(ls) + line@ + "\n"@);
}

fn bool_chars(b: bool) -> (r: Vec<char>)
    ensures
        r@ == bool_text(b),
{
    if b {
        crate::text::chars_of("true")
    } else {
        crate::text::chars_of("false")
    }
}

fn decimal_chars(n: u64) -> (r: Vec<char>)
    ensures
        r@ == spec_decimal(n as nat),
{
    let mut r: Vec<char> = Vec::new();
    push_decimal(&mut r, n);
    assert(r@ =~= spec_decimal(n as nat));
    r
}

fn push_tab(out: &mut Vec<char>, p: &Prefs, Ghost(ls): Ghost<Seq<Seq<char>>>)
    requires
        old(out)@ == join_lines(ls),
    ensures
        final(out)@ == join_lines(ls + tab_lines(p@)),
{
    let ghost mut cur = ls;
    push_bare_line(out, "[tab]", Ghost(cur));
    proof { cur = cur.push("[tab]"@); }
    let host = crate::text::chars_of(p.host.as_str());
    push_line(out, "host", &host, Ghost(cur));
    proof { cur = cur.push(setting("host"@, p.host@)); }
    let port = crate::text::chars_of(p.port.as_str());
    push_line(out, "port", &port, Ghost(cur));
    proof { cur = cur.push(setting("port"@, p.port@)); }
    let username = crate::text::chars_of(p.username.as_str());
    push_line(out, "username", &username, Ghost(cur));
    proof { cur = cur.push(setting("username"@, p.username@)); }
    let password = crate::text::chars_of(p.password.as_str());
    push_line(out, "password", &password, Ghost(cur));
    proof { cur = cur.push(setting("password"@, p.password@)); }
    let domain = crate::text::chars_of(p.domain.as_str());
    push_line(out, "domain", &domain, Ghost(cur));
    proof { cur = cur.push(setting("domain"@, p.domain@)); }
    let mode = crate::text::chars_of(p.mode.as_str());
    push_line(out, "mode", &mode, Ghost(cur));
    proof { cur = cur.push(setting("mode"@, p.mode@)); }
    let width = crate::text::chars_of(p.width.as_str());
    push_line(out, "width", &width, Ghost(cur));
    proof { cur = cur.push(setting("width"@, p.width@)); }
    let height = crate::text::chars_of(p.height.as_str());
    push_line(out, "height", &height, Ghost(cur));
    proof { cur = cur.push(setting("height"@, p.height@)); }
    let throttle = bool_chars(p.enable_hover_throttle);
    push_line(out, "enable_hover_throttle", &throttle, Ghost(cur));
    proof { cur = cur.push(setting("enable_hover_throttle"@, throttle@)); }
    let interval = decimal_chars(p.hover_send_interval_ms);
    push_line(out, "hover_send_interval_ms", &interval, Ghost(cur));
    proof { cur = cur.push(setting("hover_send_interval_ms"@, interval@)); }
    let log = bool_chars(p.disable_rust_log);
    push_line(out, "disable_rust_log", &log, Ghost(cur));
    proof { cur = cur.push(setting("disable_rust_log"@, log@)); }
    push_bare_line(out, "", Ghost(cur));
    proof {
        reveal_strlit("");
        cur = cur.push(""@);
        assert(""@ =~= Seq::<char>::empty());
        assert(cur =~= ls + tab_lines(p@));
    }
}

impl AppSession {
    /// The session file for this session: the global settings, then one
    /// `[tab]` section per tab, each ended by a blank line.
    pub fn to_text(&self) -> (r: String)
        ensures
            r@ == join_lines(session_lines(self@)),
    {
        let mut out: Vec<char> = Vec::new();
        let ghost mut cur: Seq<Seq<char>> = Seq::empty();
        assert(out@ =~= join_lines(cur));
        let active = decimal_chars(self.active_tab as u64);
        push_line(&mut out, "active_tab", &active, Ghost(cur));
        proof { cur = cur.push(setting("active_tab"@, active@)); }
        let throttle = bool_chars(self.enable_hover_throttle);
        push_line(&mut out, "enable_hover_throttle", &throttle, Ghost(cur));
        proof { cur = cur.push(setting("enable_hover_throttle"@, throttle@)); }
        let interval = decimal_chars(self.hover_send_interval_ms);
        push_line(&mut out, "hover_send_interval_ms", &interval, Ghost(cur));
        proof { cur = cur.push(setting("hover_send_interval_ms"@, interval@)); }
        let log = bool_chars(self.disable_rust_log);
        push_line(&mut out, "disable_rust_log", &log, Ghost(cur));
        proof { cur = cur.push(setting("disable_rust_log"@, log@)); }
        push_bare_line(&mut out, "", Ghost(cur));
        proof {
            reveal_strlit("");
            cur = cur.push(""@);
            assert(""@ =~= Seq::<char>::empty());
            assert(cur =~= global_lines(self@));
        }
        let ghost tabs = self@.tabs;
        let mut i: usize = 0;
        while i < self.tabs.len()
            invariant
                0 <= i <= self.tabs.len(),
                tabs == self@.tabs,
                tabs.len() == self.tabs@.len(),
                out@ == join_lines(global_lines(self@) + tabs_lines(tabs.take(i as int))),
            decreases self.tabs.len() - i,
        {
            push_tab(&mut out, &self.tabs[i], Ghost(global_lines(self@) + tabs_lines(tabs.take(i as int))));
            proof {
                assert(tabs.take(i + 1).drop_last() =~= tabs.take(i as int));
                assert(tabs.take(i + 1).last() == self.tabs@[i as int]@);
                assert(global_lines(self@) + tabs_lines(tabs.take(i as int)) + tab_lines(self.tabs@[i as int]@)
                    =~= global_lines(self@) + tabs_lines(tabs.take(i + 1)));
            }
            i += 1;
        }
        assert(tabs.take(self.tabs.len() as int) =~= tabs);
        crate::text::string_from_chars(&out)
    }
}


/// A tab that the session file stores exactly: its text fields hold no line
/// breaks and no surrounding whitespace.
pub open spec fn tab_file_safe(p: PrefsView) -> bool {
    &&& is_trimmed(p.host) && no_line_break(p.host)
    &&& is_trimmed(p.port) && no_line_break(p.port)
    &&& is_trimmed(p.username) && no_line_break(p.username)
    &&& is_trimmed(p.password) && no_line_break(p.password)
    &&& is_trimmed(p.domain) && no_line_break(p.domain)
    &&& is_trimmed(p.mode) && no_line_break(p.mode)
    &&& is_trimmed(p.width) && no_line_break(p.width)
    &&& is_trimmed(p.height) && no_line_break(p.height)
}

/// A session that the session file stores exactly: at least one tab, the
/// active one among them, and every tab file-safe.
pub open spec fn session_file_safe(s: AppSessionView) -> bool {
    &&& s.tabs.len() >= 1
    &&& s.active_tab < s.tabs.len()
    &&& forall|i: int| 0 <= i < s.tabs.len() ==> tab_file_safe(#[trigger] s.tabs[i])
}

/// A setting name as the session-file writer uses them.
pub open spec fn setting_key(key: Seq<char>) -> bool {
    &&& key.len() > 0
    &&& 'a' <= key[0] && key[0] <= 'z'
    &&& is_trimmed(key)
    &&& no_line_break(key)
    &&& forall|i: int| 0 <= i < key.len() ==> key[i] != '='
}

/// The reader's state after the given lines, starting from `st`.
pub open spec fn parse_from(st: ParseState, ls: Seq<Seq<char>>) -> ParseState
    decreases ls.len(),
{
    if ls.len() == 0 {
        st
    } else {
        parse_step(parse_from(st, ls.drop_last()), ls.last())
    }
}

proof fn lemma_parse_lines_from(ls: Seq<Seq<char>>)
    ensures
        parse_lines(ls) == parse_from(initial_parse_state(), ls),
    decreases ls.len(),
{
    if ls.len() > 0 {
        lemma_parse_lines_from(ls.drop_last());
    }
}

proof fn lemma_parse_from_append(st: ParseState, a: Seq<Seq<char>>, b: Seq<Seq<char>>)
    ensures
        parse_from(st, a + b) == parse_from(parse_from(st, a), b),
    decreases b.len(),
{
    if b.len() == 0 {
        assert(a + b =~= a);
    } else {
        lemma_parse_from_append(st, a, b.drop_last());
        assert((a + b).drop_last() =~= a + b.drop_last());
        assert((a + b).last() == b.last());
    }
}

proof fn lemma_parse_from_take(st: ParseState, ls: Seq<Seq<char>>, k: int)
    requires
        0 <= k < ls.len(),
    ensures
        parse_from(st, ls.take(k + 1)) == parse_step(parse_from(st, ls.take(k)), ls[k]),
{
    assert(ls.take(k + 1).drop_last() =~= ls.take(k));
    assert(ls.take(k + 1).last() == ls[k]);
}

proof fn lemma_trim_line_breaks_fixed(s: Seq<char>)
    requires
        no_line_break(s),
    ensures
        spec_trim_set(s, CharSet::LineBreak) == s,
{
    if s.len() > 0 {
        lemma_leading_count(s, CharSet::LineBreak, 0);
        assert(s.skip(0) =~= s);
        lemma_trailing_count(s, CharSet::LineBreak, 0);
    }
    assert(s.skip(0) =~= s);
    assert(s.take(s.len() as int) =~= s);
}

proof fn lemma_setting_no_break(key: Seq<char>, v: Seq<char>)
    requires
        no_line_break(key),
        no_line_break(v),
    ensures
        no_line_break(setting(key, v)),
{
    reveal_strlit("=");
    let l = setting(key, v);
    assert forall|i: int| 0 <= i < l.len() implies l[i] != '\n' && l[i] != '\r' by {
        if i < key.len() {
            assert(l[i] == key[i]);
        } else if i > key.len() {
            assert(l[i] == v[i - key.len() - 1]);
        }
    }
}

proof fn lemma_setting_step(st: ParseState, key: Seq<char>, v: Seq<char>)
    requires
        setting_key(key),
        is_trimmed(v),
        no_line_break(v),
    ensures
        parse_step(st, setting(key, v)) == (match st.current {
            Some(p) => ParseState { current: Some(assign_tab_field(p, key, v)), ..st },
            None => assign_global(st, key, v),
        }),
{
    reveal_strlit("=");
    reveal_strlit("[tab]");
    let raw = setting(key, v);
    assert(raw.len() == key.len() + 1 + v.len());
    lemma_setting_no_break(key, v);
    lemma_trim_line_breaks_fixed(raw);
    assert(raw[0] == key[0]);
    if v.len() > 0 {
        assert(raw.last() == v.last());
    } else {
        assert(raw.last() == '=');
    }
    lemma_trim_fixed(raw);
    assert(!spec_eq_ignore_ascii_case(raw, "[tab]"@)) by {
        if raw.len() == 5 {
            assert(spec_ascii_lower(raw[0]) != spec_ascii_lower("[tab]"@[0]));
        }
    }
    assert(raw[key.len() as int] == '=');
    assert forall|j: int| 0 <= j < key.len() implies raw[j] != '=' by {
        assert(raw[j] == key[j]);
    }
    lemma_first_index(raw, '=', key.len() as int);
    assert(raw.take(key.len() as int) =~= key);
    assert(raw.skip(key.len() as int + 1) =~= v);
    lemma_trim_fixed(key);
    lemma_trim_fixed(v);
    assert(spec_split_once(raw, '=') == Some((key, v)));
}

proof fn lemma_blank_step(st: ParseState)
    ensures
        parse_step(st, Seq::<char>::empty()) == st,
{
    let e = Seq::<char>::empty();
    assert(e.skip(0) =~= e);
    assert(spec_trim_set(e, CharSet::LineBreak) =~= e);
    assert(spec_trim(e) =~= e);
}

proof fn lemma_header_step(st: ParseState)
    ensures
        parse_step(st, "[tab]"@) == (ParseState {
            session: AppSessionView {
                tabs: match st.current {
                    Some(t) => st.session.tabs.push(t),
                    None => st.session.tabs,
                },
                ..st.session
            },
            current: Some(default_prefs()),
            saw_tab: true,
            ..st
        }),
{
    reveal_strlit("[tab]");
    let h = "[tab]"@;
    assert(no_line_break(h));
    lemma_trim_line_breaks_fixed(h);
    assert(is_trimmed(h));
    lemma_trim_fixed(h);
}

/// Whether a raw line of a session file opens a `[tab]` section.
pub open spec fn is_tab_header(raw: Seq<char>) -> bool {
    spec_eq_ignore_ascii_case(spec_trim(spec_trim_set(raw, CharSet::LineBreak)), "[tab]"@)
}

/// A setting outside any section fills the single tab of an old-style file as
/// the same setting fills the open tab inside a section, and leaves the
/// reader's sections alone.
proof fn lemma_global_fills_fallback(st: ParseState, k: Seq<char>, v: Seq<char>)
    ensures
        assign_global(st, k, v).fallback == assign_tab_field(st.fallback, k, v),
        assign_global(st, k, v).current == st.current,
        assign_global(st, k, v).saw_tab == st.saw_tab,
        assign_global(st, k, v).session.tabs == st.session.tabs,
{
    reveal_strlit("active_tab");
    reveal_strlit("host");
    reveal_strlit("port");
    reveal_strlit("username");
    reveal_strlit("password");
    reveal_strlit("domain");
    reveal_strlit("mode");
    reveal_strlit("width");
    reveal_strlit("height");
    reveal_strlit("enable_hover_throttle");
    reveal_strlit("hover_send_interval_ms");
    reveal_strlit("disable_rust_log");
    reveal_strlit("disable_frame_complete_log");
    assert("active_tab"@.len() == 10);
    assert("enable_hover_throttle"@.len() == 21);
    assert("hover_send_interval_ms"@.len() == 22);
    assert("disable_rust_log"@.len() == 16);
    assert("disable_frame_complete_log"@.len() == 26);
    assert("host"@.len() == 4 && "port"@.len() == 4 && "mode"@.len() == 4 && "width"@.len() == 5);
    assert("username"@.len() == 8 && "password"@.len() == 8 && "domain"@.len() == 6 && "height"@.len() == 6);
}

/// The reader's states on an old-style file, read as it is and read after a
/// `[tab]` line: the first has no section and holds the single tab in its
/// fallback form; the second has that same form open as its only tab.
proof fn lemma_sectionless_states(ls: Seq<Seq<char>>)
    requires
        forall|i: int| 0 <= i < ls.len() ==> !is_tab_header(#[trigger] ls[i]),
    ensures
        ({
            let a = parse_from(initial_parse_state(), ls);
            let b = parse_from(parse_step(initial_parse_state(), "[tab]"@), ls);
            &&& a.current is None
            &&& !a.saw_tab
            &&& a.session.tabs.len() == 0
            &&& b.current == Some(a.fallback)
            &&& b.session.tabs.len() == 0
        }),
    decreases ls.len(),
{
    lemma_header_step(initial_parse_state());
    if ls.len() > 0 {
        let prev = ls.drop_last();
        assert forall|i: int| 0 <= i < prev.len() implies !is_tab_header(#[trigger] prev[i]) by {
            assert(prev[i] == ls[i]);
        }
        lemma_sectionless_states(prev);
        let a = parse_from(initial_parse_state(), prev);
        assert(!is_tab_header(ls[ls.len() - 1]));
        let line = spec_trim_set(ls.last(), CharSet::LineBreak);
        match spec_split_once(line, '=') {
            None => {},
            Some((k0, v0)) => {
                lemma_global_fills_fallback(a, spec_trim(k0), spec_trim(v0));
            },
        }
    }
}

/// An old-style session file, one without a `[tab]` line, reads as the same
/// tabs as that file with a `[tab]` line put first: it holds a single tab, and
/// each of its settings outside any section fills that tab exactly as the
/// setting fills a tab inside a section.
pub proof fn lemma_sectionless_file_is_one_tab(ls: Seq<Seq<char>>)
    requires
        forall|i: int| 0 <= i < ls.len() ==> !is_tab_header(#[trigger] ls[i]),
    ensures
        finish_parse(parse_lines(seq!["[tab]"@] + ls)).tabs == finish_parse(parse_lines(ls)).tabs,
        finish_parse(parse_lines(ls)).tabs.len() == 1,
{
    let h = seq!["[tab]"@];
    lemma_parse_lines_from(ls);
    lemma_parse_lines_from(h + ls);
    lemma_parse_from_append(initial_parse_state(), h, ls);
    assert(h.drop_last() =~= Seq::<Seq<char>>::empty());
    assert(parse_from(initial_parse_state(), h.drop_last()) == initial_parse_state());
    assert(h.last() == "[tab]"@);
    assert(parse_from(initial_parse_state(), h) == parse_step(initial_parse_state(), "[tab]"@));
    lemma_sectionless_states(ls);
    let a = parse_from(initial_parse_state(), ls);
    assert(a.session.tabs.push(a.fallback) =~= seq![a.fallback]);
}

/// Facts about the setting names of the session file.
proof fn lemma_setting_keys()
    ensures
        setting_key("active_tab"@),
        setting_key("host"@),
        setting_key("port"@),
        setting_key("username"@),
        setting_key("password"@),
        setting_key("domain"@),
        setting_key("mode"@),
        setting_key("width"@),
        setting_key("height"@),
        setting_key("enable_hover_throttle"@),
        setting_key("hover_send_interval_ms"@),
        setting_key("disable_rust_log"@),
{
    reveal_strlit("active_tab");
    reveal_strlit("host");
    reveal_strlit("port");
    reveal_strlit("username");
    reveal_strlit("password");
    reveal_strlit("domain");
    reveal_strlit("mode");
    reveal_strlit("width");
    reveal_strlit("height");
    reveal_strlit("enable_hover_throttle");
    reveal_strlit("hover_send_interval_ms");
    reveal_strlit("disable_rust_log");
}

proof fn lemma_value_facts(b: bool, n: u64)
    ensures
        is_trimmed(bool_text(b)),
        no_line_break(bool_text(b)),
        bool_setting(bool_text(b)) == b,
        is_trimmed(spec_decimal(n as nat)),
        no_line_break(spec_decimal(n as nat)),
        ms_setting(spec_decimal(n as nat)) == n,
        n <= usize::MAX ==> spec_parse_usize(spec_decimal(n as nat)) == Some(n as usize),
{
    reveal_strlit("true");
    reveal_strlit("false");
    lemma_decimal_round_trip(n as nat);
    let d = spec_decimal(n as nat);
    assert(is_digit(d[0]) && is_digit(d[d.len() - 1]));
    assert(no_line_break(d)) by {
        assert forall|i: int| 0 <= i < d.len() implies d[i] != '\n' && d[i] != '\r' by {
            assert(is_digit(d[i]));
        }
    }
    assert(spec_parse_u64(d) == Some(n));
}


proof fn lemma_setting_step_in_tab(st: ParseState, key: Seq<char>, v: Seq<char>)
    requires
        setting_key(key),
        is_trimmed(v),
        no_line_break(v),
        st.current is Some,
    ensures
        parse_step(st, setting(key, v)) == (ParseState { current: Some(assign_tab_field(st.current->0, key, v)), ..st }),
{
    lemma_setting_step(st, key, v);
}

/// How each setting of a tab section changes the form.
proof fn lemma_tab_fields(q: PrefsView, p: PrefsView)
    requires
        no_line_break(p.password),
    ensures
        assign_tab_field(q, "host"@, p.host) == (PrefsView { host: p.host, ..q }),
        assign_tab_field(q, "port"@, p.port) == (PrefsView { port: p.port, ..q }),
        assign_tab_field(q, "username"@, p.username) == (PrefsView { username: p.username, ..q }),
        assign_tab_field(q, "password"@, p.password) == (PrefsView { password: p.password, ..q }),
        assign_tab_field(q, "domain"@, p.domain) == (PrefsView { domain: p.domain, ..q }),
        assign_tab_field(q, "mode"@, p.mode) == (PrefsView { mode: p.mode, ..q }),
        assign_tab_field(q, "width"@, p.width) == (PrefsView { width: p.width, ..q }),
        assign_tab_field(q, "height"@, p.height) == (PrefsView { height: p.height, ..q }),
        assign_tab_field(q, "enable_hover_throttle"@, bool_text(p.enable_hover_throttle)) == (PrefsView { enable_hover_throttle: p.enable_hover_throttle, ..q }),
        assign_tab_field(q, "hover_send_interval_ms"@, spec_decimal(p.hover_send_interval_ms as nat)) == (PrefsView { hover_send_interval_ms: p.hover_send_interval_ms, ..q }),
        assign_tab_field(q, "disable_rust_log"@, bool_text(p.disable_rust_log)) == (PrefsView { disable_rust_log: p.disable_rust_log, ..q }),
{
    lemma_tab_field_host(q, p);
    lemma_tab_field_port(q, p);
    lemma_tab_field_username(q, p);
    lemma_tab_field_password(q, p);
    lemma_tab_field_domain(q, p);
    lemma_tab_field_mode(q, p);
    lemma_tab_field_width(q, p);
    lemma_tab_field_height(q, p);
    lemma_tab_field_enable_hover_throttle(q, p);
    lemma_tab_field_hover_send_interval_ms(q, p);
    lemma_tab_field_disable_rust_log(q, p);
}

proof fn lemma_tab_field_host(q: PrefsView, p: PrefsView)
    ensures
        assign_tab_field(q, "host"@, p.host) == (PrefsView { host: p.host, ..q }),
{
    reveal_strlit("host");
}

proof fn lemma_tab_field_port(q: PrefsView, p: PrefsView)
    ensures
        assign_tab_field(q, "port"@, p.port) == (PrefsView { port: p.port, ..q }),
{
    reveal_strlit("host");
    reveal_strlit("port");
    assert("port"@[0] != "host"@[0]);
    assert("port"@ != "host"@);
}

proof fn lemma_tab_field_username(q: PrefsView, p: PrefsView)
    ensures
        assign_tab_field(q, "username"@, p.username) == (PrefsView { username: p.username, ..q }),
{
    reveal_strlit("host");
    reveal_strlit("port");
    reveal_strlit("username");
    assert("username"@.len() != "host"@.len());
    assert("username"@ != "host"@);
    assert("username"@.len() != "port"@.len());
    assert("username"@ != "port"@);
}

proof fn lemma_tab_field_password(q: PrefsView, p: PrefsView)
    requires
        no_line_break(p.password),
    ensures
        assign_tab_field(q, "password"@, p.password) == (PrefsView { password: p.password, ..q }),
{
    reveal_strlit("host");
    reveal_strlit("port");
    reveal_strlit("username");
    reveal_strlit("password");
    assert("password"@.len() != "host"@.len());
    assert("password"@ != "host"@);
    assert("password"@.len() != "port"@.len());
    assert("password"@ != "port"@);
    assert("password"@[0] != "username"@[0]);
    assert("password"@ != "username"@);
    lemma_trim_line_breaks_fixed(p.password);
}

proof fn lemma_tab_field_domain(q: PrefsView, p: PrefsView)
    ensures
        assign_tab_field(q, "domain"@, p.domain) == (PrefsView { domain: p.domain, ..q }),
{
    reveal_strlit("host");
    reveal_strlit("port");
    reveal_strlit("username");
    reveal_strlit("password");
    reveal_strlit("domain");
    assert("domain"@.len() != "host"@.len());
    assert("domain"@ != "host"@);
    assert("domain"@.len() != "port"@.len());
    assert("domain"@ != "port"@);
    assert("domain"@.len() != "username"@.len());
    assert("domain"@ != "username"@);
    assert("domain"@.len() != "password"@.len());
    assert("domain"@ != "password"@);
}

proof fn lemma_tab_field_mode(q: PrefsView, p: PrefsView)
    ensures
        assign_tab_field(q, "mode"@, p.mode) == (PrefsView { mode: p.mode, ..q }),
{
    reveal_strlit("host");
    reveal_strlit("port");
    reveal_strlit("username");
    reveal_strlit("password");
    reveal_strlit("domain");
    reveal_strlit("mode");
    assert("mode"@[0] != "host"@[0]);
    assert("mode"@ != "host"@);
    assert("mode"@[0] != "port"@[0]);
    assert("mode"@ != "port"@);
    assert("mode"@.len() != "username"@.len());
    assert("mode"@ != "username"@);
    assert("mode"@.len() != "password"@.len());
    assert("mode"@ != "password"@);
    assert("mode"@.len() != "domain"@.len());
    assert("mode"@ != "domain"@);
}

proof fn lemma_tab_field_width(q: PrefsView, p: PrefsView)
    ensures
        assign_tab_field(q, "width"@, p.width) == (PrefsView { width: p.width, ..q }),
{
    reveal_strlit("host");
    reveal_strlit("port");
    reveal_strlit("username");
    reveal_strlit("password");
    reveal_strlit("domain");
    reveal_strlit("mode");
    reveal_strlit("width");
    assert("width"@.len() != "host"@.len());
    assert("width"@ != "host"@);
    assert("width"@.len() != "port"@.len());
    assert("width"@ != "port"@);
    assert("width"@.len() != "username"@.len());
    assert("width"@ != "username"@);
    assert("width"@.len() != "password"@.len());
    assert("width"@ != "password"@);
    assert("width"@.len() != "domain"@.len());
    assert("width"@ != "domain"@);
    assert("width"@.len() != "mode"@.len());
    assert("width"@ != "mode"@);
}

proof fn lemma_tab_field_height(q: PrefsView, p: PrefsView)
    ensures
        assign_tab_field(q, "height"@, p.height) == (PrefsView { height: p.height, ..q }),
{
    reveal_strlit("host");
    reveal_strlit("port");
    reveal_strlit("username");
    reveal_strlit("password");
    reveal_strlit("domain");
    reveal_strlit("mode");
    reveal_strlit("width");
    reveal_strlit("height");
    assert("height"@.len() != "host"@.len());
    assert("height"@ != "host"@);
    assert("height"@.len() != "port"@.len());
    assert("height"@ != "port"@);
    assert("height"@.len() != "username"@.len());
    assert("height"@ != "username"@);
    assert("height"@.len() != "password"@.len());
    assert("height"@ != "password"@);
    assert("height"@[0] != "domain"@[0]);
    assert("height"@ != "domain"@);
    assert("height"@.len() != "mode"@.len());
    assert("height"@ != "mode"@);
    assert("height"@.len() != "width"@.len());
    assert("height"@ != "width"@);
}

proof fn lemma_tab_field_enable_hover_throttle(q: PrefsView, p: PrefsView)
    ensures
        assign_tab_field(q, "enable_hover_throttle"@, bool_text(p.enable_hover_throttle)) == (PrefsView { enable_hover_throttle: p.enable_hover_throttle, ..q }),
{
    reveal_strlit("host");
    reveal_strlit("port");
    reveal_strlit("username");
    reveal_strlit("password");
    reveal_strlit("domain");
    reveal_strlit("mode");
    reveal_strlit("width");
    reveal_strlit("height");
    reveal_strlit("enable_hover_throttle");
    assert("enable_hover_throttle"@.len() != "host"@.len());
    assert("enable_hover_throttle"@ != "host"@);
    assert("enable_hover_throttle"@.len() != "port"@.len());
    assert("enable_hover_throttle"@ != "port"@);
    assert("enable_hover_throttle"@.len() != "username"@.len());
    assert("enable_hover_throttle"@ != "username"@);
    assert("enable_hover_throttle"@.len() != "password"@.len());
    assert("enable_hover_throttle"@ != "password"@);
    assert("enable_hover_throttle"@.len() != "domain"@.len());
    assert("enable_hover_throttle"@ != "domain"@);
    assert("enable_hover_throttle"@.len() != "mode"@.len());
    assert("enable_hover_throttle"@ != "mode"@);
    assert("enable_hover_throttle"@.len() != "width"@.len());
    assert("enable_hover_throttle"@ != "width"@);
    assert("enable_hover_throttle"@.len() != "height"@.len());
    assert("enable_hover_throttle"@ != "height"@);
    lemma_value_facts(p.enable_hover_throttle, p.hover_send_interval_ms);
}

proof fn lemma_tab_field_hover_send_interval_ms(q: PrefsView, p: PrefsView)
    ensures
        assign_tab_field(q, "hover_send_interval_ms"@, spec_decimal(p.hover_send_interval_ms as nat)) == (PrefsView { hover_send_interval_ms: p.hover_send_interval_ms, ..q }),
{
    reveal_strlit("host");
    reveal_strlit("port");
    reveal_strlit("username");
    reveal_strlit("password");
    reveal_strlit("domain");
    reveal_strlit("mode");
    reveal_strlit("width");
    reveal_strlit("height");
    reveal_strlit("enable_hover_throttle");
    reveal_strlit("hover_send_interval_ms");
    assert("hover_send_interval_ms"@.len() != "host"@.len());
    assert("hover_send_interval_ms"@ != "host"@);
    assert("hover_send_interval_ms"@.len() != "port"@.len());
    assert("hover_send_interval_ms"@ != "port"@);
    assert("hover_send_interval_ms"@.len() != "username"@.len());
    assert("hover_send_interval_ms"@ != "username"@);
    assert("hover_send_interval_ms"@.len() != "password"@.len());
    assert("hover_send_interval_ms"@ != "password"@);
    assert("hover_send_interval_ms"@.len() != "domain"@.len());
    assert("hover_send_interval_ms"@ != "domain"@);
    assert("hover_send_interval_ms"@.len() != "mode"@.len());
    assert("hover_send_interval_ms"@ != "mode"@);
    assert("hover_send_interval_ms"@.len() != "width"@.len());
    assert("hover_send_interval_ms"@ != "width"@);
    assert("hover_send_interval_ms"@.len() != "height"@.len());
    assert("hover_send_interval_ms"@ != "height"@);
    assert("hover_send_interval_ms"@.len() != "enable_hover_throttle"@.len());
    assert("hover_send_interval_ms"@ != "enable_hover_throttle"@);
    lemma_value_facts(p.enable_hover_throttle, p.hover_send_interval_ms);
}

proof fn lemma_tab_field_disable_rust_log(q: PrefsView, p: PrefsView)
    ensures
        assign_tab_field(q, "disable_rust_log"@, bool_text(p.disable_rust_log)) == (PrefsView { disable_rust_log: p.disable_rust_log, ..q }),
{
    reveal_strlit("host");
    reveal_strlit("port");
    reveal_strlit("username");
    reveal_strlit("password");
    reveal_strlit("domain");
    reveal_strlit("mode");
    reveal_strlit("width");
    reveal_strlit("height");
    reveal_strlit("enable_hover_throttle");
    reveal_strlit("hover_send_interval_ms");
    reveal_strlit("disable_rust_log");
    assert("disable_rust_log"@.len() != "host"@.len());
    assert("disable_rust_log"@ != "host"@);
    assert("disable_rust_log"@.len() != "port"@.len());
    assert("disable_rust_log"@ != "port"@);
    assert("disable_rust_log"@.len() != "username"@.len());
    assert("disable_rust_log"@ != "username"@);
    assert("disable_rust_log"@.len() != "password"@.len());
    assert("disable_rust_log"@ != "password"@);
    assert("disable_rust_log"@.len() != "domain"@.len());
    assert("disable_rust_log"@ != "domain"@);
    assert("disable_rust_log"@.len() != "mode"@.len());
    assert("disable_rust_log"@ != "mode"@);
    assert("disable_rust_log"@.len() != "width"@.len());
    assert("disable_rust_log"@ != "width"@);
    assert("disable_rust_log"@.len() != "height"@.len());
    assert("disable_rust_log"@ != "height"@);
    assert("disable_rust_log"@.len() != "enable_hover_throttle"@.len());
    assert("disable_rust_log"@ != "enable_hover_throttle"@);
    assert("disable_rust_log"@.len() != "hover_send_interval_ms"@.len());
    assert("disable_rust_log"@ != "hover_send_interval_ms"@);
    lemma_value_facts(p.disable_rust_log, 0);
}

#[verifier::spinoff_prover]
#[verifier::rlimit(40)]
proof fn lemma_tab_section(st: ParseState, p: PrefsView)
    requires
        tab_file_safe(p),
    ensures
        parse_from(st, tab_lines(p)) == (ParseState {
            session: AppSessionView {
                tabs: match st.current {
                    Some(t) => st.session.tabs.push(t),
                    None => st.session.tabs,
                },
                ..st.session
            },
            current: Some(p),
            saw_tab: true,
            ..st
        }),
{
    lemma_setting_keys();
    lemma_value_facts(p.enable_hover_throttle, p.hover_send_interval_ms);
    lemma_value_facts(p.disable_rust_log, 0);
    let t = tab_lines(p);
    let h = ParseState {
        session: AppSessionView {
            tabs: match st.current {
                Some(c) => st.session.tabs.push(c),
                None => st.session.tabs,
            },
            ..st.session
        },
        current: Some(default_prefs()),
        saw_tab: true,
        ..st
    };
    assert(t.take(0) =~= Seq::<Seq<char>>::empty());
    lemma_parse_from_take(st, t, 0);
    lemma_header_step(st);
    assert(parse_from(st, t.take(1)) == h);
    let mut q = default_prefs();
    lemma_parse_from_take(st, t, 1);
    lemma_tab_fields(q, p);
    lemma_setting_step_in_tab(h, "host"@, p.host);
    q = PrefsView { host: p.host, ..q };
    assert(parse_from(st, t.take(2)) == ParseState { current: Some(q), ..h });
    lemma_parse_from_take(st, t, 2);
    lemma_tab_fields(q, p);
    lemma_setting_step_in_tab(ParseState { current: Some(q), ..h }, "port"@, p.port);
    q = PrefsView { port: p.port, ..q };
    assert(parse_from(st, t.take(3)) == ParseState { current: Some(q), ..h });
    lemma_parse_from_take(st, t, 3);
    lemma_tab_fields(q, p);
    lemma_setting_step_in_tab(ParseState { current: Some(q), ..h }, "username"@, p.username);
    q = PrefsView { username: p.username, ..q };
    assert(parse_from(st, t.take(4)) == ParseState { current: Some(q), ..h });
    lemma_parse_from_take(st, t, 4);
    lemma_tab_fields(q, p);
    lemma_setting_step_in_tab(ParseState { current: Some(q), ..h }, "password"@, p.password);
    q = PrefsView { password: p.password, ..q };
    assert(parse_from(st, t.take(5)) == ParseState { current: Some(q), ..h });
    lemma_parse_from_take(st, t, 5);
    lemma_tab_fields(q, p);
    lemma_setting_step_in_tab(ParseState { current: Some(q), ..h }, "domain"@, p.domain);
    q = PrefsView { domain: p.domain, ..q };
    assert(parse_from(st, t.take(6)) == ParseState { current: Some(q), ..h });
    lemma_parse_from_take(st, t, 6);
    lemma_tab_fields(q, p);
    lemma_setting_step_in_tab(ParseState { current: Some(q), ..h }, "mode"@, p.mode);
    q = PrefsView { mode: p.mode, ..q };
    assert(parse_from(st, t.take(7)) == ParseState { current: Some(q), ..h });
    lemma_parse_from_take(st, t, 7);
    lemma_tab_fields(q, p);
    lemma_setting_step_in_tab(ParseState { current: Some(q), ..h }, "width"@, p.width);
    q = PrefsView { width: p.width, ..q };
    assert(parse_from(st, t.take(8)) == ParseState { current: Some(q), ..h });
    lemma_parse_from_take(st, t, 8);
    lemma_tab_fields(q, p);
    lemma_setting_step_in_tab(ParseState { current: Some(q), ..h }, "height"@, p.height);
    q = PrefsView { height: p.height, ..q };
    assert(parse_from(st, t.take(9)) == ParseState { current: Some(q), ..h });
    lemma_parse_from_take(st, t, 9);
    lemma_tab_fields(q, p);
    lemma_setting_step_in_tab(ParseState { current: Some(q), ..h }, "enable_hover_throttle"@, bool_text(p.enable_hover_throttle));
    q = PrefsView { enable_hover_throttle: p.enable_hover_throttle, ..q };
    assert(parse_from(st, t.take(10)) == ParseState { current: Some(q), ..h });
    lemma_parse_from_take(st, t, 10);
    lemma_tab_fields(q, p);
    lemma_setting_step_in_tab(
        ParseState { current: Some(q), ..h },
        "hover_send_interval_ms"@,
        spec_decimal(p.hover_send_interval_ms as nat),
    );
    q = PrefsView { hover_send_interval_ms: p.hover_send_interval_ms, ..q };
    assert(parse_from(st, t.take(11)) == ParseState { current: Some(q), ..h });
    lemma_parse_from_take(st, t, 11);
    lemma_tab_fields(q, p);
    lemma_setting_step_in_tab(ParseState { current: Some(q), ..h }, "disable_rust_log"@, bool_text(p.disable_rust_log));
    q = PrefsView { disable_rust_log: p.disable_rust_log, ..q };
    assert(parse_from(st, t.take(12)) == ParseState { current: Some(q), ..h });
    lemma_parse_from_take(st, t, 12);
    lemma_blank_step(ParseState { current: Some(q), ..h });
    assert(t.take(13) =~= t);
    assert(q == p);
}


/// The reader's state after the global section of a session file.
pub open spec fn after_globals(s: AppSessionView) -> ParseState {
    ParseState {
        session: AppSessionView {
            active_tab: s.active_tab,
            enable_hover_throttle: s.enable_hover_throttle,
            hover_send_interval_ms: s.hover_send_interval_ms,
            disable_rust_log: s.disable_rust_log,
            tabs: Seq::empty(),
        },
        current: None,
        fallback: PrefsView {
            enable_hover_throttle: s.enable_hover_throttle,
            hover_send_interval_ms: s.hover_send_interval_ms,
            disable_rust_log: s.disable_rust_log,
            ..default_prefs()
        },
        saw_tab: false,
    }
}

#[verifier::spinoff_prover]
proof fn lemma_global_section(s: AppSessionView)
    ensures
        parse_from(initial_parse_state(), global_lines(s)) == after_globals(s),
{
    reveal_strlit("active_tab");
    reveal_strlit("enable_hover_throttle");
    reveal_strlit("hover_send_interval_ms");
    reveal_strlit("disable_rust_log");
    reveal_strlit("disable_frame_complete_log");
    assert("enable_hover_throttle"@.len() != "active_tab"@.len());
    assert("hover_send_interval_ms"@.len() != "active_tab"@.len());
    assert("hover_send_interval_ms"@.len() != "enable_hover_throttle"@.len());
    assert("disable_rust_log"@.len() != "active_tab"@.len());
    assert("disable_rust_log"@.len() != "enable_hover_throttle"@.len());
    assert("disable_rust_log"@.len() != "hover_send_interval_ms"@.len());
    lemma_setting_keys();
    lemma_value_facts(s.enable_hover_throttle, s.active_tab as u64);
    lemma_value_facts(s.disable_rust_log, s.hover_send_interval_ms);
    let g = global_lines(s);
    let st0 = initial_parse_state();
    assert(g.take(0) =~= Seq::<Seq<char>>::empty());
    lemma_parse_from_take(st0, g, 0);
    lemma_setting_step(st0, "active_tab"@, spec_decimal(s.active_tab as nat));
    let st1 = ParseState { session: AppSessionView { active_tab: s.active_tab, ..st0.session }, ..st0 };
    assert(parse_from(st0, g.take(1)) == st1);
    lemma_parse_from_take(st0, g, 1);
    lemma_setting_step(st1, "enable_hover_throttle"@, bool_text(s.enable_hover_throttle));
    let st2 = ParseState {
        session: AppSessionView { enable_hover_throttle: s.enable_hover_throttle, ..st1.session },
        fallback: PrefsView { enable_hover_throttle: s.enable_hover_throttle, ..st1.fallback },
        ..st1
    };
    assert(parse_from(st0, g.take(2)) == st2);
    lemma_parse_from_take(st0, g, 2);
    lemma_setting_step(st2, "hover_send_interval_ms"@, spec_decimal(s.hover_send_interval_ms as nat));
    let st3 = ParseState {
        session: AppSessionView { hover_send_interval_ms: s.hover_send_interval_ms, ..st2.session },
        fallback: PrefsView { hover_send_interval_ms: s.hover_send_interval_ms, ..st2.fallback },
        ..st2
    };
    assert(parse_from(st0, g.take(3)) == st3);
    lemma_parse_from_take(st0, g, 3);
    lemma_setting_step(st3, "disable_rust_log"@, bool_text(s.disable_rust_log));
    let st4 = ParseState {
        session: AppSessionView { disable_rust_log: s.disable_rust_log, ..st3.session },
        fallback: PrefsView { disable_rust_log: s.disable_rust_log, ..st3.fallback },
        ..st3
    };
    assert(parse_from(st0, g.take(4)) == st4);
    lemma_parse_from_take(st0, g, 4);
    lemma_blank_step(st4);
    assert(g.take(5) =~= g);
    assert(st4.session.tabs =~= Seq::<PrefsView>::empty());
    assert(st4 == after_globals(s));
}

proof fn lemma_tab_sections(g: ParseState, ts: Seq<PrefsView>)
    requires
        g.current is None,
        ts.len() >= 1,
        forall|i: int| 0 <= i < ts.len() ==> tab_file_safe(#[trigger] ts[i]),
    ensures
        parse_from(g, tabs_lines(ts)) == (ParseState {
            session: AppSessionView { tabs: g.session.tabs + ts.drop_last(), ..g.session },
            current: Some(ts.last()),
            saw_tab: true,
            ..g
        }),
    decreases ts.len(),
{
    let dl = ts.drop_last();
    assert(tabs_lines(ts) == tabs_lines(dl) + tab_lines(ts.last()));
    lemma_parse_from_append(g, tabs_lines(dl), tab_lines(ts.last()));
    assert(tab_file_safe(ts[ts.len() - 1]));
    if dl.len() == 0 {
        assert(tabs_lines(dl) =~= Seq::<Seq<char>>::empty());
        lemma_tab_section(g, ts.last());
        assert(g.session.tabs + dl =~= g.session.tabs);
    } else {
        assert forall|i: int| 0 <= i < dl.len() implies tab_file_safe(#[trigger] dl[i]) by {
            assert(dl[i] == ts[i]);
        }
        lemma_tab_sections(g, dl);
        let mid = ParseState {
            session: AppSessionView { tabs: g.session.tabs + dl.drop_last(), ..g.session },
            current: Some(dl.last()),
            saw_tab: true,
            ..g
        };
        lemma_tab_section(mid, ts.last());
        assert(g.session.tabs + dl.drop_last() + seq![dl.last()] =~= g.session.tabs + dl);
        assert((g.session.tabs + dl.drop_last()).push(dl.last()) =~= g.session.tabs + dl);
    }
}

proof fn lemma_session_lines_no_break(s: AppSessionView)
    requires
        forall|i: int| 0 <= i < s.tabs.len() ==> tab_file_safe(#[trigger] s.tabs[i]),
    ensures
        forall|i: int| 0 <= i < session_lines(s).len() ==> no_line_break(#[trigger] session_lines(s)[i]),
{
    reveal_strlit("[tab]");
    lemma_setting_keys();
    assert(no_line_break(Seq::<char>::empty()));
    assert(no_line_break("[tab]"@));
    lemma_value_facts(s.enable_hover_throttle, s.active_tab as u64);
    lemma_value_facts(s.disable_rust_log, s.hover_send_interval_ms);
    let g = global_lines(s);
    assert forall|i: int| 0 <= i < g.len() implies no_line_break(#[trigger] g[i]) by {
        lemma_setting_no_break("active_tab"@, spec_decimal(s.active_tab as nat));
        lemma_setting_no_break("enable_hover_throttle"@, bool_text(s.enable_hover_throttle));
        lemma_setting_no_break("hover_send_interval_ms"@, spec_decimal(s.hover_send_interval_ms as nat));
        lemma_setting_no_break("disable_rust_log"@, bool_text(s.disable_rust_log));
    }
    lemma_tabs_lines_no_break(s.tabs);
    let all = session_lines(s);
    assert forall|i: int| 0 <= i < all.len() implies no_line_break(#[trigger] all[i]) by {
        if i < g.len() {
            assert(all[i] == g[i]);
        } else {
            assert(all[i] == tabs_lines(s.tabs)[i - g.len()]);
        }
    }
}

proof fn lemma_tabs_lines_no_break(ts: Seq<PrefsView>)
    requires
        forall|i: int| 0 <= i < ts.len() ==> tab_file_safe(#[trigger] ts[i]),
    ensures
        forall|i: int| 0 <= i < tabs_lines(ts).len() ==> no_line_break(#[trigger] tabs_lines(ts)[i]),
    decreases ts.len(),
{
    if ts.len() > 0 {
        let dl = ts.drop_last();
        assert forall|i: int| 0 <= i < dl.len() implies tab_file_safe(#[trigger] dl[i]) by {
            assert(dl[i] == ts[i]);
        }
        lemma_tabs_lines_no_break(dl);
        let p = ts.last();
        assert(tab_file_safe(ts[ts.len() - 1]));
        reveal_strlit("[tab]");
        lemma_setting_keys();
        lemma_value_facts(p.enable_hover_throttle, p.hover_send_interval_ms);
        lemma_value_facts(p.disable_rust_log, 0);
        let t = tab_lines(p);
        assert forall|i: int| 0 <= i < t.len() implies no_line_break(#[trigger] t[i]) by {
            assert(no_line_break("[tab]"@));
            assert(no_line_break(Seq::<char>::empty()));
            lemma_setting_no_break("host"@, p.host);
            lemma_setting_no_break("port"@, p.port);
            lemma_setting_no_break("username"@, p.username);
            lemma_setting_no_break("password"@, p.password);
            lemma_setting_no_break("domain"@, p.domain);
            lemma_setting_no_break("mode"@, p.mode);
            lemma_setting_no_break("width"@, p.width);
            lemma_setting_no_break("height"@, p.height);
            lemma_setting_no_break("enable_hover_throttle"@, bool_text(p.enable_hover_throttle));
            lemma_setting_no_break("hover_send_interval_ms"@, spec_decimal(p.hover_send_interval_ms as nat));
            lemma_setting_no_break("disable_rust_log"@, bool_text(p.disable_rust_log));
        }
        let all = tabs_lines(ts);
        let a = tabs_lines(dl);
        assert forall|i: int| 0 <= i < all.len() implies no_line_break(#[trigger] all[i]) by {
            if i < a.len() {
                assert(all[i] == a[i]);
            } else {
                assert(all[i] == t[i - a.len()]);
            }
        }
    }
}

/// Saving a session and reading the saved file back gives the same session,
/// for every session whose tab fields hold no line breaks or surrounding
/// whitespace and whose active tab exists.
pub proof fn lemma_session_file_round_trip(s: AppSession)
    requires
        session_file_safe(s@),
    ensures
        spec_parse_app_session(join_lines(session_lines(s@))) == s@,
{
    let v = s@;
    lemma_session_lines_no_break(v);
    lemma_lines_join(session_lines(v));
    lemma_parse_lines_from(session_lines(v));
    lemma_parse_from_append(initial_parse_state(), global_lines(v), tabs_lines(v.tabs));
    lemma_global_section(v);
    let g = after_globals(v);
    lemma_tab_sections(g, v.tabs);
    assert(Seq::<PrefsView>::empty() + v.tabs.drop_last() =~= v.tabs.drop_last());
    assert(v.tabs.drop_last().push(v.tabs.last()) =~= v.tabs);
    let r = finish_parse(parse_lines(spec_lines(join_lines(session_lines(v)))));
    assert(r.tabs =~= v.tabs);
}

} // verus!
