//! What a saved file gives back when it is read: a connection file written for
//! a form opens as the same form.

use vstd::prelude::*;

use crate::config::{
    conn_colon_line, conn_lines, conn_mode, conn_step, default_prefs, last_index, lower_seq, mentions_vnc,
    optional_line, optional_trimmed_line, address_line, spec_ascii_upper, spec_parse_connection_file, split_host_port,
    typed_value, ConnFields, Prefs, PrefsView,
};
use crate::numbers::{all_digits, is_digit};
use crate::text::{
    spec_eq_ignore_ascii_case, first_index, lemma_first_index, lemma_leading_count, lemma_trailing_count, spec_ascii_lower, spec_is_whitespace,
    spec_lines, spec_split_once, spec_trim, strip_cr,
};

verus! {

/// No whitespace at either end.
pub open spec fn is_trimmed(s: Seq<char>) -> bool {
    s.len() == 0 || (!spec_is_whitespace(s[0]) && !spec_is_whitespace(s.last()))
}

/// Neither a line feed nor a carriage return anywhere.
pub open spec fn no_line_break(s: Seq<char>) -> bool {
    forall|i: int| 0 <= i < s.len() ==> s[i] != '\n' && s[i] != '\r'
}

/// The text of the given lines, each ended by a line feed.
pub open spec fn join_lines(ls: Seq<Seq<char>>) -> Seq<char>
    decreases ls.len(),
{
    if ls.len() == 0 {
        Seq::empty()
    } else {
        ls[0] + "\n"@ + join_lines(ls.drop_first())
    }
}

/// Trimming text without whitespace at its ends leaves it unchanged.
pub proof fn lemma_trim_fixed(s: Seq<char>)
    requires
        is_trimmed(s),
    ensures
        spec_trim(s) == s,
{
    if s.len() > 0 {
        lemma_leading_count(s, crate::text::CharSet::Whitespace, 0);
        assert(s.skip(0) =~= s);
        lemma_trailing_count(s, crate::text::CharSet::Whitespace, 0);
    }
    assert(s.skip(0) =~= s);
    assert(s.take(s.len() as int) =~= s);
}

proof fn lemma_lines_cons(l: Seq<char>, rest: Seq<char>)
    requires
        no_line_break(l),
    ensures
        spec_lines(l + "\n"@ + rest) == seq![l] + spec_lines(rest),
{
    reveal_strlit("\n");
    let s = l + "\n"@ + rest;
    assert(s[l.len() as int] == '\n');
    assert forall|j: int| 0 <= j < l.len() implies s[j] != '\n' by {
        assert(s[j] == l[j]);
    }
    lemma_first_index(s, '\n', l.len() as int);
    assert(s.take(l.len() as int) =~= l);
    assert(s.skip(l.len() as int + 1) =~= rest);
    if l.len() > 0 {
        assert(l.last() == l[l.len() - 1]);
    }
    assert(strip_cr(l) == l);
}

/// Splitting joined lines that hold no line break gives back the lines.
pub proof fn lemma_lines_join(ls: Seq<Seq<char>>)
    requires
        forall|i: int| 0 <= i < ls.len() ==> no_line_break(#[trigger] ls[i]),
    ensures
        spec_lines(join_lines(ls)) == ls,
    decreases ls.len(),
{
    if ls.len() > 0 {
        lemma_lines_join(ls.drop_first());
        lemma_lines_cons(ls[0], join_lines(ls.drop_first()));
        assert(seq![ls[0]] + ls.drop_first() =~= ls);
    }
}

/// Joining two runs of lines is joining each and concatenating.
pub proof fn lemma_join_append(a: Seq<Seq<char>>, b: Seq<Seq<char>>)
    ensures
        join_lines(a + b) == join_lines(a) + join_lines(b),
    decreases a.len(),
{
    if a.len() == 0 {
        assert(a + b =~= b);
        assert(join_lines(a) + join_lines(b) =~= join_lines(b));
    } else {
        lemma_join_append(a.drop_first(), b);
        assert((a + b).drop_first() =~= a.drop_first() + b);
        assert((a + b)[0] == a[0]);
        assert(join_lines(a + b) =~= join_lines(a) + join_lines(b));
    }
}

/// One joined line is the line and a line feed.
pub proof fn lemma_join_one(l: Seq<char>)
    ensures
        join_lines(seq![l]) == l + "\n"@,
{
    reveal_with_fuel(join_lines, 2);
    assert(seq![l].drop_first() =~= Seq::<Seq<char>>::empty());
    assert(l + "\n"@ + Seq::<char>::empty() =~= l + "\n"@);
}

proof fn lemma_conn_lines_append(f: ConnFields, a: Seq<Seq<char>>, b: Seq<Seq<char>>)
    ensures
        conn_lines(f, a + b) == conn_lines(conn_lines(f, a), b),
    decreases b.len(),
{
    if b.len() == 0 {
        assert(a + b =~= a);
    } else {
        lemma_conn_lines_append(f, a, b.drop_last());
        assert((a + b).drop_last() =~= a + b.drop_last());
        assert((a + b).last() == b.last());
    }
}

proof fn lemma_conn_lines_one(f: ConnFields, l: Seq<char>)
    ensures
        conn_lines(f, seq![l]) == conn_step(f, l),
{
    reveal_with_fuel(conn_lines, 2);
    assert(seq![l].drop_last() =~= Seq::<Seq<char>>::empty());
}


/// A key that the connection-file reader takes as written: non-empty, without
/// ':' or surrounding whitespace, already lower case, and not a comment start.
pub open spec fn plain_key(key: Seq<char>) -> bool {
    &&& key.len() > 0
    &&& is_trimmed(key)
    &&& lower_seq(key) == key
    &&& key[0] != '#'
    &&& key[0] != '/'
    &&& forall|i: int| 0 <= i < key.len() ==> key[i] != ':'
}

/// The "key:tag:value" line of a connection file.
pub open spec fn typed_line(key: Seq<char>, tag: char, v: Seq<char>) -> Seq<char> {
    key + ":"@ + seq![tag] + ":"@ + v
}

proof fn lemma_typed_line(f: ConnFields, key: Seq<char>, tag: char, v: Seq<char>)
    requires
        plain_key(key),
        tag == 's' || tag == 'i',
        is_trimmed(v),
    ensures
        conn_step(f, typed_line(key, tag, v)) == conn_colon_line(f, key, v),
{
    reveal_strlit(":");
    reveal_strlit("s");
    reveal_strlit("i");
    let line = typed_line(key, tag, v);
    assert(line.len() == key.len() + 3 + v.len());
    assert(line[0] == key[0]);
    if v.len() > 0 {
        assert(line.last() == v.last());
    } else {
        assert(line.last() == ':');
    }
    lemma_trim_fixed(line);
    assert(line[key.len() as int] == ':');
    assert forall|j: int| 0 <= j < key.len() implies line[j] != ':' by {
        assert(line[j] == key[j]);
    }
    lemma_first_index(line, ':', key.len() as int);
    assert(line.take(key.len() as int) =~= key);
    let rest = line.skip(key.len() as int + 1);
    assert(rest =~= seq![tag, ':'] + v);
    lemma_trim_fixed(key);
    assert(rest[0] == tag);
    assert(rest[1] == ':');
    lemma_first_index(rest, ':', 1);
    assert(rest.take(1) =~= seq![tag]);
    assert(rest.skip(2) =~= v);
    lemma_trim_fixed(seq![tag]);
    assert(lower_seq(seq![tag]) =~= seq![tag]);
    assert(seq![tag] =~= "s"@ || seq![tag] =~= "i"@);
    lemma_trim_fixed(v);
    assert(spec_split_once(rest, ':') == Some((seq![tag], v)));
    assert(typed_value(rest) == v);
    assert(spec_split_once(line, ':') == Some((key, rest)));
}

/// The keys a saved connection file uses.
proof fn lemma_file_keys()
    ensures
        plain_key("full address"@),
        plain_key("username"@),
        plain_key("password"@),
        plain_key("domain"@),
        plain_key("connection mode"@),
        plain_key("desktopwidth"@),
        plain_key("desktopheight"@),
        no_line_break("full address"@),
        no_line_break("username"@),
        no_line_break("password"@),
        no_line_break("domain"@),
        no_line_break("connection mode"@),
        no_line_break("desktopwidth"@),
        no_line_break("desktopheight"@),
{
    reveal_strlit("full address");
    reveal_strlit("username");
    reveal_strlit("password");
    reveal_strlit("domain");
    reveal_strlit("connection mode");
    reveal_strlit("desktopwidth");
    reveal_strlit("desktopheight");
    assert(lower_seq("full address"@) =~= "full address"@);
    assert(lower_seq("username"@) =~= "username"@);
    assert(lower_seq("password"@) =~= "password"@);
    assert(lower_seq("domain"@) =~= "domain"@);
    assert(lower_seq("connection mode"@) =~= "connection mode"@);
    assert(lower_seq("desktopwidth"@) =~= "desktopwidth"@);
    assert(lower_seq("desktopheight"@) =~= "desktopheight"@);
}


/// The line of a value that is only written when it is set.
pub open spec fn opt_lines(key: Seq<char>, tag: char, v: Seq<char>) -> Seq<Seq<char>> {
    if v.len() > 0 {
        seq![typed_line(key, tag, v)]
    } else {
        Seq::empty()
    }
}

/// The lines of the connection file saved for a form.
pub open spec fn saved_lines(p: PrefsView) -> Seq<Seq<char>> {
    seq![typed_line("full address"@, 's', p.host + ":"@ + p.port)] + opt_lines("username"@, 's', p.username)
        + opt_lines("password"@, 's', p.password) + opt_lines("domain"@, 's', p.domain) + seq![
        typed_line("connection mode"@, 's', p.mode),
    ] + opt_lines("desktopwidth"@, 'i', p.width) + opt_lines("desktopheight"@, 'i', p.height)
}

/// A form that a connection file stores exactly: a host and a numeric port,
/// RDP or VNC, and values without line breaks or surrounding whitespace.
pub open spec fn file_safe_form(p: PrefsView) -> bool {
    &&& p.host.len() > 0
    &&& is_trimmed(p.host) && no_line_break(p.host)
    &&& p.port.len() > 0 && all_digits(p.port)
    &&& is_trimmed(p.username) && no_line_break(p.username)
    &&& is_trimmed(p.password) && no_line_break(p.password)
    &&& is_trimmed(p.domain) && no_line_break(p.domain)
    &&& is_trimmed(p.width) && no_line_break(p.width)
    &&& is_trimmed(p.height) && no_line_break(p.height)
    &&& (p.mode == "RDP"@ || p.mode == "VNC"@)
}

/// The form a saved connection file opens as: the same connection fields; the
/// display size of `base` where the form left it blank; other settings at
/// their defaults.
pub open spec fn reopened_form(p: PrefsView, base: PrefsView) -> PrefsView {
    PrefsView {
        host: p.host,
        port: p.port,
        username: p.username,
        password: p.password,
        domain: p.domain,
        mode: p.mode,
        width: if p.width.len() > 0 { p.width } else { base.width },
        height: if p.height.len() > 0 { p.height } else { base.height },
        ..default_prefs()
    }
}

proof fn lemma_opt_text(label: Seq<char>, key: Seq<char>, tag: char, v: Seq<char>)
    requires
        label == key + ":"@ + seq![tag] + ":"@,
    ensures
        optional_line(label, v) == join_lines(opt_lines(key, tag, v)),
        is_trimmed(v) ==> optional_trimmed_line(label, v) == join_lines(opt_lines(key, tag, v)),
{
    if v.len() > 0 {
        lemma_join_one(typed_line(key, tag, v));
        assert(label + v + "\n"@ =~= typed_line(key, tag, v) + "\n"@);
        if is_trimmed(v) {
            lemma_trim_fixed(v);
        }
    }
}

proof fn lemma_typed_line_no_break(key: Seq<char>, tag: char, v: Seq<char>)
    requires
        no_line_break(key),
        tag != '\n' && tag != '\r',
        no_line_break(v),
    ensures
        no_line_break(typed_line(key, tag, v)),
{
    reveal_strlit(":");
    let l = typed_line(key, tag, v);
    assert forall|i: int| 0 <= i < l.len() implies l[i] != '\n' && l[i] != '\r' by {
        if i < key.len() {
            assert(l[i] == key[i]);
        } else if i >= key.len() + 3 {
            assert(l[i] == v[i - key.len() - 3]);
        }
    }
}

proof fn lemma_opt_step(f: ConnFields, key: Seq<char>, tag: char, v: Seq<char>)
    requires
        plain_key(key),
        tag == 's' || tag == 'i',
        is_trimmed(v),
    ensures
        conn_lines(f, opt_lines(key, tag, v)) == if v.len() > 0 {
            conn_colon_line(f, key, v)
        } else {
            f
        },
{
    if v.len() > 0 {
        lemma_conn_lines_one(f, typed_line(key, tag, v));
        lemma_typed_line(f, key, tag, v);
    }
}

/// Saving a form as a connection file and opening that file gives the form
/// back (with `base`'s display size where the form left it blank), for every
/// form that the file format can hold, whatever the file's extension.
pub proof fn lemma_connection_file_round_trip(p: Prefs, extension: Option<Seq<char>>, base: PrefsView)
    requires
        file_safe_form(p@),
    ensures
        spec_parse_connection_file(p.spec_connection_file(), extension, base) == Ok::<PrefsView, Seq<char>>(reopened_form(p@, base)),
{
    let v = p@;
    reveal_strlit(":");
    reveal_strlit("\n");
    reveal_strlit("full address:s:");
    reveal_strlit("username:s:");
    reveal_strlit("password:s:");
    reveal_strlit("domain:s:");
    reveal_strlit("connection mode:s:");
    reveal_strlit("desktopwidth:i:");
    reveal_strlit("desktopheight:i:");
    reveal_strlit("full address");
    reveal_strlit("username");
    reveal_strlit("password");
    reveal_strlit("domain");
    reveal_strlit("connection mode");
    reveal_strlit("desktopwidth");
    reveal_strlit("desktopheight");
    reveal_strlit("RDP");
    reveal_strlit("VNC");
    reveal_strlit("server");
    reveal_strlit("host");
    reveal_strlit("user name");
    reveal_strlit("mode");
    reveal_strlit("protocol");
    reveal_strlit("screen mode width");
    reveal_strlit("width");
    reveal_strlit("screen mode height");
    reveal_strlit("height");
    lemma_file_keys();
    assert(v.username.len() == 0 ==> v.username =~= Seq::<char>::empty());
    assert(v.password.len() == 0 ==> v.password =~= Seq::<char>::empty());
    assert(v.domain.len() == 0 ==> v.domain =~= Seq::<char>::empty());
    // The text is the join of the saved lines.
    lemma_trim_fixed(v.host);
    let pc = v.port;
    assert(is_trimmed(pc)) by {
        assert(is_digit(pc[0]));
        assert(is_digit(pc[pc.len() - 1]));
    }
    lemma_trim_fixed(pc);
    assert("full address:s:"@ =~= "full address"@ + ":"@ + seq!['s'] + ":"@);
    let addr = typed_line("full address"@, 's', v.host + ":"@ + v.port);
    lemma_join_one(addr);
    assert(address_line(spec_trim(v.host), spec_trim(v.port)) =~= addr + "\n"@);
    assert("username:s:"@ =~= "username"@ + ":"@ + seq!['s'] + ":"@);
    assert("password:s:"@ =~= "password"@ + ":"@ + seq!['s'] + ":"@);
    assert("domain:s:"@ =~= "domain"@ + ":"@ + seq!['s'] + ":"@);
    assert("desktopwidth:i:"@ =~= "desktopwidth"@ + ":"@ + seq!['i'] + ":"@);
    assert("desktopheight:i:"@ =~= "desktopheight"@ + ":"@ + seq!['i'] + ":"@);
    assert("connection mode:s:"@ =~= "connection mode"@ + ":"@ + seq!['s'] + ":"@);
    lemma_opt_text("username:s:"@, "username"@, 's', v.username);
    lemma_opt_text("password:s:"@, "password"@, 's', v.password);
    lemma_opt_text("domain:s:"@, "domain"@, 's', v.domain);
    lemma_opt_text("desktopwidth:i:"@, "desktopwidth"@, 'i', v.width);
    lemma_opt_text("desktopheight:i:"@, "desktopheight"@, 'i', v.height);
    let mode_line = typed_line("connection mode"@, 's', v.mode);
    lemma_join_one(mode_line);
    assert("connection mode:s:"@ + v.mode + "\n"@ =~= mode_line + "\n"@);
    let l1 = seq![addr];
    let l2 = opt_lines("username"@, 's', v.username);
    let l3 = opt_lines("password"@, 's', v.password);
    let l4 = opt_lines("domain"@, 's', v.domain);
    let l5 = seq![mode_line];
    let l6 = opt_lines("desktopwidth"@, 'i', v.width);
    let l7 = opt_lines("desktopheight"@, 'i', v.height);
    lemma_join_append(l1, l2);
    lemma_join_append(l1 + l2, l3);
    lemma_join_append(l1 + l2 + l3, l4);
    lemma_join_append(l1 + l2 + l3 + l4, l5);
    lemma_join_append(l1 + l2 + l3 + l4 + l5, l6);
    lemma_join_append(l1 + l2 + l3 + l4 + l5 + l6, l7);
    let ls = saved_lines(v);
    assert(ls == l1 + l2 + l3 + l4 + l5 + l6 + l7);
    let text = p.spec_connection_file();
    assert(text =~= join_lines(ls));
    // Its lines are the saved lines.
    assert(no_line_break(v.host + ":"@ + v.port)) by {
        let hp = v.host + ":"@ + v.port;
        assert forall|i: int| 0 <= i < hp.len() implies hp[i] != '\n' && hp[i] != '\r' by {
            if i < v.host.len() {
                assert(hp[i] == v.host[i]);
            } else if i > v.host.len() {
                assert(hp[i] == v.port[i - v.host.len() - 1]);
                assert(is_digit(v.port[i - v.host.len() - 1]));
            }
        }
    }
    assert(no_line_break(v.mode));
    lemma_typed_line_no_break("full address"@, 's', v.host + ":"@ + v.port);
    lemma_typed_line_no_break("username"@, 's', v.username);
    lemma_typed_line_no_break("password"@, 's', v.password);
    lemma_typed_line_no_break("domain"@, 's', v.domain);
    lemma_typed_line_no_break("connection mode"@, 's', v.mode);
    lemma_typed_line_no_break("desktopwidth"@, 'i', v.width);
    lemma_typed_line_no_break("desktopheight"@, 'i', v.height);
    assert forall|i: int| 0 <= i < ls.len() implies no_line_break(#[trigger] ls[i]) by {
        let a = (l1 + l2 + l3 + l4 + l5 + l6).len();
        if i >= a {
            assert(ls[i] == l7[i - a]);
        } else if i >= (l1 + l2 + l3 + l4 + l5).len() {
            assert(ls[i] == l6[i - (l1 + l2 + l3 + l4 + l5).len()]);
        } else if i >= (l1 + l2 + l3 + l4).len() {
            assert(ls[i] == l5[i - (l1 + l2 + l3 + l4).len()]);
        } else if i >= (l1 + l2 + l3).len() {
            assert(ls[i] == l4[i - (l1 + l2 + l3).len()]);
        } else if i >= (l1 + l2).len() {
            assert(ls[i] == l3[i - (l1 + l2).len()]);
        } else if i >= l1.len() {
            assert(ls[i] == l2[i - l1.len()]);
        } else {
            assert(ls[i] == l1[i]);
        }
    }
    lemma_lines_join(ls);
    // Reading the lines.
    let f0 = ConnFields {
        host_full: Seq::empty(),
        username: Seq::empty(),
        password: Seq::empty(),
        domain: Seq::empty(),
        mode: Seq::empty(),
        width: base.width,
        height: base.height,
    };
    lemma_conn_lines_append(f0, l1 + l2 + l3 + l4 + l5 + l6, l7);
    lemma_conn_lines_append(f0, l1 + l2 + l3 + l4 + l5, l6);
    lemma_conn_lines_append(f0, l1 + l2 + l3 + l4, l5);
    lemma_conn_lines_append(f0, l1 + l2 + l3, l4);
    lemma_conn_lines_append(f0, l1 + l2, l3);
    lemma_conn_lines_append(f0, l1, l2);
    let hp = v.host + ":"@ + v.port;
    assert(is_trimmed(hp)) by {
        assert(hp[0] == v.host[0]);
        assert(hp.last() == v.port.last());
        assert(is_digit(v.port[v.port.len() - 1]));
    }
    lemma_conn_lines_one(f0, addr);
    lemma_typed_line(f0, "full address"@, 's', hp);
    let f1 = conn_lines(f0, l1);
    assert(f1 == ConnFields { host_full: hp, ..f0 });
    lemma_opt_step(f1, "username"@, 's', v.username);
    let f2 = conn_lines(f1, l2);
    assert(f2 == ConnFields { username: v.username, ..f1 });
    lemma_opt_step(f2, "password"@, 's', v.password);
    let f3 = conn_lines(f2, l3);
    assert(f3 == ConnFields { password: v.password, ..f2 });
    lemma_opt_step(f3, "domain"@, 's', v.domain);
    let f4 = conn_lines(f3, l4);
    assert(f4 == ConnFields { domain: v.domain, ..f3 });
    lemma_conn_lines_one(f4, mode_line);
    lemma_typed_line(f4, "connection mode"@, 's', v.mode);
    let f5 = conn_lines(f4, l5);
    assert(f5 == ConnFields { mode: v.mode, ..f4 });
    lemma_opt_step(f5, "desktopwidth"@, 'i', v.width);
    let f6 = conn_lines(f5, l6);
    assert(f6 == ConnFields { width: if v.width.len() > 0 { v.width } else { base.width }, ..f5 });
    lemma_opt_step(f6, "desktopheight"@, 'i', v.height);
    let f7 = conn_lines(f6, l7);
    assert(f7 == ConnFields { height: if v.height.len() > 0 { v.height } else { base.height }, ..f6 });
    assert(conn_lines(f0, spec_lines(text)) == f7);
    // The protocol, host and port.
    if v.mode == "VNC"@ {
        assert(spec_ascii_upper(v.mode[0]) == 'V');
        assert(mentions_vnc(v.mode));
    } else {
        assert(!mentions_vnc(v.mode));
    }
    assert(conn_mode(v.mode, extension) == v.mode);
    lemma_trim_fixed(hp);
    lemma_last_colon(v.host, v.port);
    assert(hp.take(v.host.len() as int) =~= v.host);
    assert(hp.skip(v.host.len() as int + 1) =~= v.port);
    assert(split_host_port(hp, v.mode) == (v.host, v.port));
}

proof fn lemma_last_colon(host: Seq<char>, port: Seq<char>)
    requires
        all_digits(port),
    ensures
        last_index(host + ":"@ + port, ':') == Some(host.len() as int),
    decreases port.len(),
{
    reveal_strlit(":");
    let s = host + ":"@ + port;
    if port.len() == 0 {
        assert(s.last() == ':');
    } else {
        assert(s.last() == port.last());
        assert(is_digit(port[port.len() - 1]));
        assert(s.drop_last() =~= host + ":"@ + port.drop_last());
        lemma_last_colon(host, port.drop_last());
    }
}

/// The fields a connection file sets, read line by line over blank fields
/// (display size from `base`).
pub open spec fn file_fields(text: Seq<char>, base: PrefsView) -> ConnFields {
    conn_lines(
        ConnFields {
            host_full: Seq::empty(),
            username: Seq::empty(),
            password: Seq::empty(),
            domain: Seq::empty(),
            mode: Seq::empty(),
            width: base.width,
            height: base.height,
        },
        spec_lines(text),
    )
}

/// Whether the extension of a file's path is `vnc`, in any case.
pub open spec fn vnc_extension(extension: Option<Seq<char>>) -> bool {
    extension matches Some(e) && spec_eq_ignore_ascii_case(e, "vnc"@)
}

/// A connection file that names no mode opens as a VNC form when its path
/// ends in `.vnc` (in any case), and as an RDP form otherwise.
pub proof fn lemma_mode_inferred_from_extension(text: Seq<char>, extension: Option<Seq<char>>, base: PrefsView)
    requires
        file_fields(text, base).mode.len() == 0,
        spec_parse_connection_file(text, extension, base) is Ok,
    ensures
        spec_parse_connection_file(text, extension, base)->Ok_0.mode == if vnc_extension(extension) {
            "VNC"@
        } else {
            "RDP"@
        },
{
    reveal_strlit("VNC");
    reveal_strlit("RDP");
    assert(spec_ascii_upper('V') == 'V' && spec_ascii_upper('N') == 'N' && spec_ascii_upper('C') == 'C');
    let vnc = "VNC"@;
    assert(spec_ascii_upper(vnc[0]) == 'V');
    assert(mentions_vnc(vnc));
    let rdp = "RDP"@;
    assert forall|i: int| 0 <= i && i + 3 <= rdp.len() implies !(#[trigger] spec_ascii_upper(rdp[i]) == 'V'
        && spec_ascii_upper(rdp[i + 1]) == 'N' && spec_ascii_upper(rdp[i + 2]) == 'C') by {
        assert(i == 0);
    }
    assert(!mentions_vnc(rdp));
}

} // verus!
