//! The connection target of the diagnostic connection tool: host, port,
//! credentials and desktop size read from the typed lines of an `.rdp` file.

use vstd::prelude::*;

use crate::config::{find_last, last_index, lower_seq, to_lower};
use crate::numbers::{parse_i32, spec_parse_i32};
use crate::text::{chars_of, copy_chars, is_text, lines, spec_lines, spec_split_once, spec_trim, split_once, string_from_chars, trim};

verus! {

/// Where the diagnostic tool connects, and as whom.
#[derive(Clone, Debug, PartialEq, Eq)]
pub struct DebugTarget {
    pub host: String,
    pub port: i32,
    pub username: String,
    pub password: String,
    pub domain: String,
    pub width: i32,
    pub height: i32,
}

/// The mathematical value of a [`DebugTarget`].
pub ghost struct TargetFields {
    pub host: Seq<char>,
    pub port: i32,
    pub username: Seq<char>,
    pub password: Seq<char>,
    pub domain: Seq<char>,
    pub width: i32,
    pub height: i32,
}

impl View for DebugTarget {
    type V = TargetFields;

    open spec fn view(&self) -> TargetFields {
        TargetFields {
            host: self.host@,
            port: self.port,
            username: self.username@,
            password: self.password@,
            domain: self.domain@,
            width: self.width,
            height: self.height,
        }
    }
}

/// The fields before any line is read: port 3389 and a 1280 x 720 desktop.
pub open spec fn initial_target() -> TargetFields {
    TargetFields {
        host: Seq::empty(),
        port: 3389,
        username: Seq::empty(),
        password: Seq::empty(),
        domain: Seq::empty(),
        width: 1280,
        height: 720,
    }
}

/// The value of a `key:type:value` line after its key: what follows the type
/// (or the whole rest without a second ':'), trimmed.
pub open spec fn line_value(rest: Seq<char>) -> Seq<char> {
    spec_trim(
        match spec_split_once(rest, ':') {
            Some((_, v)) => v,
            None => rest,
        },
    )
}

/// A full address: host and port split at the last ':' when what follows is
/// an `i32`, else the whole value as host (the port is kept).
pub open spec fn with_address(f: TargetFields, value: Seq<char>) -> TargetFields {
    match last_index(value, ':') {
        Some(i) => match spec_parse_i32(value.skip(i + 1)) {
            Some(p) => TargetFields { host: value.take(i), port: p, ..f },
            None => TargetFields { host: value, ..f },
        },
        None => TargetFields { host: value, ..f },
    }
}

/// One line of the file: a trimmed line with a ':' sets the field its key
/// names (in ASCII lower case); desktop sizes that are not an `i32` are kept.
pub open spec fn target_step(f: TargetFields, raw: Seq<char>) -> TargetFields {
    match spec_split_once(spec_trim(raw), ':') {
        None => f,
        Some((key, rest)) => {
            let value = line_value(rest);
            let k = lower_seq(spec_trim(key));
            if k == "full address"@ {
                with_address(f, value)
            } else if k == "username"@ {
                TargetFields { username: value, ..f }
            } else if k == "password"@ {
                TargetFields { password: value, ..f }
            } else if k == "domain"@ {
                TargetFields { domain: value, ..f }
            } else if k == "desktopwidth"@ {
                TargetFields {
                    width: match spec_parse_i32(value) {
                        Some(n) => n,
                        None => f.width,
                    },
                    ..f
                }
            } else if k == "desktopheight"@ {
                TargetFields {
                    height: match spec_parse_i32(value) {
                        Some(n) => n,
                        None => f.height,
                    },
                    ..f
                }
            } else {
                f
            }
        },
    }
}

/// The fields after reading the given lines in order.
pub open spec fn target_lines(f0: TargetFields, ls: Seq<Seq<char>>) -> TargetFields
    decreases ls.len(),
{
    if ls.len() == 0 {
        f0
    } else {
        target_step(target_lines(f0, ls.drop_last()), ls.last())
    }
}

/// The target a connection file names, or `None` when it has no host.
pub open spec fn spec_parse_debug_target(text: Seq<char>) -> Option<TargetFields> {
    let f = target_lines(initial_target(), spec_lines(text));
    if f.host.len() == 0 {
        None
    } else {
        Some(f)
    }
}

struct TargetReader {
    host: Vec<char>,
    port: i32,
    username: Vec<char>,
    password: Vec<char>,
    domain: Vec<char>,
    width: i32,
    height: i32,
}

impl TargetReader {
    spec fn fields(&self) -> TargetFields {
        TargetFields {
            host: self.host@,
            port: self.port,
            username: self.username@,
            password: self.password@,
            domain: self.domain@,
            width: self.width,
            height: self.height,
        }
    }
}

fn set_address(r: &mut TargetReader, value: Vec<char>)
    ensures
        final(r).fields() == with_address(old(r).fields(), value@),
{
    match find_last(&value, ':') {
        Some(i) => {
            let n = value.len();
            let port = copy_chars(&value, i + 1, n);
            assert(port@ =~= value@.skip(i as int + 1));
            match parse_i32(&port) {
                Some(p) => {
                    let host = copy_chars(&value, 0, i);
                    assert(host@ =~= value@.take(i as int));
                    r.host = host;
                    r.port = p;
                },
                None => {
                    r.host = value;
                },
            }
        },
        None => {
            r.host = value;
        },
    }
}

fn read_target_line(r: &mut TargetReader, raw: &[char])
    ensures
        final(r).fields() == target_step(old(r).fields(), raw@),
{
    let line = trim(raw);
    let (key, rest) = match split_once(&line, ':') {
        Some(kr) => kr,
        None => return,
    };
    let v = match split_once(&rest, ':') {
        Some((_, v)) => v,
        None => rest,
    };
    let value = trim(&v);
    let kt = trim(&key);
    let k = to_lower(&kt);
    if is_text(&k, "full address") {
        set_address(r, value);
    } else if is_text(&k, "username") {
        r.username = value;
    } else if is_text(&k, "password") {
        r.password = value;
    } else if is_text(&k, "domain") {
        r.domain = value;
    } else if is_text(&k, "desktopwidth") {
        if let Some(n) = parse_i32(&value) {
            r.width = n;
        }
    } else if is_text(&k, "desktopheight") {
        if let Some(n) = parse_i32(&value) {
            r.height = n;
        }
    }
}

/// Reads the target of the diagnostic connection tool from the text of an
/// `.rdp` file; `None` when the file has no full address.
pub fn parse_debug_target(text: &str) -> (r: Option<DebugTarget>)
    ensures
        match r {
            Some(t) => spec_parse_debug_target(text@) == Some(t@),
            None => spec_parse_debug_target(text@) is None,
        },
{
    let chars = chars_of(text);
    let ls = lines(&chars);
    let ghost lv = ls@.map_values(|l: Vec<char>| l@);
    let mut reader = TargetReader {
        host: Vec::new(),
        port: 3389,
        username: Vec::new(),
        password: Vec::new(),
        domain: Vec::new(),
        width: 1280,
        height: 720,
    };
    assert(reader.fields() == initial_target());
    let mut i: usize = 0;
    while i < ls.len()
        invariant
            i <= ls@.len(),
            lv == ls@.map_values(|l: Vec<char>| l@),
            reader.fields() == target_lines(initial_target(), lv.take(i as int)),
        decreases ls.len() - i,
    {
        assert(lv.take(i as int + 1).drop_last() =~= lv.take(i as int));
        read_target_line(&mut reader, &ls[i]);
        i = i + 1;
    }
    assert(lv.take(ls@.len() as int) =~= lv);
    if reader.host.len() == 0 {
        return None;
    }
    Some(DebugTarget {
        host: string_from_chars(&reader.host),
        port: reader.port,
        username: string_from_chars(&reader.username),
        password: string_from_chars(&reader.password),
        domain: string_from_chars(&reader.domain),
        width: reader.width,
        height: reader.height,
    })
}

} // verus!
