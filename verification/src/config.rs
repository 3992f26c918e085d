//! The configuration-file syntax: one host record per non-wildcard
//! `Host` block, with optional target, user, port and identity-file
//! settings. Reading the file and finding the home directory are the
//! caller's job; the text comes in and host records come out.

use vstd::prelude::*;

use crate::server::{HealthStatus, Server};
use crate::text::{
    ascii_lower_seq, ascii_lower_vec, chars_vec, find_char, find_sep, has_prefix, is_key_sep,
    lemma_find_sep, lines_spec, parse_u64_spec, split_lines, str_eq, string_from_chars, subvec,
    trim, trim_char, trim_char_spec, trim_spec,
};

verus! {

/// The spec-level contents of one parsed host record.
#[verifier::ext_equal]
pub struct ServerModel {
    pub host: Seq<char>,
    pub hostname: Seq<char>,
    pub user: Option<Seq<char>>,
    pub port: u16,
    pub identity: Option<Seq<char>>,
}

/// The spec-level parser state: the settings collected since the last
/// `Host` keyword. Each setting stands on its own, exactly as the
/// syntax allows it to appear before its `Host` line.
#[verifier::ext_equal]
pub struct CurModel {
    pub host: Option<Seq<char>>,
    pub hostname: Option<Seq<char>>,
    pub user: Option<Seq<char>>,
    pub port: Option<u16>,
    pub identity: Option<Seq<char>>,
}

/// The state with nothing collected.
pub open spec fn cur_empty() -> CurModel {
    CurModel { host: None, hostname: None, user: None, port: None, identity: None }
}

/// A host pattern rather than a concrete host: it holds `'*'` or `'?'`.
pub open spec fn is_wildcard(h: Seq<char>) -> bool {
    find_char(h, '*') != h.len() || find_char(h, '?') != h.len()
}

/// Closing the open block: a concrete host becomes a record, with the
/// host name standing in for a missing target and port 22 for a missing
/// port; a wildcard block is dropped. Either way the collected settings
/// are spent.
pub open spec fn flush_spec(done: Seq<ServerModel>, cur: CurModel) -> Seq<ServerModel> {
    match cur.host {
        None => done,
        Some(h) => if !is_wildcard(h) {
            done.push(
                ServerModel {
                    host: h,
                    hostname: (match cur.hostname {
                        Some(n) => n,
                        None => h,
                    }),
                    user: cur.user,
                    port: (match cur.port {
                        Some(p) => p,
                        None => 22,
                    }),
                    identity: cur.identity,
                },
            )
        } else {
            done
        },
    }
}

/// The port setting as `u16::from_str` accepts it; a malformed value
/// clears the setting.
pub open spec fn port_opt(value: Seq<char>) -> Option<u16> {
    match parse_u64_spec(value) {
        Some(v) => if v <= u16::MAX {
            Some(v as u16)
        } else {
            None
        },
        None => None,
    }
}

/// An identity path with a `~/` prefix expands under the home directory
/// the caller supplies.
pub open spec fn expand_identity(value: Seq<char>, home: Option<Seq<char>>) -> Seq<char> {
    if value.len() >= "~/"@.len() && value.take("~/"@.len() as int) == "~/"@ && home is Some {
        home->0 + "/"@ + value.skip("~/"@.len() as int)
    } else {
        value
    }
}

/// The effect of one line on the parser: blank lines and comments do
/// nothing, a `Host` line closes the open block and opens a new one, the
/// other known keywords collect settings, and anything else is ignored.
pub open spec fn config_line_step(
    done: Seq<ServerModel>,
    cur: CurModel,
    line: Seq<char>,
    home: Option<Seq<char>>,
) -> (Seq<ServerModel>, CurModel) {
    let t = trim_spec(line);
    if t.len() == 0 || t[0] == '#' {
        (done, cur)
    } else {
        let k = find_sep(t);
        if k == t.len() {
            (done, cur)
        } else {
            let key = ascii_lower_seq(t.take(k));
            let value = trim_char_spec(trim_spec(t.skip(k + 1)), '"');
            if key == "host"@ {
                (flush_spec(done, cur), CurModel { host: Some(value), ..cur_empty() })
            } else if key == "hostname"@ {
                (done, CurModel { hostname: Some(value), ..cur })
            } else if key == "user"@ {
                (done, CurModel { user: Some(value), ..cur })
            } else if key == "port"@ {
                (done, CurModel { port: port_opt(value), ..cur })
            } else if key == "identityfile"@ {
                (done, CurModel { identity: Some(expand_identity(value, home)), ..cur })
            } else {
                (done, cur)
            }
        }
    }
}

/// Folds the lines from index `i` on into the parser state, closing the
/// last block at the end.
pub open spec fn config_fold(
    lines: Seq<Seq<char>>,
    i: int,
    done: Seq<ServerModel>,
    cur: CurModel,
    home: Option<Seq<char>>,
) -> Seq<ServerModel>
    decreases lines.len() - i,
{
    if i < 0 || i >= lines.len() {
        flush_spec(done, cur)
    } else {
        let (d2, c2) = config_line_step(done, cur, lines[i], home);
        config_fold(lines, i + 1, d2, c2, home)
    }
}

/// The host records a configuration text denotes.
pub open spec fn parse_config_spec(content: Seq<char>, home: Option<Seq<char>>) -> Seq<
    ServerModel,
> {
    config_fold(lines_spec(content), 0, Seq::empty(), cur_empty(), home)
}

/// The record-relevant part of a host value.
pub open spec fn server_model(s: Server) -> ServerModel {
    ServerModel {
        host: s.host@,
        hostname: s.hostname@,
        user: (match s.user {
            Some(u) => Some(u@),
            None => None,
        }),
        port: s.port,
        identity: (match s.identity_file {
            Some(p) => Some(p@),
            None => None,
        }),
    }
}

/// A freshly parsed record: nothing measured, no group yet.
pub open spec fn fresh_server(s: Server) -> bool {
    s.group is None && s.latency is None && s.status == HealthStatus::Unknown && s.metrics is None
        && s.last_check is None
}

struct CurState {
    host: Option<String>,
    hostname: Option<String>,
    user: Option<String>,
    port: Option<u16>,
    identity: Option<String>,
}

impl CurState {
    spec fn view(&self) -> CurModel {
        CurModel {
            host: (match self.host {
                Some(ref h) => Some(h@),
                None => None,
            }),
            hostname: (match self.hostname {
                Some(ref h) => Some(h@),
                None => None,
            }),
            user: (match self.user {
                Some(ref u) => Some(u@),
                None => None,
            }),
            port: self.port,
            identity: (match self.identity {
                Some(ref p) => Some(p@),
                None => None,
            }),
        }
    }
}

fn contains_char(v: &Vec<char>, c: char) -> (r: bool)
    ensures
        r == (find_char(v@, c) != v@.len()),
{
    let mut i: usize = 0;
    while i < v.len()
        invariant
            0 <= i <= v@.len(),
            forall|j: int| 0 <= j < i ==> v@[j] != c,
        decreases v@.len() - i,
    {
        if v[i] == c {
            proof {
                crate::text::lemma_find_char_bounds(v@, c);
            }
            return true;
        }
        i = i + 1;
    }
    proof {
        crate::text::lemma_find_char(v@, c, i as int);
    }
    false
}

/// Closes the open block into the record list.
fn flush(servers: &mut Vec<Server>, cur: &mut CurState)
    ensures
        final(servers)@.len() >= old(servers)@.len(),
        final(servers)@.map_values(|s: Server| server_model(s)) == flush_spec(
            old(servers)@.map_values(|s: Server| server_model(s)),
            old(cur)@,
        ),
        forall|i: int|
            0 <= i < old(servers)@.len() ==> (#[trigger] final(servers)@[i]) == old(servers)@[i],
        forall|i: int|
            old(servers)@.len() <= i < final(servers)@.len() ==> fresh_server(
                #[trigger] final(servers)@[i],
            ),
        final(cur)@ == cur_empty(),
{
    let ghost done0 = servers@.map_values(|s: Server| server_model(s));
    let host = cur.host.take();
    let hostname = cur.hostname.take();
    let user = cur.user.take();
    let port = cur.port.take();
    let identity = cur.identity.take();
    match host {
        None => {
            proof {
                assert(final(cur)@ =~= cur_empty());
            }
        },
        Some(h) => {
            let hv = chars_vec(h.as_str());
            let wildcard = contains_char(&hv, '*') || contains_char(&hv, '?');
            if !wildcard {
                let hostname_v = match hostname {
                    Some(n) => n,
                    None => h.clone(),
                };
                let s = Server {
                    host: h,
                    hostname: hostname_v,
                    user,
                    port: (match port {
                        Some(p) => p,
                        None => 22,
                    }),
                    identity_file: identity,
                    group: None,
                    latency: None,
                    status: HealthStatus::Unknown,
                    metrics: None,
                    last_check: None,
                };
                servers.push(s);
                proof {
                    assert(servers@.map_values(|s: Server| server_model(s)) =~= done0.push(
                        server_model(servers@.last()),
                    ));
                    assert(servers@.map_values(|s: Server| server_model(s)) =~= flush_spec(
                        done0,
                        old(cur)@,
                    ));
                    assert(final(cur)@ =~= cur_empty());
                }
            } else {
                proof {
                    assert(final(cur)@ =~= cur_empty());
                }
            }
        },
    }
}

/// Parses a configuration text into host records; `home`, when given, is
/// the home directory used to expand `~/` in identity paths. Every
/// record comes out fresh: no group, nothing measured yet.
pub fn parse_config_content(content: &str, home: Option<&str>) -> (r: Vec<Server>)
    ensures
        r@.map_values(|s: Server| server_model(s)) == parse_config_spec(
            content@,
            (match home {
                Some(h) => Some(h@),
                None => None,
            }),
        ),
        forall|i: int| 0 <= i < r@.len() ==> fresh_server(#[trigger] r@[i]),
{
    let ghost home_model: Option<Seq<char>> = match home {
        Some(h) => Some(h@),
        None => None,
    };
    let chars = chars_vec(content);
    let lines = split_lines(&chars);
    let ghost lseq = lines@.map_values(|p: Vec<char>| p@);
    let mut servers: Vec<Server> = Vec::new();
    let mut cur = CurState { host: None, hostname: None, user: None, port: None, identity: None };
    proof {
        assert(servers@.map_values(|s: Server| server_model(s)) =~= Seq::<ServerModel>::empty());
        assert(cur@ =~= cur_empty());
    }
    let mut i: usize = 0;
    while i < lines.len()
        invariant
            0 <= i <= lines@.len(),
            lseq == lines@.map_values(|p: Vec<char>| p@),
            home_model == (match home {
                Some(h) => Some(h@),
                None => None,
            }),
            parse_config_spec(content@, home_model) == config_fold(
                lseq,
                i as int,
                servers@.map_values(|s: Server| server_model(s)),
                cur@,
                home_model,
            ),
            lseq == lines_spec(content@),
            forall|k: int| 0 <= k < servers@.len() ==> fresh_server(#[trigger] servers@[k]),
        decreases lines@.len() - i,
    {
        let ghost done_pre = servers@.map_values(|s: Server| server_model(s));
        let ghost cur_pre = cur@;
        proof {
            assert(lseq[i as int] == lines@[i as int]@);
        }
        let t = trim(&lines[i]);
        let skip_line = t.len() == 0 || t[0] == '#';
        if !skip_line {
            // split at the first whitespace or '=' separator
            let mut k: usize = 0;
            while k < t.len() && !(t[k] == ' ' || t[k] == '\t' || t[k] == '\r' || t[k] == '\n'
                || t[k] == '=')
                invariant
                    0 <= k <= t@.len(),
                    forall|j: int| 0 <= j < k ==> !is_key_sep(t@[j]),
                decreases t@.len() - k,
            {
                k = k + 1;
            }
            proof {
                lemma_find_sep(t@, k as int);
            }
            if k < t.len() {
                let key_v = subvec(&t, 0, k);
                let key_l = ascii_lower_vec(&key_v);
                let key = string_from_chars(&key_l);
                let rest = subvec(&t, k + 1, t.len());
                let rest_t = trim(&rest);
                let value_v = trim_char(&rest_t, '"');
                proof {
                    assert(key@ == ascii_lower_seq(trim_spec(lseq[i as int]).take(k as int)));
                    assert(rest@ =~= trim_spec(lseq[i as int]).skip(k + 1));
                    assert(value_v@ == trim_char_spec(
                        trim_spec(trim_spec(lseq[i as int]).skip(k + 1)),
                        '"',
                    ));
                }
                if str_eq(key.as_str(), "host") {
                    flush(&mut servers, &mut cur);
                    cur.host = Some(string_from_chars(&value_v));
                } else if str_eq(key.as_str(), "hostname") {
                    cur.hostname = Some(string_from_chars(&value_v));
                } else if str_eq(key.as_str(), "user") {
                    cur.user = Some(string_from_chars(&value_v));
                } else if str_eq(key.as_str(), "port") {
                    cur.port = match crate::text::parse_u64_opt(&value_v) {
                        Some(v) => {
                            if v <= u16::MAX as u64 {
                                Some(v as u16)
                            } else {
                                None
                            }
                        },
                        None => None,
                    };
                } else if str_eq(key.as_str(), "identityfile") {
                    let expanded = expand_identity_exec(&value_v, home);
                    cur.identity = Some(expanded);
                }
                proof {
                    assert(cur@ =~= config_line_step(
                        done_pre,
                        cur_pre,
                        lseq[i as int],
                        home_model,
                    ).1);
                    assert(servers@.map_values(|s: Server| server_model(s)) =~= config_line_step(
                        done_pre,
                        cur_pre,
                        lseq[i as int],
                        home_model,
                    ).0);
                }
            }
        }
        i = i + 1;
    }
    flush(&mut servers, &mut cur);
    servers
}

/// Expands a leading `~/` under the caller's home directory.
fn expand_identity_exec(value: &Vec<char>, home: Option<&str>) -> (r: String)
    ensures
        r@ == expand_identity(
            value@,
            (match home {
                Some(h) => Some(h@),
                None => None,
            }),
        ),
{
    let is_tilde = has_prefix(value, "~/");
    match home {
        Some(h) => {
            if is_tilde {
                proof {
                    reveal_strlit("~/");
                }
                let mut out = chars_vec(h);
                out.push('/');
                let rest = subvec(value, 2, value.len());
                crate::text::append_chars(&mut out, &rest);
                proof {
                    reveal_strlit("/");
                    assert(out@ =~= h@ + "/"@ + value@.skip("~/"@.len() as int));
                }
                string_from_chars(&out)
            } else {
                string_from_chars(value)
            }
        },
        None => string_from_chars(value),
    }
}

} // verus!
