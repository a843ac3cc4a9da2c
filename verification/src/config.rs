//! The local configuration: the base URL the client talks to.
//!
//! The configuration file holds one line, `base_url = "<url>"`, in
//! TOML's basic-string syntax with the five escapes the writer may
//! emit. Rendering and reading are verified against one another:
//! saving then loading yields the same base URL.

use vstd::prelude::*;
use crate::strutil::{self, spec_has_prefix};

verus! {

/// The local configuration: the base URL of the API.
#[derive(Debug, Clone)]
pub struct ArtemisConfig {
    base_url: String,
}

impl Default for ArtemisConfig {
    /// The configuration used when no file exists yet.
    fn default() -> (r: Self)
        ensures
            r.get_base_url_spec() == "https://artemis-app.inf.tu-dresden.de"@,
    {
        ArtemisConfig { base_url: "https://artemis-app.inf.tu-dresden.de".to_owned() }
    }
}

impl ArtemisConfig {
    /// The characters of the configured base URL.
    pub closed spec fn get_base_url_spec(&self) -> Seq<char> {
        self.base_url@
    }

    /// A configuration holding exactly `base_url`.
    pub fn new(base_url: String) -> (r: Self)
        ensures
            r.get_base_url_spec() == base_url@,
    {
        ArtemisConfig { base_url }
    }

    /// Replaces the configured base URL.
    pub fn set_base_url(&mut self, base_url: String)
        ensures
            final(self).get_base_url_spec() == base_url@,
    {
        self.base_url = base_url;
    }

    /// The configured base URL.
    pub fn get_base_url(&self) -> (r: &String)
        ensures
            r@ == self.get_base_url_spec(),
    {
        &self.base_url
    }
}

/// How one character of the URL stands in the file: the quote, the
/// backslash and the three control characters escaped, every other
/// character as it is.
pub open spec fn spec_escape_char(c: char) -> Seq<char> {
    if c == '"' {
        seq!['\\', '"']
    } else if c == '\\' {
        seq!['\\', '\\']
    } else if c == '\n' {
        seq!['\\', 'n']
    } else if c == '\t' {
        seq!['\\', 't']
    } else if c == '\r' {
        seq!['\\', 'r']
    } else {
        seq![c]
    }
}

/// The URL as it stands between the quotes of the file.
pub open spec fn spec_escape(s: Seq<char>) -> Seq<char>
    decreases s.len(),
{
    if s.len() == 0 {
        Seq::empty()
    } else {
        spec_escape_char(s[0]) + spec_escape(s.drop_first())
    }
}

/// Escaping one more character appends its escape.
proof fn lemma_escape_push(s: Seq<char>, i: int)
    requires
        0 <= i < s.len(),
    ensures
        spec_escape(s.take(i + 1)) == spec_escape(s.take(i)) + spec_escape_char(s[i]),
    decreases i,
{
    let a = s.take(i);
    let b = s.take(i + 1);
    if i == 0 {
        assert(b =~= seq![s[0]]);
        assert(b[0] == s[0]);
        assert(b.drop_first().len() == 0);
        assert(spec_escape(b.drop_first()) == Seq::<char>::empty());
        assert(spec_escape(a) == Seq::<char>::empty());
        assert(spec_escape(b) == spec_escape_char(s[0]) + spec_escape(b.drop_first()));
        assert(spec_escape(b) =~= spec_escape(a) + spec_escape_char(s[0]));
    } else {
        lemma_escape_push(s.drop_first(), i - 1);
        assert(s.drop_first().take(i) =~= b.drop_first());
        assert(s.drop_first().take(i - 1) =~= a.drop_first());
        assert(s.drop_first()[i - 1] == s[i]);
        assert(spec_escape(b) == spec_escape_char(s[0]) + spec_escape(b.drop_first()));
        assert(spec_escape(a) == spec_escape_char(s[0]) + spec_escape(a.drop_first()));
        assert(spec_escape(b) =~= spec_escape(a) + spec_escape_char(s[i]));
    }
}

/// The line the configuration file holds, up to its opening quote.
pub open spec fn spec_config_prefix() -> Seq<char> {
    seq!['b', 'a', 's', 'e', '_', 'u', 'r', 'l', ' ', '=', ' ', '"']
}

/// The whole configuration file rendered for a base URL.
pub open spec fn spec_render_config(url: Seq<char>) -> Seq<char> {
    spec_config_prefix() + spec_escape(url) + seq!['"', '\n']
}

/// The character an escape code stands for, when it is one the writer
/// may emit.
pub open spec fn spec_unescape_char(c: char) -> Option<char> {
    if c == '"' {
        Some('"')
    } else if c == '\\' {
        Some('\\')
    } else if c == 'n' {
        Some('\n')
    } else if c == 't' {
        Some('\t')
    } else if c == 'r' {
        Some('\r')
    } else {
        None
    }
}

/// Reads an escaped string body up to its unescaped closing quote:
/// the decoded characters, and what follows the quote.
pub open spec fn spec_parse_body(s: Seq<char>) -> Option<(Seq<char>, Seq<char>)>
    decreases s.len(),
{
    if s.len() == 0 {
        None
    } else if s[0] == '"' {
        Some((Seq::empty(), s.drop_first()))
    } else if s[0] == '\\' {
        if s.len() < 2 {
            None
        } else {
            match spec_unescape_char(s[1]) {
                None => None,
                Some(c) => match spec_parse_body(s.skip(2)) {
                    None => None,
                    Some((body, rest)) => Some((seq![c] + body, rest)),
                },
            }
        }
    } else {
        match spec_parse_body(s.drop_first()) {
            None => None,
            Some((body, rest)) => Some((seq![s[0]] + body, rest)),
        }
    }
}

/// The base URL read back from a configuration file text: the one
/// line with its quoted, escaped URL, with or without the final line
/// break.
pub open spec fn spec_parse_config(s: Seq<char>) -> Option<Seq<char>> {
    if !spec_has_prefix(s, spec_config_prefix()) {
        None
    } else {
        match spec_parse_body(s.skip(spec_config_prefix().len() as int)) {
            None => None,
            Some((url, rest)) => if rest.len() == 0 || rest == seq!['\n'] {
                Some(url)
            } else {
                None
            },
        }
    }
}

/// Reading a rendered body finds the closing quote where the writer
/// put it and decodes every escape it wrote.
proof fn lemma_parse_body_of_escape(url: Seq<char>, tail: Seq<char>)
    ensures
        spec_parse_body(spec_escape(url) + seq!['"'] + tail) == Some((url, tail)),
    decreases url.len(),
{
    let s = spec_escape(url) + seq!['"'] + tail;
    if url.len() == 0 {
        assert(spec_escape(url) =~= Seq::<char>::empty());
        assert(s =~= seq!['"'] + tail);
        assert(s[0] == '"');
        assert(s.drop_first() =~= tail);
        assert(spec_parse_body(s) == Some((Seq::<char>::empty(), tail)));
        assert(url =~= Seq::<char>::empty());
    } else {
        let c = url[0];
        let rest = url.drop_first();
        lemma_parse_body_of_escape(rest, tail);
        let inner = spec_escape(rest) + seq!['"'] + tail;
        assert(spec_escape(url) == spec_escape_char(c) + spec_escape(rest));
        if c == '"' || c == '\\' || c == '\n' || c == '\t' || c == '\r' {
            let e = spec_escape_char(c)[1];
            assert(s[0] == '\\');
            assert(s[1] == e);
            assert(spec_unescape_char(e) == Some(c));
            assert(s.len() >= 2);
            assert(s.skip(2) =~= inner);
            assert(spec_parse_body(s) == Some((seq![c] + rest, tail)));
            assert(seq![c] + rest =~= url);
        } else {
            assert(s[0] == c);
            assert(c != '"' && c != '\\');
            assert(s.drop_first() =~= inner);
            assert(spec_parse_body(s) == Some((seq![c] + rest, tail)));
            assert(seq![c] + rest =~= url);
        }
    }
}

/// Renders the configuration file text for `cfg`.
#[verifier::loop_isolation(false)]
pub fn render_config(cfg: &ArtemisConfig) -> (r: String)
    ensures
        r@ == spec_render_config(cfg.get_base_url_spec()),
{
    let mut out: String = "base_url = \"".to_owned();
    proof {
        reveal_strlit("base_url = \"");
        assert(out@ =~= spec_config_prefix());
    }
    let url: &str = cfg.get_base_url().as_str();
    let n = url.unicode_len();
    let mut i: usize = 0;
    while i < n
        invariant
            0 <= i <= n,
            n == url@.len(),
            out@ == spec_config_prefix() + spec_escape(url@.take(i as int)),
        decreases n - i,
    {
        let c = url.get_char(i);
        if c == '"' {
            strutil::push_char(&mut out, '\\');
            strutil::push_char(&mut out, '"');
        } else if c == '\\' {
            strutil::push_char(&mut out, '\\');
            strutil::push_char(&mut out, '\\');
        } else if c == '\n' {
            strutil::push_char(&mut out, '\\');
            strutil::push_char(&mut out, 'n');
        } else if c == '\t' {
            strutil::push_char(&mut out, '\\');
            strutil::push_char(&mut out, 't');
        } else if c == '\r' {
            strutil::push_char(&mut out, '\\');
            strutil::push_char(&mut out, 'r');
        } else {
            strutil::push_char(&mut out, c);
        }
        proof {
            lemma_escape_push(url@, i as int);
            assert(out@ =~= spec_config_prefix() + spec_escape(url@.take(i as int + 1)));
        }
        i += 1;
    }
    proof {
        assert(url@.take(n as int) =~= url@);
    }
    strutil::push_char(&mut out, '"');
    strutil::push_char(&mut out, '\n');
    proof {
        assert(out@ =~= spec_render_config(cfg.get_base_url_spec()));
    }
    out
}

/// Prefixing decoded characters onto what a body parse found.
spec fn spec_body_prepend(prefix: Seq<char>, r: Option<(Seq<char>, Seq<char>)>) -> Option<
    (Seq<char>, Seq<char>),
> {
    match r {
        None => None,
        Some((body, rest)) => Some((prefix + body, rest)),
    }
}

/// The character an escape code stands for, when it is one.
fn unescape_char(e: char) -> (r: Option<char>)
    ensures
        r == spec_unescape_char(e),
{
    if e == '"' {
        Some('"')
    } else if e == '\\' {
        Some('\\')
    } else if e == 'n' {
        Some('\n')
    } else if e == 't' {
        Some('\t')
    } else if e == 'r' {
        Some('\r')
    } else {
        None
    }
}

/// Reads a configuration file text back into a configuration.
#[verifier::loop_isolation(false)]
pub fn parse_config(s: &str) -> (r: Option<ArtemisConfig>)
    ensures
        match r {
            Some(cfg) => spec_parse_config(s@) == Some(cfg.get_base_url_spec()),
            None => spec_parse_config(s@) is None,
        },
{
    proof {
        reveal_strlit("base_url = \"");
        assert("base_url = \""@ =~= spec_config_prefix());
    }
    if !strutil::has_prefix(s, "base_url = \"") {
        return None;
    }
    let n = s.unicode_len();
    let mut out = String::new();
    let mut i: usize = 12;
    proof {
        assert(spec_config_prefix().len() == 12);
        match spec_parse_body(s@.skip(12)) {
            None => {},
            Some((b, r)) => {
                assert(Seq::<char>::empty() + b =~= b);
            },
        }
    }
    while i < n
        invariant
            12 <= i <= n,
            n == s@.len(),
            spec_parse_body(s@.skip(12)) == spec_body_prepend(
                out@,
                spec_parse_body(s@.skip(i as int)),
            ),
        decreases n - i,
    {
        let c = s.get_char(i);
        proof {
            assert(s@.skip(i as int)[0] == c);
        }
        if c == '"' {
            proof {
                assert(s@.skip(i as int).drop_first() =~= s@.skip(i as int + 1));
                assert(spec_parse_body(s@.skip(i as int)) == Some(
                    (Seq::<char>::empty(), s@.skip(i as int + 1)),
                ));
                assert(out@ + Seq::<char>::empty() =~= out@);
            }
            if i + 1 == n {
                proof {
                    assert(s@.skip(i as int + 1).len() == 0);
                }
                return Some(ArtemisConfig::new(out));
            } else if i + 2 == n {
                let nl = s.get_char(i + 1);
                proof {
                    assert(s@.skip(i as int + 1)[0] == nl);
                }
                if nl == '\n' {
                    proof {
                        assert(s@.skip(i as int + 1) =~= seq!['\n']);
                    }
                    return Some(ArtemisConfig::new(out));
                } else {
                    proof {
                        assert(s@.skip(i as int + 1) != seq!['\n']);
                        assert(s@.skip(i as int + 1).len() != 0);
                    }
                    return None;
                }
            } else {
                proof {
                    assert(s@.skip(i as int + 1).len() >= 2);
                    assert(s@.skip(i as int + 1) != seq!['\n']);
                }
                return None;
            }
        } else if c == '\\' {
            if i + 1 >= n {
                proof {
                    assert(s@.skip(i as int).len() < 2);
                    assert(spec_parse_body(s@.skip(i as int)) is None);
                }
                return None;
            }
            let e = s.get_char(i + 1);
            proof {
                assert(s@.skip(i as int)[1] == e);
                assert(s@.skip(i as int).len() >= 2);
            }
            let d = match unescape_char(e) {
                Some(d) => d,
                None => {
                    proof {
                        assert(spec_parse_body(s@.skip(i as int)) is None);
                    }
                    return None;
                },
            };
            let ghost out_old = out@;
            strutil::push_char(&mut out, d);
            proof {
                assert(s@.skip(i as int).skip(2) =~= s@.skip(i as int + 2));
                match spec_parse_body(s@.skip(i as int + 2)) {
                    None => {
                        assert(spec_parse_body(s@.skip(i as int)) is None);
                    },
                    Some((b, r)) => {
                        assert(spec_parse_body(s@.skip(i as int)) == Some((seq![d] + b, r)));
                        assert(out_old + (seq![d] + b) =~= out@ + b);
                    },
                }
            }
            i += 2;
        } else {
            let ghost out_old = out@;
            strutil::push_char(&mut out, c);
            proof {
                assert(s@.skip(i as int).drop_first() =~= s@.skip(i as int + 1));
                match spec_parse_body(s@.skip(i as int + 1)) {
                    None => {
                        assert(spec_parse_body(s@.skip(i as int)) is None);
                    },
                    Some((b, r)) => {
                        assert(spec_parse_body(s@.skip(i as int)) == Some((seq![c] + b, r)));
                        assert(out_old + (seq![c] + b) =~= out@ + b);
                    },
                }
            }
            i += 1;
        }
    }
    proof {
        assert(s@.skip(n as int).len() == 0);
        assert(spec_parse_body(s@.skip(n as int)) is None);
    }
    None
}

/// Saving then loading the configuration yields the same base URL.
pub proof fn lemma_config_round_trip(url: Seq<char>)
    ensures
        spec_parse_config(spec_render_config(url)) == Some(url),
{
    let p = spec_config_prefix();
    let s = spec_render_config(url);
    assert(s =~= p + (spec_escape(url) + seq!['"'] + seq!['\n']));
    assert(s.subrange(0, p.len() as int) =~= p);
    assert(spec_has_prefix(s, p));
    assert(s.skip(p.len() as int) =~= spec_escape(url) + seq!['"'] + seq!['\n']);
    lemma_parse_body_of_escape(url, seq!['\n']);
}

} // verus!
