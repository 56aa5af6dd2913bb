//! The configuration file's text: a small TOML-styled form written and read
//! back by this crate alone. The writer and reader are exact inverses: what
//! `to_config_text` writes, `parse_config_text` reads back unchanged, which
//! `lemma_config_text_roundtrip` proves once and for all.
//!
//! The form, line by line: an optional `default_provider = "NAME"` line,
//! then for each stored provider a `[providers.NAME]` header, a
//! `type = "TAG"` line and an `api_key = "KEY"` line, with `"` and `\`
//! escaped by a backslash inside the key.

use crate::argparser::ProviderName;
use crate::configs::Config;
use crate::configs::ConfigV;
use crate::configs::ProviderConfig;
use crate::configs::ProviderConfigV;
use crate::configs::spec_entries_view;
use crate::configs::unique_names;
use crate::text::has_prefix_at;
use crate::text::match_at;
use vstd::prelude::*;
use vstd::string::StrSliceExecFns;
use vstd::string::StringExecFns;

verus! {

/// The credential with `"` and `\` escaped by a backslash; every other
/// character stands as itself.
pub open spec fn spec_escape(s: Seq<char>) -> Seq<char>
    decreases s.len(),
{
    if s.len() == 0 {
        Seq::empty()
    } else if s[0] == '"' || s[0] == '\\' {
        seq!['\\', s[0]] + spec_escape(s.skip(1))
    } else {
        seq![s[0]] + spec_escape(s.skip(1))
    }
}

pub open spec fn spec_name_text(n: ProviderName) -> Seq<char> {
    n.spec_display_name()
}

pub open spec fn spec_type_text(c: ProviderConfigV) -> Seq<char> {
    match c {
        ProviderConfigV::OpenWeather { .. } => "openweather"@,
        ProviderConfigV::WeatherApi { .. } => "weatherapi"@,
    }
}

pub open spec fn spec_key_of(c: ProviderConfigV) -> Seq<char> {
    match c {
        ProviderConfigV::OpenWeather { api_key } => api_key,
        ProviderConfigV::WeatherApi { api_key } => api_key,
    }
}

/// One provider's stored block.
pub open spec fn spec_block(name: ProviderName, cfg: ProviderConfigV) -> Seq<char> {
    "[providers."@ + spec_name_text(name) + "]\ntype = \""@ + spec_type_text(cfg)
        + "\"\napi_key = \""@ + spec_escape(spec_key_of(cfg)) + "\"\n"@
}

pub open spec fn spec_blocks(entries: Seq<(ProviderName, ProviderConfigV)>) -> Seq<char>
    decreases entries.len(),
{
    if entries.len() == 0 {
        Seq::empty()
    } else {
        spec_block(entries[0].0, entries[0].1) + spec_blocks(entries.skip(1))
    }
}

/// The configuration file's full text.
pub open spec fn spec_serialize_config(c: ConfigV) -> Seq<char> {
    (match c.default_provider {
        Some(n) => "default_provider = \""@ + spec_name_text(n) + "\"\n"@,
        None => Seq::empty(),
    }) + spec_blocks(c.providers)
}

/// Reads a quoted credential from just after its opening quote: a backslash
/// escapes the next `"` or `\`, anything else stands for itself, and the
/// first bare quote closes. Yields the text and the position after the
/// closing quote.
pub open spec fn spec_parse_qbody(s: Seq<char>, i: int) -> Option<(Seq<char>, int)>
    decreases s.len() - i,
{
    if i < 0 || i >= s.len() {
        None
    } else if s[i] == '"' {
        Some((Seq::empty(), i + 1))
    } else if s[i] == '\\' {
        if i + 1 < s.len() && (s[i + 1] == '"' || s[i + 1] == '\\') {
            match spec_parse_qbody(s, i + 2) {
                Some((v, j)) => Some((seq![s[i + 1]] + v, j)),
                None => None,
            }
        } else {
            None
        }
    } else {
        match spec_parse_qbody(s, i + 1) {
            Some((v, j)) => Some((seq![s[i]] + v, j)),
            None => None,
        }
    }
}

/// Reads a provider name.
pub open spec fn spec_parse_name(s: Seq<char>, i: int) -> Option<(ProviderName, int)> {
    if has_prefix_at(s, i, "OpenWeather"@) {
        Some((ProviderName::OpenWeather, i + 11))
    } else if has_prefix_at(s, i, "WeatherApi"@) {
        Some((ProviderName::WeatherApi, i + 10))
    } else {
        None
    }
}

/// Reads a credential tag.
pub open spec fn spec_parse_type(s: Seq<char>, i: int) -> Option<(ProviderName, int)> {
    if has_prefix_at(s, i, "openweather"@) {
        Some((ProviderName::OpenWeather, i + 11))
    } else if has_prefix_at(s, i, "weatherapi"@) {
        Some((ProviderName::WeatherApi, i + 10))
    } else {
        None
    }
}

/// The credential of the tagged variant holding `key`.
pub open spec fn spec_tagged(tag: ProviderName, key: Seq<char>) -> ProviderConfigV {
    match tag {
        ProviderName::OpenWeather => ProviderConfigV::OpenWeather { api_key: key },
        ProviderName::WeatherApi => ProviderConfigV::WeatherApi { api_key: key },
    }
}

/// Reads one provider block.
pub open spec fn spec_parse_block(s: Seq<char>, i: int) -> Option<
    ((ProviderName, ProviderConfigV), int),
> {
    if has_prefix_at(s, i, "[providers."@) {
        match spec_parse_name(s, i + 11) {
            Some((name, j)) => if has_prefix_at(s, j, "]\ntype = \""@) {
                match spec_parse_type(s, j + 10) {
                    Some((tag, k)) => if has_prefix_at(s, k, "\"\napi_key = \""@) {
                        match spec_parse_qbody(s, k + 13) {
                            Some((key, m)) => if has_prefix_at(s, m, "\n"@) {
                                Some(((name, spec_tagged(tag, key)), m + 1))
                            } else {
                                None
                            },
                            None => None,
                        }
                    } else {
                        None
                    },
                    None => None,
                }
            } else {
                None
            },
            None => None,
        }
    } else {
        None
    }
}

/// Reads blocks until the end of the text.
pub open spec fn spec_parse_blocks(s: Seq<char>, i: int) -> Option<
    Seq<(ProviderName, ProviderConfigV)>,
>
    decreases s.len() - i,
{
    if i == s.len() {
        Some(Seq::empty())
    } else {
        match spec_parse_block(s, i) {
            Some((entry, j)) => if i < j <= s.len() {
                match spec_parse_blocks(s, j) {
                    Some(rest) => Some(seq![entry] + rest),
                    None => None,
                }
            } else {
                None
            },
            None => None,
        }
    }
}

/// What a configuration text parses to: the canonical form only, each
/// provider at most once; anything else is refused.
pub open spec fn spec_parse_config(s: Seq<char>) -> Option<ConfigV> {
    if has_prefix_at(s, 0, "default_provider = \""@) {
        match spec_parse_name(s, 20) {
            Some((n, j)) => if has_prefix_at(s, j, "\"\n"@) {
                match spec_parse_blocks(s, j + 2) {
                    Some(entries) => if unique_names(entries) {
                        Some(ConfigV { default_provider: Some(n), providers: entries })
                    } else {
                        None
                    },
                    None => None,
                }
            } else {
                None
            },
            None => None,
        }
    } else {
        match spec_parse_blocks(s, 0) {
            Some(entries) => if unique_names(entries) {
                Some(ConfigV { default_provider: None, providers: entries })
            } else {
                None
            },
            None => None,
        }
    }
}

/// Escapes a credential for its quoted form.
pub fn escape_text(s: &str) -> (r: String)
    ensures
        r@ == spec_escape(s@),
{
    let n = s.unicode_len();
    let mut out = String::new();
    let mut i: usize = 0;
    proof {
        assert(s@.skip(0) =~= s@);
        assert(out@ + spec_escape(s@) =~= spec_escape(s@));
    }
    while i < n
        invariant
            n == s@.len(),
            i <= n,
            out@ + spec_escape(s@.skip(i as int)) == spec_escape(s@),
        decreases n - i,
    {
        let c = s.get_char(i);
        let ghost prev = out@;
        proof {
            assert(s@.skip(i as int)[0] == s@[i as int]);
            assert(s@.skip(i as int).skip(1) =~= s@.skip(i as int + 1));
        }
        if c == '"' || c == '\\' {
            out.push('\\');
            out.push(c);
            proof {
                assert(out@ =~= prev + seq!['\\', c]);
                assert(out@ + spec_escape(s@.skip(i as int + 1)) =~= prev + (seq!['\\', c]
                    + spec_escape(s@.skip(i as int + 1))));
            }
        } else {
            out.push(c);
            proof {
                assert(out@ =~= prev + seq![c]);
                assert(out@ + spec_escape(s@.skip(i as int + 1)) =~= prev + (seq![c] + spec_escape(
                    s@.skip(i as int + 1),
                )));
            }
        }
        i = i + 1;
    }
    proof {
        assert(s@.skip(n as int) =~= Seq::<char>::empty());
        assert(out@ =~= out@ + spec_escape(s@.skip(n as int)));
    }
    out
}

/// One provider's stored block, rendered.
fn render_block(name: &ProviderName, cfg: &ProviderConfig) -> (r: String)
    ensures
        r@ == spec_block(*name, cfg@),
{
    let mut s = String::from_str("[providers.");
    let nm = name.display_name();
    s.append(nm.as_str());
    s.append("]\ntype = \"");
    match cfg {
        ProviderConfig::OpenWeather { .. } => s.append("openweather"),
        ProviderConfig::WeatherApi { .. } => s.append("weatherapi"),
    }
    s.append("\"\napi_key = \"");
    let esc = escape_text(cfg.api_key_text().as_str());
    s.append(esc.as_str());
    s.append("\"\n");
    proof {
        assert(s@ =~= spec_block(*name, cfg@));
    }
    s
}

impl Config {
    /// The stored text for this configuration.
    pub fn to_config_text(&self) -> (r: String)
        ensures
            r@ == spec_serialize_config(self@),
    {
        let mut s = match &self.default_provider {
            Some(n) => {
                let mut line = String::from_str("default_provider = \"");
                let nm = n.display_name();
                line.append(nm.as_str());
                line.append("\"\n");
                line
            },
            None => String::new(),
        };
        let n = self.providers.len();
        let mut i: usize = 0;
        proof {
            assert(self@.providers.skip(0) =~= self@.providers);
        }
        while i < n
            invariant
                n == self.providers@.len(),
                self@.providers.len() == n,
                i <= n,
                s@ + spec_blocks(self@.providers.skip(i as int)) == spec_serialize_config(self@),
            decreases n - i,
        {
            let ghost prev = s@;
            let row = render_block(&self.providers[i].0, &self.providers[i].1);
            s.append(row.as_str());
            proof {
                assert(self@.providers.skip(i as int)[0] == self@.providers[i as int]);
                assert(self@.providers[i as int] == (
                    self.providers@[i as int].0,
                    self.providers@[i as int].1@,
                ));
                assert(self@.providers.skip(i as int).skip(1) =~= self@.providers.skip(
                    i as int + 1,
                ));
                assert(spec_blocks(self@.providers.skip(i as int)) == spec_block(
                    self.providers@[i as int].0,
                    self.providers@[i as int].1@,
                ) + spec_blocks(self@.providers.skip(i as int + 1)));
                assert(prev + spec_blocks(self@.providers.skip(i as int)) =~= s@ + spec_blocks(
                    self@.providers.skip(i as int + 1),
                ));
            }
            i = i + 1;
        }
        proof {
            assert(self@.providers.skip(n as int) =~= Seq::<(
                ProviderName,
                ProviderConfigV,
            )>::empty());
            assert(s@ =~= s@ + spec_blocks(self@.providers.skip(n as int)));
        }
        s
    }
}

/// Reads a quoted credential from just after its opening quote.
fn parse_qbody_at(s: &str, start: usize) -> (r: Option<(String, usize)>)
    requires
        start <= s@.len(),
    ensures
        match r {
            Some(p) => spec_parse_qbody(s@, start as int) == Some((p.0@, p.1 as int)) && start
                < p.1 <= s@.len(),
            None => spec_parse_qbody(s@, start as int) is None,
        },
{
    let n = s.unicode_len();
    let mut acc = String::new();
    let mut k: usize = start;
    proof {
        let q = spec_parse_qbody(s@, start as int);
        match q {
            Some(p) => {
                assert(acc@ + p.0 =~= p.0);
            },
            None => {},
        }
    }
    while k < n
        invariant
            n == s@.len(),
            start <= k <= n,
            spec_parse_qbody(s@, start as int) == (match spec_parse_qbody(s@, k as int) {
                Some(p) => Some((acc@ + p.0, p.1)),
                None => None::<(Seq<char>, int)>,
            }),
        decreases n - k,
    {
        let c = s.get_char(k);
        if c == '"' {
            proof {
                assert(spec_parse_qbody(s@, k as int) == Some((Seq::<char>::empty(), k + 1)));
                assert(acc@ + Seq::<char>::empty() =~= acc@);
            }
            return Some((acc, k + 1));
        } else if c == '\\' {
            if k + 1 < n {
                let c2 = s.get_char(k + 1);
                if c2 == '"' || c2 == '\\' {
                    let ghost prev = acc@;
                    acc.push(c2);
                    proof {
                        let q = spec_parse_qbody(s@, k as int + 2);
                        match q {
                            Some(p) => {
                                assert(prev + (seq![c2] + p.0) =~= acc@ + p.0);
                            },
                            None => {},
                        }
                    }
                    k = k + 2;
                } else {
                    return None;
                }
            } else {
                return None;
            }
        } else {
            let ghost prev = acc@;
            acc.push(c);
            proof {
                let q = spec_parse_qbody(s@, k as int + 1);
                match q {
                    Some(p) => {
                        assert(prev + (seq![c] + p.0) =~= acc@ + p.0);
                    },
                    None => {},
                }
            }
            k = k + 1;
        }
    }
    None
}

/// Reads a provider name.
fn parse_name_at(s: &str, i: usize) -> (r: Option<(ProviderName, usize)>)
    requires
        i <= s@.len(),
        s@.len() <= usize::MAX,
    ensures
        match r {
            Some(p) => spec_parse_name(s@, i as int) == Some((p.0, p.1 as int)) && i < p.1
                <= s@.len(),
            None => spec_parse_name(s@, i as int) is None,
        },
{
    proof {
        reveal_strlit("OpenWeather");
        reveal_strlit("WeatherApi");
    }
    if match_at(s, i, "OpenWeather") {
        Some((ProviderName::OpenWeather, i + 11))
    } else if match_at(s, i, "WeatherApi") {
        Some((ProviderName::WeatherApi, i + 10))
    } else {
        None
    }
}

/// Reads a credential tag.
fn parse_type_at(s: &str, i: usize) -> (r: Option<(ProviderName, usize)>)
    requires
        i <= s@.len(),
        s@.len() <= usize::MAX,
    ensures
        match r {
            Some(p) => spec_parse_type(s@, i as int) == Some((p.0, p.1 as int)) && i < p.1
                <= s@.len(),
            None => spec_parse_type(s@, i as int) is None,
        },
{
    proof {
        reveal_strlit("openweather");
        reveal_strlit("weatherapi");
    }
    if match_at(s, i, "openweather") {
        Some((ProviderName::OpenWeather, i + 11))
    } else if match_at(s, i, "weatherapi") {
        Some((ProviderName::WeatherApi, i + 10))
    } else {
        None
    }
}

/// Reads one provider block.
fn parse_block_at(s: &str, i: usize) -> (r: Option<((ProviderName, ProviderConfig), usize)>)
    requires
        i <= s@.len(),
        s@.len() <= usize::MAX,
    ensures
        match r {
            Some(p) => spec_parse_block(s@, i as int) == Some(((p.0.0, p.0.1@), p.1 as int)) && i
                < p.1 <= s@.len(),
            None => spec_parse_block(s@, i as int) is None,
        },
{
    proof {
        reveal_strlit("[providers.");
        reveal_strlit("]\ntype = \"");
        reveal_strlit("\"\napi_key = \"");
        reveal_strlit("\n");
    }
    if !match_at(s, i, "[providers.") {
        return None;
    }
    let name = match parse_name_at(s, i + 11) {
        None => {
            return None;
        },
        Some(p) => p,
    };
    let j = name.1;
    if !match_at(s, j, "]\ntype = \"") {
        return None;
    }
    let tag = match parse_type_at(s, j + 10) {
        None => {
            return None;
        },
        Some(p) => p,
    };
    let k = tag.1;
    if !match_at(s, k, "\"\napi_key = \"") {
        return None;
    }
    let key = match parse_qbody_at(s, k + 13) {
        None => {
            return None;
        },
        Some(p) => p,
    };
    let m = key.1;
    if !match_at(s, m, "\n") {
        return None;
    }
    let cfg = match tag.0 {
        ProviderName::OpenWeather => ProviderConfig::OpenWeather { api_key: key.0 },
        ProviderName::WeatherApi => ProviderConfig::WeatherApi { api_key: key.0 },
    };
    Some(((name.0, cfg), m + 1))
}

/// True when no provider occurs twice in the list.
fn check_unique(entries: &Vec<(ProviderName, ProviderConfig)>) -> (b: bool)
    ensures
        b == unique_names(spec_entries_view(entries@)),
{
    let n = entries.len();
    let mut i: usize = 0;
    while i < n
        invariant
            n == entries@.len(),
            i <= n,
            forall|a: int, b2: int|
                0 <= a < b2 < n && a < i ==> (#[trigger] entries@[a]).0 != (
                #[trigger] entries@[b2]).0,
        decreases n - i,
    {
        let mut j: usize = i + 1;
        while j < n
            invariant
                n == entries@.len(),
                i < n,
                i + 1 <= j <= n,
                forall|k: int| i < k < j ==> (#[trigger] entries@[k]).0 != entries@[i as int].0,
            decreases n - j,
        {
            if entries[i].0 == entries[j].0 {
                proof {
                    assert(spec_entries_view(entries@)[i as int].0 == entries@[i as int].0);
                    assert(spec_entries_view(entries@)[j as int].0 == entries@[j as int].0);
                }
                return false;
            }
            j = j + 1;
        }
        i = i + 1;
    }
    proof {
        assert forall|a: int, b2: int|
            0 <= a < b2 < spec_entries_view(entries@).len() implies (#[trigger] spec_entries_view(
            entries@,
        )[a]).0 != (#[trigger] spec_entries_view(entries@)[b2]).0 by {
            assert(entries@[a].0 != entries@[b2].0);
        }
    }
    true
}

/// Reads a stored configuration text; anything but the canonical form, or a
/// provider stored twice, is refused.
pub fn parse_config_text(s: &str) -> (r: Option<Config>)
    ensures
        match r {
            Some(c) => c.wf() && spec_parse_config(s@) == Some(c@),
            None => spec_parse_config(s@) is None,
        },
{
    proof {
        reveal_strlit("default_provider = \"");
        reveal_strlit("\"\n");
    }
    let n = s.unicode_len();
    let mut dp: Option<ProviderName> = None;
    let mut i: usize = 0;
    if match_at(s, 0, "default_provider = \"") {
        match parse_name_at(s, 20) {
            None => {
                return None;
            },
            Some(nm) => {
                if !match_at(s, nm.1, "\"\n") {
                    return None;
                }
                dp = Some(nm.0);
                i = nm.1 + 2;
            },
        }
    }
    let mut entries: Vec<(ProviderName, ProviderConfig)> = Vec::new();
    proof {
        let q = spec_parse_blocks(s@, i as int);
        match q {
            Some(rest) => {
                assert(spec_entries_view(entries@) + rest =~= rest);
            },
            None => {},
        }
    }
    while i < n
        invariant
            n == s@.len(),
            i <= n,
            spec_parse_config(s@) == (match spec_parse_blocks(s@, i as int) {
                Some(rest) => if unique_names(spec_entries_view(entries@) + rest) {
                    Some(
                        ConfigV {
                            default_provider: dp,
                            providers: spec_entries_view(entries@) + rest,
                        },
                    )
                } else {
                    None::<ConfigV>
                },
                None => None::<ConfigV>,
            }),
        decreases n - i,
    {
        match parse_block_at(s, i) {
            None => {
                return None;
            },
            Some(p) => {
                let ghost prev = entries@;
                let j = p.1;
                entries.push(p.0);
                proof {
                    assert(spec_entries_view(entries@) =~= spec_entries_view(prev) + seq![
                        (p.0.0, p.0.1@),
                    ]);
                    let q = spec_parse_blocks(s@, j as int);
                    match q {
                        Some(rest) => {
                            assert(spec_entries_view(prev) + (seq![(p.0.0, p.0.1@)] + rest)
                                =~= spec_entries_view(entries@) + rest);
                        },
                        None => {},
                    }
                }
                i = j;
            },
        }
    }
    proof {
        assert(spec_parse_blocks(s@, n as int) == Some(
            Seq::<(ProviderName, ProviderConfigV)>::empty(),
        ));
        assert(spec_entries_view(entries@) + Seq::<(ProviderName, ProviderConfigV)>::empty()
            =~= spec_entries_view(entries@));
    }
    if !check_unique(&entries) {
        return None;
    }
    let c = Config { default_provider: dp, providers: entries };
    proof {
        assert forall|a: int, b2: int| 0 <= a < b2 < c.providers@.len() implies (
        #[trigger] c.providers@[a]).0 != (#[trigger] c.providers@[b2]).0 by {
            assert(spec_entries_view(c.providers@)[a].0 == c.providers@[a].0);
            assert(spec_entries_view(c.providers@)[b2].0 == c.providers@[b2].0);
        }
    }
    Some(c)
}

/// The configuration a stored text yields: the parsed configuration, or the
/// pristine default when the text does not read back, as the loader treats
/// a missing or malformed file.
pub fn config_from_text(s: &str) -> (c: Config)
    ensures
        c.wf(),
        match spec_parse_config(s@) {
            Some(v) => c@ == v,
            None => c.default_provider is None && c.providers@.len() == 0,
        },
{
    match parse_config_text(s) {
        Some(c) => c,
        None => Config::default(),
    }
}
proof fn lemma_extract(s: Seq<char>, i: int, w: Seq<char>, o: int, p: Seq<char>)
    requires
        0 <= i,
        i + w.len() <= s.len(),
        s.subrange(i, i + w.len()) == w,
        0 <= o,
        o + p.len() <= w.len(),
        w.subrange(o, o + p.len()) == p,
    ensures
        s.subrange(i + o, i + o + p.len()) == p,
{
    assert forall|k: int| 0 <= k < p.len() implies s[i + o + k] == p[k] by {
        assert(s.subrange(i, i + w.len())[o + k] == s[i + o + k]);
        assert(w.subrange(o, o + p.len())[k] == w[o + k]);
    }
    assert(s.subrange(i + o, i + o + p.len()) =~= p);
}

/// How one block's text splits into its pieces.
proof fn lemma_block_pieces(name: ProviderName, cfg: ProviderConfigV)
    ensures
        ({
            let b = spec_block(name, cfg);
            let nl = spec_name_text(name).len() as int;
            let tl = spec_type_text(cfg).len() as int;
            let el = spec_escape(spec_key_of(cfg)).len() as int;
            &&& b.len() == 36 + nl + tl + el
            &&& b.subrange(0, 11) == "[providers."@
            &&& b.subrange(11, 11 + nl) == spec_name_text(name)
            &&& b.subrange(11 + nl, 21 + nl) == "]\ntype = \""@
            &&& b.subrange(21 + nl, 21 + nl + tl) == spec_type_text(cfg)
            &&& b.subrange(21 + nl + tl, 34 + nl + tl) == "\"\napi_key = \""@
            &&& b.subrange(34 + nl + tl, 34 + nl + tl + el) == spec_escape(spec_key_of(cfg))
            &&& b[34 + nl + tl + el] == '"'
            &&& b[35 + nl + tl + el] == '\n'
        }),
{
    reveal_strlit("[providers.");
    reveal_strlit("]\ntype = \"");
    reveal_strlit("\"\napi_key = \"");
    reveal_strlit("\"\n");
    let p1 = "[providers."@;
    let p2 = "]\ntype = \""@;
    let p3 = "\"\napi_key = \""@;
    let p4 = "\"\n"@;
    let nt = spec_name_text(name);
    let tt = spec_type_text(cfg);
    let esc = spec_escape(spec_key_of(cfg));
    let b = spec_block(name, cfg);
    let nl = nt.len() as int;
    let tl = tt.len() as int;
    let el = esc.len() as int;
    assert(p1.len() == 11);
    assert(p2.len() == 10);
    assert(p3.len() == 13);
    assert(p4.len() == 2);
    assert(b == p1 + nt + p2 + tt + p3 + esc + p4);
    assert(b.subrange(0, 11) =~= p1);
    assert(b.subrange(11, 11 + nl) =~= nt);
    assert(b.subrange(11 + nl, 21 + nl) =~= p2);
    assert(b.subrange(21 + nl, 21 + nl + tl) =~= tt);
    assert(b.subrange(21 + nl + tl, 34 + nl + tl) =~= p3);
    assert(b.subrange(34 + nl + tl, 34 + nl + tl + el) =~= esc);
    assert(b[34 + nl + tl + el] == p4[0]);
    assert(b[35 + nl + tl + el] == p4[1]);
}

/// A name's own text at a position parses back to that name.
proof fn lemma_name_parse(s: Seq<char>, i: int, name: ProviderName)
    requires
        0 <= i,
        i + spec_name_text(name).len() <= s.len(),
        s.subrange(i, i + spec_name_text(name).len()) == spec_name_text(name),
    ensures
        spec_parse_name(s, i) == Some((name, i + spec_name_text(name).len())),
{
    reveal_strlit("OpenWeather");
    reveal_strlit("WeatherApi");
    match name {
        ProviderName::OpenWeather => {
            assert(has_prefix_at(s, i, "OpenWeather"@));
        },
        ProviderName::WeatherApi => {
            assert(s.subrange(i, i + 10)[0] == s[i]);
            assert(s[i] == 'W');
            if has_prefix_at(s, i, "OpenWeather"@) {
                assert(s.subrange(i, i + 11)[0] == s[i]);
                assert(false);
            }
            assert(has_prefix_at(s, i, "WeatherApi"@));
        },
    }
}

/// A tag's own text at a position parses back to that tag.
proof fn lemma_type_parse(s: Seq<char>, i: int, cfg: ProviderConfigV)
    requires
        0 <= i,
        i + spec_type_text(cfg).len() <= s.len(),
        s.subrange(i, i + spec_type_text(cfg).len()) == spec_type_text(cfg),
    ensures
        ({
            let tag = match cfg {
                ProviderConfigV::OpenWeather { .. } => ProviderName::OpenWeather,
                ProviderConfigV::WeatherApi { .. } => ProviderName::WeatherApi,
            };
            spec_parse_type(s, i) == Some((tag, i + spec_type_text(cfg).len()))
        }),
{
    reveal_strlit("openweather");
    reveal_strlit("weatherapi");
    match cfg {
        ProviderConfigV::OpenWeather { .. } => {
            assert(has_prefix_at(s, i, "openweather"@));
        },
        ProviderConfigV::WeatherApi { .. } => {
            assert(s.subrange(i, i + 10)[0] == s[i]);
            assert(s[i] == 'w');
            if has_prefix_at(s, i, "openweather"@) {
                assert(s.subrange(i, i + 11)[0] == s[i]);
                assert(false);
            }
            assert(has_prefix_at(s, i, "weatherapi"@));
        },
    }
}

/// An escaped credential followed by its closing quote reads back exactly.
proof fn lemma_qbody_of_escape(v: Seq<char>, s: Seq<char>, i: int)
    requires
        0 <= i,
        i + spec_escape(v).len() + 1 <= s.len(),
        s.subrange(i, i + spec_escape(v).len()) == spec_escape(v),
        s[i + spec_escape(v).len()] == '"',
    ensures
        spec_parse_qbody(s, i) == Some((v, i + spec_escape(v).len() + 1)),
    decreases v.len(),
{
    let e = spec_escape(v);
    if v.len() == 0 {
        assert(v =~= Seq::<char>::empty());
        assert(s[i] == '"');
    } else {
        let c = v[0];
        let v1 = v.skip(1);
        let e1 = spec_escape(v1);
        if c == '"' || c == '\\' {
            assert(e == seq!['\\', c] + e1);
            assert(s.subrange(i, i + e.len())[0] == s[i]);
            assert(s[i] == '\\');
            assert(s.subrange(i, i + e.len())[1] == s[i + 1]);
            assert(s[i + 1] == c);
            assert forall|k: int| 0 <= k < e1.len() implies s[i + 2 + k] == e1[k] by {
                assert(s.subrange(i, i + e.len())[2 + k] == s[i + 2 + k]);
                assert(e[2 + k] == e1[k]);
            }
            assert(s.subrange(i + 2, i + 2 + e1.len()) =~= e1);
            assert(s[i + 2 + e1.len()] == '"');
            lemma_qbody_of_escape(v1, s, i + 2);
            assert(seq![s[i + 1]] + v1 =~= v);
        } else {
            assert(e == seq![c] + e1);
            assert(s.subrange(i, i + e.len())[0] == s[i]);
            assert(s[i] == c);
            assert forall|k: int| 0 <= k < e1.len() implies s[i + 1 + k] == e1[k] by {
                assert(s.subrange(i, i + e.len())[1 + k] == s[i + 1 + k]);
                assert(e[1 + k] == e1[k]);
            }
            assert(s.subrange(i + 1, i + 1 + e1.len()) =~= e1);
            assert(s[i + 1 + e1.len()] == '"');
            lemma_qbody_of_escape(v1, s, i + 1);
            assert(seq![s[i]] + v1 =~= v);
        }
    }
}

/// A block's own text at a position parses back to its entry.
proof fn lemma_block_parse(s: Seq<char>, i: int, name: ProviderName, cfg: ProviderConfigV)
    requires
        0 <= i,
        i + spec_block(name, cfg).len() <= s.len(),
        s.subrange(i, i + spec_block(name, cfg).len()) == spec_block(name, cfg),
    ensures
        spec_parse_block(s, i) == Some(((name, cfg), i + spec_block(name, cfg).len())),
        spec_block(name, cfg).len() >= 36,
{
    reveal_strlit("[providers.");
    reveal_strlit("]\ntype = \"");
    reveal_strlit("\"\napi_key = \"");
    reveal_strlit("\"\n");
    reveal_strlit("\n");
    lemma_block_pieces(name, cfg);
    let b = spec_block(name, cfg);
    let nl = spec_name_text(name).len() as int;
    let tl = spec_type_text(cfg).len() as int;
    let el = spec_escape(spec_key_of(cfg)).len() as int;
    lemma_extract(s, i, b, 0, "[providers."@);
    assert(has_prefix_at(s, i, "[providers."@));
    lemma_extract(s, i, b, 11, spec_name_text(name));
    lemma_name_parse(s, i + 11, name);
    let j = i + 11 + nl;
    lemma_extract(s, i, b, 11 + nl, "]\ntype = \""@);
    assert(has_prefix_at(s, j, "]\ntype = \""@));
    lemma_extract(s, i, b, 21 + nl, spec_type_text(cfg));
    lemma_type_parse(s, j + 10, cfg);
    let tag = match cfg {
        ProviderConfigV::OpenWeather { .. } => ProviderName::OpenWeather,
        ProviderConfigV::WeatherApi { .. } => ProviderName::WeatherApi,
    };
    let k = j + 10 + tl;
    lemma_extract(s, i, b, 21 + nl + tl, "\"\napi_key = \""@);
    assert(has_prefix_at(s, k, "\"\napi_key = \""@));
    lemma_extract(s, i, b, 34 + nl + tl, spec_escape(spec_key_of(cfg)));
    assert(s.subrange(i, i + b.len())[34 + nl + tl + el] == s[i + 34 + nl + tl + el]);
    assert(s[k + 13 + el] == '"');
    lemma_qbody_of_escape(spec_key_of(cfg), s, k + 13);
    let m = k + 13 + el + 1;
    assert(s.subrange(i, i + b.len())[35 + nl + tl + el] == s[i + 35 + nl + tl + el]);
    assert(s[m] == '\n');
    assert(s.subrange(m, m + 1) =~= "\n"@);
    assert(has_prefix_at(s, m, "\n"@));
    assert(spec_tagged(tag, spec_key_of(cfg)) == cfg);
    assert(spec_parse_block(s, i) == Some(((name, cfg), m + 1)));
    assert(m + 1 == i + b.len());
}

/// Blocks written back to back, reaching the end of the text, parse back to
/// the same entries in the same order.
proof fn lemma_blocks_parse(entries: Seq<(ProviderName, ProviderConfigV)>, s: Seq<char>, i: int)
    requires
        0 <= i <= s.len(),
        s.len() - i == spec_blocks(entries).len(),
        s.subrange(i, s.len() as int) == spec_blocks(entries),
    ensures
        spec_parse_blocks(s, i) == Some(entries),
    decreases entries.len(),
{
    if entries.len() == 0 {
        assert(entries =~= Seq::<(ProviderName, ProviderConfigV)>::empty());
        assert(i == s.len());
    } else {
        let name = entries[0].0;
        let cfg = entries[0].1;
        let b0 = spec_block(name, cfg);
        let rest = spec_blocks(entries.skip(1));
        assert(spec_blocks(entries) == b0 + rest);
        assert forall|k: int| 0 <= k < b0.len() implies s[i + k] == b0[k] by {
            assert(s.subrange(i, s.len() as int)[k] == s[i + k]);
            assert((b0 + rest)[k] == b0[k]);
        }
        assert(s.subrange(i, i + b0.len()) =~= b0);
        lemma_block_parse(s, i, name, cfg);
        let j = i + b0.len();
        assert forall|k: int| 0 <= k < rest.len() implies s[j + k] == rest[k] by {
            assert(s.subrange(i, s.len() as int)[b0.len() + k] == s[j + k]);
            assert((b0 + rest)[b0.len() + k] == rest[k]);
        }
        assert(s.subrange(j, s.len() as int) =~= rest);
        lemma_blocks_parse(entries.skip(1), s, j);
        assert(seq![entries[0]] + entries.skip(1) =~= entries);
        assert((entries[0].0, entries[0].1) == entries[0]);
        assert(spec_parse_blocks(s, i) == Some(entries));
    }
}

/// Writing a configuration out and reading it back preserves everything:
/// the default provider, every configured provider, its tag and its
/// credential, in order. Holds for every configuration in which no provider
/// is stored twice, whatever the credentials hold.
pub proof fn lemma_config_text_roundtrip(c: ConfigV)
    requires
        unique_names(c.providers),
    ensures
        spec_parse_config(spec_serialize_config(c)) == Some(c),
{
    reveal_strlit("default_provider = \"");
    reveal_strlit("\"\n");
    reveal_strlit("[providers.");
    let s = spec_serialize_config(c);
    let blocks = spec_blocks(c.providers);
    let dpl = "default_provider = \""@;
    assert(dpl.len() == 20);
    match c.default_provider {
        None => {
            assert(s =~= blocks);
            if c.providers.len() == 0 {
                assert(blocks.len() == 0);
                assert(!has_prefix_at(s, 0, dpl));
            } else {
                lemma_block_pieces(c.providers[0].0, c.providers[0].1);
                let b0 = spec_block(c.providers[0].0, c.providers[0].1);
                assert(blocks == b0 + spec_blocks(c.providers.skip(1)));
                assert(b0.subrange(0, 11)[0] == b0[0]);
                assert(s[0] == '[');
                if has_prefix_at(s, 0, dpl) {
                    assert(s.subrange(0, 20)[0] == s[0]);
                    assert(false);
                }
            }
            assert(s.subrange(0, s.len() as int) =~= blocks);
            lemma_blocks_parse(c.providers, s, 0);
            assert(ConfigV { default_provider: None, providers: c.providers } == c);
        },
        Some(n) => {
            let nt = spec_name_text(n);
            let nl = nt.len() as int;
            let qn = "\"\n"@;
            let head = dpl + nt + qn;
            assert(s == head + blocks);
            assert forall|k: int| 0 <= k < 20 implies s[k] == dpl[k] by {
                assert((head + blocks)[k] == head[k]);
                assert(head[k] == dpl[k]);
            }
            assert(s.len() >= head.len());
            assert(s.subrange(0, 20) =~= dpl);
            assert(has_prefix_at(s, 0, dpl));
            assert forall|k: int| 0 <= k < nl implies s[20 + k] == nt[k] by {
                assert((head + blocks)[20 + k] == head[20 + k]);
                assert(head[20 + k] == nt[k]);
            }
            assert(s.subrange(20, 20 + nl) =~= nt);
            lemma_name_parse(s, 20, n);
            let j = 20 + nl;
            assert forall|k: int| 0 <= k < 2 implies s[j + k] == qn[k] by {
                assert((head + blocks)[j + k] == head[j + k]);
                assert(head[j + k] == qn[k]);
            }
            assert(s.subrange(j, j + 2) =~= qn);
            assert(has_prefix_at(s, j, qn));
            assert forall|k: int| 0 <= k < blocks.len() implies s[j + 2 + k] == blocks[k] by {
                assert((head + blocks)[head.len() + k] == blocks[k]);
            }
            assert(s.subrange(j + 2, s.len() as int) =~= blocks);
            lemma_blocks_parse(c.providers, s, j + 2);
            assert(ConfigV { default_provider: Some(n), providers: c.providers } == c);
        },
    }
}

} // verus!
