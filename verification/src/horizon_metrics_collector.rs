//! Polling Horizon for live metrics: which endpoints to poll, where, and
//! the samples a Prometheus text response holds.
//!
//! The HTTP requests, the Kubernetes listing and the conversion of sample
//! values to numbers (floating point) are the caller's.

use vstd::prelude::*;
use crate::crd::{NodeType, StellarNetwork};
use crate::text::{owned, append, chars_of, string_from_chars, trim, trimmed, white_space};

verus! {

/// Horizon endpoint description — enough to poll metrics.
#[derive(Debug, Clone, PartialEq, Eq)]
pub struct HorizonEndpoint {
    /// Kubernetes namespace of the Horizon deployment.
    pub namespace: String,
    /// Kubernetes resource name of the Horizon StellarNode.
    pub name: String,
    /// Base URL of the Horizon HTTP server.
    pub horizon_url: String,
    /// Node type label used for Prometheus gauge updates.
    pub node_type: String,
    /// Network label ("mainnet", "testnet", ...).
    pub network: String,
    /// Hardware generation label.
    pub hardware_generation: String,
}

/// The shortest polling interval, in seconds.
pub const MIN_POLL_INTERVAL_SECS: u64 = 5;

/// The polling interval used for a requested one: at least five seconds.
pub fn poll_interval_secs(requested: u64) -> (r: u64)
    ensures
        r == (if requested < 5 { 5 } else { requested }),
{
    if requested < MIN_POLL_INTERVAL_SECS { MIN_POLL_INTERVAL_SECS } else { requested }
}

/// The label of a network.
pub open spec fn network_label_spec(n: StellarNetwork) -> Seq<char> {
    match n {
        StellarNetwork::Mainnet => "mainnet"@,
        StellarNetwork::Testnet => "testnet"@,
        StellarNetwork::Futurenet => "futurenet"@,
        StellarNetwork::Custom(_) => "custom"@,
    }
}

/// The label of a network.
pub fn network_label(n: &StellarNetwork) -> (r: String)
    ensures
        r@ == network_label_spec(*n),
{
    match n {
        StellarNetwork::Mainnet => owned("mainnet"),
        StellarNetwork::Testnet => owned("testnet"),
        StellarNetwork::Futurenet => owned("futurenet"),
        StellarNetwork::Custom(_) => owned("custom"),
    }
}

/// The endpoint polled for a StellarNode, for Horizon nodes only: in the
/// node's namespace (`default` when unset), under its name (`unknown` when
/// unset), at `http://{name}.{namespace}.svc.cluster.local:8000`.
pub fn horizon_endpoint(
    node_type: NodeType,
    name: &Option<String>,
    namespace: &Option<String>,
    network: &StellarNetwork,
) -> (r: Option<HorizonEndpoint>)
    ensures
        node_type != NodeType::Horizon ==> r.is_none(),
        node_type == NodeType::Horizon ==> r.is_some(),
        r matches Some(e) ==> {
            let ns = match namespace { Some(n) => n@, None => "default"@ };
            let nm = match name { Some(n) => n@, None => "unknown"@ };
            &&& e.namespace@ == ns
            &&& e.name@ == nm
            &&& e.horizon_url@ == "http://"@ + nm + "."@ + ns + ".svc.cluster.local:8000"@
            &&& e.node_type@ == "horizon"@
            &&& e.network@ == network_label_spec(*network)
            &&& e.hardware_generation@ == "unknown"@
        },
{
    if node_type != NodeType::Horizon {
        return None;
    }
    let ns = match namespace { Some(n) => owned(n.as_str()), None => owned("default") };
    let nm = match name { Some(n) => owned(n.as_str()), None => owned("unknown") };
    let mut url = owned("http://");
    append(&mut url, nm.as_str());
    append(&mut url, ".");
    append(&mut url, ns.as_str());
    append(&mut url, ".svc.cluster.local:8000");
    Some(HorizonEndpoint {
        namespace: ns,
        name: nm,
        horizon_url: url,
        node_type: owned("horizon"),
        network: network_label(network),
        hardware_generation: owned("unknown"),
    })
}

/// `s` without its trailing `/` characters.
pub open spec fn strip_slashes(s: Seq<char>) -> Seq<char>
    decreases s.len(),
{
    if s.len() > 0 && s.last() == '/' { strip_slashes(s.drop_last()) } else { s }
}

fn base_of(url: &str) -> (r: Vec<char>)
    ensures
        r@ == strip_slashes(url@),
{
    let mut v = chars_of(url);
    while v.len() > 0 && v[v.len() - 1] == '/'
        invariant
            strip_slashes(v@) == strip_slashes(url@),
        decreases v.len(),
    {
        v.pop();
    }
    v
}

/// The Prometheus metrics URL of a Horizon base URL.
pub fn metrics_url(base: &str) -> (r: String)
    ensures
        r@ == strip_slashes(base@) + "/metrics"@,
{
    let b = base_of(base);
    let mut r = string_from_chars(b.as_slice());
    append(&mut r, "/metrics");
    r
}

/// The `/info` URL of a Horizon base URL.
pub fn info_url(base: &str) -> (r: String)
    ensures
        r@ == strip_slashes(base@) + "/info"@,
{
    let b = base_of(base);
    let mut r = string_from_chars(b.as_slice());
    append(&mut r, "/info");
    r
}

// ── Prometheus text ─────────────────────────────────────────────────────────

/// `text` cut at each `\n`: the pieces between newlines, the last possibly
/// empty.
pub open spec fn split_newlines(s: Seq<char>) -> Seq<Seq<char>>
    decreases s.len(),
{
    if s.len() == 0 {
        seq![seq![]]
    } else {
        let p = split_newlines(s.drop_last());
        if s.last() == '\n' {
            p.push(seq![])
        } else {
            p.update(p.len() - 1, p.last().push(s.last()))
        }
    }
}

/// `i` is the first position of `c` in `s`.
pub open spec fn first_at(s: Seq<char>, c: char, i: int) -> bool {
    0 <= i < s.len() && s[i] == c && forall|j: int| 0 <= j < i ==> s[j] != c
}

/// The first position of `c` in `s`, if any.
pub open spec fn find(s: Seq<char>, c: char) -> Option<int> {
    if exists|i: int| #[trigger] first_at(s, c, i) { Some(choose|i: int| #[trigger] first_at(s, c, i)) } else { None }
}

/// `i` is the first position of white space in `s`.
pub open spec fn first_space_at(s: Seq<char>, i: int) -> bool {
    0 <= i < s.len() && white_space(s[i]) && forall|j: int| 0 <= j < i ==> !white_space(s[j])
}

/// The first word of a text without leading white space: up to the first
/// white space.
pub open spec fn first_word(v: Seq<char>) -> Seq<char> {
    if exists|i: int| #[trigger] first_space_at(v, i) { v.take(choose|i: int| #[trigger] first_space_at(v, i)) } else { v }
}

/// The sample a line of Prometheus text holds, as the name before the
/// first `{` (or, without one, the first space) and the first word of what
/// follows the labels; none for blank and comment lines and lines with
/// neither.
pub open spec fn line_sample(line: Seq<char>) -> Option<(Seq<char>, Seq<char>)> {
    let l = trimmed(line);
    if l.len() == 0 || l[0] == '#' {
        None
    } else {
        let pos = match find(l, '{') { Some(p) => Some(p), None => find(l, ' ') };
        match pos {
            None => None,
            Some(p) => {
                let rest = l.skip(p);
                let v = match find(rest, '}') { Some(q) => trimmed(rest.skip(q + 1)), None => trimmed(rest) };
                Some((l.take(p), first_word(v)))
            },
        }
    }
}

/// The samples of the lines, in order.
pub open spec fn samples_of(lines: Seq<Seq<char>>) -> Seq<(Seq<char>, Seq<char>)>
    decreases lines.len(),
{
    if lines.len() == 0 {
        seq![]
    } else {
        let r = samples_of(lines.drop_last());
        match line_sample(lines.last()) {
            Some(x) => r.push(x),
            None => r,
        }
    }
}

/// The samples as name and value text.
pub open spec fn sample_views(v: Seq<(String, String)>) -> Seq<(Seq<char>, Seq<char>)> {
    v.map_values(|p: (String, String)| (p.0@, p.1@))
}

proof fn lemma_first_unique(s: Seq<char>, c: char, i: int)
    requires
        first_at(s, c, i),
    ensures
        find(s, c) == Some(i),
{
    assert(first_at(s, c, i));
    let k = choose|k: int| #[trigger] first_at(s, c, k);
    if k < i {
        assert(s[k] != c);
    } else if i < k {
        assert(s[i] != c);
    }
}

fn find_char(s: &Vec<char>, c: char) -> (r: Option<usize>)
    ensures
        match r {
            Some(i) => find(s@, c) == Some(i as int) && i < s@.len(),
            None => find(s@, c).is_none(),
        },
{
    let mut i: usize = 0;
    while i < s.len()
        invariant
            i <= s@.len(),
            forall|j: int| 0 <= j < i ==> s@[j] != c,
        decreases s@.len() - i,
    {
        if s[i] == c {
            proof {
                lemma_first_unique(s@, c, i as int);
            }
            return Some(i);
        }
        i += 1;
    }
    proof {
        if exists|k: int| #[trigger] first_at(s@, c, k) {
            let k = choose|k: int| #[trigger] first_at(s@, c, k);
            assert(s@[k] == c);
        }
    }
    None
}

fn is_white_space(c: char) -> (r: bool)
    ensures
        r == white_space(c),
{
    ('\u{9}' <= c && c <= '\u{d}') || c == ' ' || c == '\u{85}' || c == '\u{a0}' || c == '\u{1680}'
        || ('\u{2000}' <= c && c <= '\u{200a}') || c == '\u{2028}' || c == '\u{2029}' || c == '\u{202f}'
        || c == '\u{205f}' || c == '\u{3000}'
}

fn range_of(v: &Vec<char>, a: usize, b: usize) -> (r: Vec<char>)
    requires
        a <= b <= v@.len(),
    ensures
        r@ == v@.subrange(a as int, b as int),
{
    let mut r: Vec<char> = Vec::new();
    let mut i: usize = a;
    while i < b
        invariant
            a <= i <= b,
            b <= v@.len(),
            r@ == v@.subrange(a as int, i as int),
        decreases b - i,
    {
        r.push(v[i]);
        i += 1;
        assert(r@ =~= v@.subrange(a as int, i as int));
    }
    r
}

fn trimmed_chars(v: &Vec<char>) -> (r: Vec<char>)
    ensures
        r@ == trimmed(v@),
{
    let s = string_from_chars(v.as_slice());
    chars_of(trim(s.as_str()).as_str())
}

fn word_of(v: &Vec<char>) -> (r: Vec<char>)
    ensures
        r@ == first_word(v@),
{
    let mut i: usize = 0;
    while i < v.len()
        invariant
            i <= v@.len(),
            forall|j: int| 0 <= j < i ==> !white_space(v@[j]),
        decreases v@.len() - i,
    {
        if is_white_space(v[i]) {
            proof {
                assert(first_space_at(v@, i as int));
                let k = choose|k: int| #[trigger] first_space_at(v@, k);
                if k < i {
                    assert(!white_space(v@[k]));
                } else if i < k {
                    assert(!white_space(v@[i as int]));
                }
            }
            return range_of(v, 0, i);
        }
        i += 1;
    }
    proof {
        if exists|k: int| #[trigger] first_space_at(v@, k) {
            let k = choose|k: int| #[trigger] first_space_at(v@, k);
            assert(white_space(v@[k]));
        }
    }
    range_of(v, 0, v.len())
}

fn sample_of_line(line: &Vec<char>) -> (r: Option<(String, String)>)
    ensures
        match r {
            Some(p) => line_sample(line@) == Some((p.0@, p.1@)),
            None => line_sample(line@).is_none(),
        },
{
    let l = trimmed_chars(line);
    if l.len() == 0 || l[0] == '#' {
        return None;
    }
    let pos = match find_char(&l, '{') {
        Some(p) => Some(p),
        None => find_char(&l, ' '),
    };
    match pos {
        None => None,
        Some(p) => {
            let rest = range_of(&l, p, l.len());
            assert(rest@ =~= l@.skip(p as int));
            let v = match find_char(&rest, '}') {
                Some(q) => {
                    let after = range_of(&rest, q + 1, rest.len());
                    assert(after@ =~= rest@.skip(q + 1));
                    trimmed_chars(&after)
                },
                None => trimmed_chars(&rest),
            };
            let key = range_of(&l, 0, p);
            assert(key@ =~= l@.take(p as int));
            let w = word_of(&v);
            Some((string_from_chars(key.as_slice()), string_from_chars(w.as_slice())))
        },
    }
}

/// The samples of a Prometheus text response, line by line, as metric name
/// and value text; the caller parses the values and keeps the last value
/// of each name that parses.
pub fn metric_samples(text: &str) -> (r: Vec<(String, String)>)
    ensures
        sample_views(r@) == samples_of(split_newlines(text@)),
{
    let cs = chars_of(text);
    let mut out: Vec<(String, String)> = Vec::new();
    let mut cur: Vec<char> = Vec::new();
    let mut i: usize = 0;
    while i < cs.len()
        invariant
            cs@ == text@,
            i <= cs@.len(),
            split_newlines(cs@.take(i as int)).len() >= 1,
            cur@ == split_newlines(cs@.take(i as int)).last(),
            sample_views(out@) == samples_of(split_newlines(cs@.take(i as int)).drop_last()),
        decreases cs@.len() - i,
    {
        let c = cs[i];
        let ghost p = split_newlines(cs@.take(i as int));
        proof {
            assert(cs@.take(i + 1).drop_last() =~= cs@.take(i as int));
            assert(cs@.take(i + 1).last() == c);
        }
        if c == '\n' {
            let ghost before = out@;
            match sample_of_line(&cur) {
                Some(x) => {
                    out.push(x);
                    assert(sample_views(out@) =~= sample_views(before).push((x.0@, x.1@)));
                },
                None => {},
            }
            cur = Vec::new();
            proof {
                let q = split_newlines(cs@.take(i + 1));
                assert(q == p.push(seq![]));
                assert(q.drop_last() =~= p);
                assert(p.drop_last() =~= p.drop_last());
                assert(p =~= p.drop_last().push(p.last()));
                assert(samples_of(p) == samples_of(p.drop_last()) + match line_sample(p.last()) { Some(x) => seq![x], None => seq![] }) by {
                    assert(p.drop_last() == p.drop_last());
                }
            }
        } else {
            cur.push(c);
            proof {
                let q = split_newlines(cs@.take(i + 1));
                assert(q == p.update(p.len() - 1, p.last().push(c)));
                assert(q.drop_last() =~= p.drop_last());
                assert(cur@ == q.last());
            }
        }
        i += 1;
    }
    proof {
        assert(cs@.take(cs@.len() as int) =~= cs@);
    }
    let ghost p = split_newlines(cs@);
    let ghost before = out@;
    match sample_of_line(&cur) {
        Some(x) => {
            out.push(x);
            assert(sample_views(out@) =~= sample_views(before).push((x.0@, x.1@)));
        },
        None => {},
    }
    proof {
        assert(p =~= p.drop_last().push(p.last()));
    }
    out
}

} // verus!
