//! Compliance exports of the audit log: a summary of the recorded actions,
//! and a signed digest of the exported payload.

use vstd::prelude::*;
use ed25519_dalek::{Signer, SigningKey};
use rand::rngs::OsRng;
use sha2::{Digest, Sha256};
use crate::audit::{AuditEntry, action_label};
use crate::text::{chars_of, owned, append, push_char};
use crate::clock::{format_utc_second, utc_second};

verus! {

// ── Ordering of strings ─────────────────────────────────────────────────────

/// Strict order of strings as `String`'s `Ord` compares them: character by
/// character, a proper prefix first.
pub open spec fn str_lt(a: Seq<char>, b: Seq<char>) -> bool
    decreases a.len(),
{
    if a.len() == 0 {
        b.len() > 0
    } else if b.len() == 0 {
        false
    } else if a[0] != b[0] {
        a[0] < b[0]
    } else {
        str_lt(a.drop_first(), b.drop_first())
    }
}

/// No string is below itself.
pub proof fn lemma_str_lt_irreflexive(a: Seq<char>)
    ensures
        !str_lt(a, a),
    decreases a.len(),
{
    if a.len() > 0 {
        lemma_str_lt_irreflexive(a.drop_first());
    }
}

/// Of two strings, one is below the other unless they are equal.
pub proof fn lemma_str_lt_trichotomy(a: Seq<char>, b: Seq<char>)
    ensures
        a == b || str_lt(a, b) || str_lt(b, a),
        !(str_lt(a, b) && str_lt(b, a)),
    decreases a.len(),
{
    if a.len() > 0 && b.len() > 0 {
        if a[0] == b[0] {
            lemma_str_lt_trichotomy(a.drop_first(), b.drop_first());
            if a.drop_first() == b.drop_first() {
                assert(a =~= seq![a[0]] + a.drop_first());
                assert(b =~= seq![b[0]] + b.drop_first());
            }
        } else {
        }
    } else if a.len() == 0 && b.len() == 0 {
        assert(a =~= b);
    }
}

/// The order of strings is transitive.
pub proof fn lemma_str_lt_transitive(a: Seq<char>, b: Seq<char>, c: Seq<char>)
    requires
        str_lt(a, b),
        str_lt(b, c),
    ensures
        str_lt(a, c),
    decreases a.len(),
{
    if a.len() > 0 && b.len() > 0 && c.len() > 0 {
        if a[0] == b[0] && b[0] == c[0] {
            lemma_str_lt_transitive(a.drop_first(), b.drop_first(), c.drop_first());
        }
    }
}

/// Compares two strings as `String`'s `Ord` does: `true` when `a < b`.
pub fn less_than(a: &str, b: &str) -> (r: bool)
    ensures
        r == str_lt(a@, b@),
{
    let va = chars_of(a);
    let vb = chars_of(b);
    let mut i: usize = 0;
    assert(a@.skip(0) =~= a@);
    assert(b@.skip(0) =~= b@);
    while i < va.len() && i < vb.len()
        invariant
            i <= va.len(),
            i <= vb.len(),
            va@ == a@,
            vb@ == b@,
            str_lt(a@, b@) == str_lt(a@.skip(i as int), b@.skip(i as int)),
        decreases va.len() - i,
    {
        assert(a@.skip(i as int)[0] == va@[i as int]);
        assert(b@.skip(i as int)[0] == vb@[i as int]);
        if va[i] != vb[i] {
            return va[i] < vb[i];
        }
        assert(a@.skip(i as int).drop_first() =~= a@.skip(i + 1));
        assert(b@.skip(i as int).drop_first() =~= b@.skip(i + 1));
        i += 1;
    }
    assert(a@.skip(i as int).len() == a@.len() - i);
    i == va.len() && i < vb.len()
}

// ── Tallies ─────────────────────────────────────────────────────────────────

/// The keys of a tally.
pub open spec fn tally_keys(t: Seq<(String, usize)>) -> Seq<Seq<char>> {
    t.map_values(|p: (String, usize)| p.0@)
}

/// Keys in strictly increasing order (hence distinct).
pub open spec fn strictly_sorted(s: Seq<Seq<char>>) -> bool {
    forall|i: int, j: int| 0 <= i < j < s.len() ==> str_lt(#[trigger] s[i], #[trigger] s[j])
}

/// How often `k` occurs in `names`.
pub open spec fn occurrences(names: Seq<Seq<char>>, k: Seq<char>) -> nat
    decreases names.len(),
{
    if names.len() == 0 {
        0
    } else {
        occurrences(names.drop_last(), k) + if names.last() == k { 1nat } else { 0nat }
    }
}

/// `t` tallies `names`: its keys are exactly the distinct names, in
/// increasing order, each with its number of occurrences.
pub open spec fn tallies(t: Seq<(String, usize)>, names: Seq<Seq<char>>) -> bool {
    &&& strictly_sorted(tally_keys(t))
    &&& tally_keys(t).to_set() == names.to_set()
    &&& forall|i: int| 0 <= i < t.len() ==> t[i].1 == occurrences(names, #[trigger] t[i].0@)
}

proof fn lemma_occurrences_push(names: Seq<Seq<char>>, x: Seq<char>, k: Seq<char>)
    ensures
        occurrences(names.push(x), k) == occurrences(names, k) + if x == k { 1nat } else { 0nat },
{
    assert(names.push(x).drop_last() =~= names);
}

proof fn lemma_occurrences_absent(names: Seq<Seq<char>>, k: Seq<char>)
    requires
        !names.contains(k),
    ensures
        occurrences(names, k) == 0,
    decreases names.len(),
{
    if names.len() > 0 {
        assert(!names.drop_last().contains(k)) by {
            if names.drop_last().contains(k) {
                let w = choose|w: int| 0 <= w < names.drop_last().len() && names.drop_last()[w] == k;
                assert(names[w] == k);
            }
        }
        lemma_occurrences_absent(names.drop_last(), k);
    }
}

proof fn lemma_occurrences_bound(names: Seq<Seq<char>>, k: Seq<char>)
    ensures
        occurrences(names, k) <= names.len(),
    decreases names.len(),
{
    if names.len() > 0 {
        lemma_occurrences_bound(names.drop_last(), k);
    }
}

/// Records one more occurrence of `key` in the tally `t` of `names`.
pub(crate) fn tally_add(t: &mut Vec<(String, usize)>, key: &str, Ghost(names): Ghost<Seq<Seq<char>>>)
    requires
        tallies(old(t)@, names),
        names.len() < usize::MAX,
    ensures
        tallies(final(t)@, names.push(key@)),
{
    proof {
        broadcast use vstd::seq_lib::group_to_multiset_ensures;
    }
    let ghost names2 = names.push(key@);
    let ghost t0 = t@;
    // First position whose key is not below `key`.
    let mut p: usize = 0;
    while p < t.len() && less_than(t[p].0.as_str(), key)
        invariant
            p <= t.len(),
            t@ == t0,
            forall|i: int| 0 <= i < p ==> str_lt(#[trigger] tally_keys(t0)[i], key@),
        decreases t.len() - p,
    {
        p += 1;
    }
    proof {
        assert forall|k: Seq<char>| #[trigger] names2.to_set().contains(k) <==> names.to_set().contains(k) || k == key@ by {
            if names2.to_set().contains(k) {
                let w = choose|w: int| 0 <= w < names2.len() && names2[w] == k;
                if w < names.len() {
                    assert(names[w] == k);
                }
            }
            if names.to_set().contains(k) {
                let w = choose|w: int| 0 <= w < names.len() && names[w] == k;
                assert(names2[w] == k);
            }
            if k == key@ {
                assert(names2[names.len() as int] == k);
            }
        }
    }
    if p < t.len() && crate::text::str_eq(t[p].0.as_str(), key) {
        // Present: bump its count.
        let ghost kp = tally_keys(t0)[p as int];
        proof {
            lemma_occurrences_bound(names, key@);
            lemma_occurrences_push(names, key@, key@);
        }
        let c = t[p].1;
        let s = owned(t[p].0.as_str());
        t.set(p, (s, c + 1));
        proof {
            assert(tally_keys(t@) =~= tally_keys(t0));
            assert forall|i: int| 0 <= i < t@.len() implies t@[i].1 == occurrences(names2, #[trigger] t@[i].0@) by {
                lemma_occurrences_push(names, key@, t@[i].0@);
                if i == p {
                    assert(t0[i].1 == occurrences(names, t0[i].0@));
                    assert(t@[i].0@ == key@);
                    assert(t@[i].1 == t0[i].1 + 1);
                } else {
                    assert(t@[i] == t0[i]);
                    assert(t0[i].1 == occurrences(names, t0[i].0@));
                    assert(tally_keys(t0)[i] == t0[i].0@);
                    assert(kp == key@);
                    assert(str_lt(tally_keys(t0)[i], kp) || str_lt(kp, tally_keys(t0)[i]));
                    if t@[i].0@ == key@ {
                        lemma_str_lt_irreflexive(key@);
                    }
                }
            }
            assert(tally_keys(t@).to_set() =~= names2.to_set()) by {
                assert forall|k: Seq<char>| tally_keys(t@).to_set().contains(k) <==> #[trigger] names2.to_set().contains(k) by {
                    if k == key@ {
                        assert(tally_keys(t@)[p as int] == k);
                    }
                    if names.to_set().contains(k) {
                        assert(tally_keys(t0).to_set().contains(k));
                    }
                    if tally_keys(t@).to_set().contains(k) {
                        assert(tally_keys(t0).to_set().contains(k));
                    }
                }
            }
        }
    } else {
        // Absent: insert it at `p` with a count of one.
        proof {
            if p < t.len() {
                lemma_str_lt_trichotomy(tally_keys(t0)[p as int], key@);
            }
            assert(!names.contains(key@)) by {
                if names.contains(key@) {
                    let w = choose|w: int| 0 <= w < names.len() && names[w] == key@;
                    assert(names.to_set().contains(key@));
                    assert(tally_keys(t0).to_set().contains(key@));
                    let j = choose|j: int| 0 <= j < tally_keys(t0).len() && tally_keys(t0)[j] == key@;
                    if j < p {
                        lemma_str_lt_irreflexive(key@);
                    } else if j > p {
                        lemma_str_lt_transitive(key@, tally_keys(t0)[p as int], tally_keys(t0)[j]);
                        lemma_str_lt_irreflexive(key@);
                    }
                }
            }
            lemma_occurrences_absent(names, key@);
            lemma_occurrences_push(names, key@, key@);
        }
        t.insert(p, (owned(key), 1));
        proof {
            let tk = tally_keys(t@);
            assert(tk =~= tally_keys(t0).insert(p as int, key@));
            assert forall|i: int, j: int| 0 <= i < j < tk.len() implies str_lt(#[trigger] tk[i], #[trigger] tk[j]) by {
                if j < p {
                } else if i < p && j == p {
                } else if i < p && j > p {
                    if p < t0.len() {
                        lemma_str_lt_transitive(tk[i], key@, tally_keys(t0)[p as int]);
                        if j - 1 > p {
                            lemma_str_lt_transitive(tk[i], tally_keys(t0)[p as int], tk[j]);
                        }
                    }
                } else if i == p {
                    if j - 1 > p {
                        lemma_str_lt_transitive(key@, tally_keys(t0)[p as int], tk[j]);
                    }
                } else {
                    assert(tk[i] == tally_keys(t0)[i - 1] && tk[j] == tally_keys(t0)[j - 1]);
                }
            }
            assert forall|i: int| 0 <= i < t@.len() implies t@[i].1 == occurrences(names2, #[trigger] t@[i].0@) by {
                lemma_occurrences_push(names, key@, t@[i].0@);
                if i < p {
                    assert(t@[i] == t0[i]);
                    assert(t0[i].1 == occurrences(names, t0[i].0@));
                    assert(tk[i] == t0[i].0@);
                    assert(str_lt(tk[i], tk[p as int]));
                    if t@[i].0@ == key@ {
                        lemma_str_lt_irreflexive(key@);
                    }
                } else if i > p {
                    assert(t@[i] == t0[i - 1]);
                    assert(t0[i - 1].1 == occurrences(names, t0[i - 1].0@));
                    assert(tk[i] == t0[i - 1].0@);
                    assert(str_lt(tk[p as int], tk[i]));
                    if t@[i].0@ == key@ {
                        lemma_str_lt_irreflexive(key@);
                    }
                } else {
                    assert(t@[i].0@ == key@);
                    assert(t@[i].1 == 1);
                }
            }
            assert(tk.to_set() =~= names2.to_set()) by {
                assert forall|k: Seq<char>| tk.to_set().contains(k) <==> #[trigger] names2.to_set().contains(k) by {
                    if tk.to_set().contains(k) {
                        let j = choose|j: int| 0 <= j < tk.len() && tk[j] == k;
                        if j < p {
                            assert(tally_keys(t0)[j] == k);
                            assert(tally_keys(t0).to_set().contains(k));
                        } else if j > p {
                            assert(tally_keys(t0)[j - 1] == k);
                            assert(tally_keys(t0).to_set().contains(k));
                        }
                    }
                    if names.to_set().contains(k) {
                        assert(tally_keys(t0).to_set().contains(k));
                        let j = choose|j: int| 0 <= j < tally_keys(t0).len() && tally_keys(t0)[j] == k;
                        if j < p {
                            assert(tk[j] == k);
                        } else {
                            assert(tk[j + 1] == k);
                        }
                    }
                    if k == key@ {
                        assert(tk[p as int] == k);
                    }
                }
            }
        }
    }
}

// ── Summary ─────────────────────────────────────────────────────────────────

/// Summary statistics of an audit export.
#[derive(Debug, Clone)]
pub struct AuditSummary {
    pub total_actions: usize,
    pub successful_actions: usize,
    pub failed_actions: usize,
    /// Every actor, once, in increasing order.
    pub unique_actors: Vec<String>,
    /// Each action label with its number of entries, in increasing order of label.
    pub action_counts: Vec<(String, usize)>,
}

/// The actors of the entries, in order.
pub open spec fn actors_of(entries: Seq<AuditEntry>) -> Seq<Seq<char>> {
    entries.map_values(|e: AuditEntry| e.actor@)
}

/// The action labels of the entries, in order.
pub open spec fn labels_of(entries: Seq<AuditEntry>) -> Seq<Seq<char>> {
    entries.map_values(|e: AuditEntry| action_label(e.action))
}

/// The number of failed entries.
pub open spec fn failures(entries: Seq<AuditEntry>) -> nat
    decreases entries.len(),
{
    if entries.len() == 0 {
        0
    } else {
        failures(entries.drop_last()) + if entries.last().success { 0nat } else { 1nat }
    }
}

/// The strings of a vector, as character sequences.
pub open spec fn views(v: Seq<String>) -> Seq<Seq<char>> {
    v.map_values(|s: String| s@)
}

proof fn lemma_failures_bound(entries: Seq<AuditEntry>)
    ensures
        failures(entries) <= entries.len(),
    decreases entries.len(),
{
    if entries.len() > 0 {
        lemma_failures_bound(entries.drop_last());
    }
}

/// Summarises audit entries: how many there are, how many failed, every
/// actor once in increasing order, and the number of entries per action
/// label in increasing order of label.
pub fn summarise(entries: &[AuditEntry]) -> (s: AuditSummary)
    ensures
        s.total_actions == entries@.len(),
        s.failed_actions == failures(entries@),
        s.successful_actions == entries@.len() - failures(entries@),
        strictly_sorted(views(s.unique_actors@)),
        views(s.unique_actors@).to_set() == actors_of(entries@).to_set(),
        tallies(s.action_counts@, labels_of(entries@)),
{
    let mut actors: Vec<(String, usize)> = Vec::new();
    let mut action_counts: Vec<(String, usize)> = Vec::new();
    let mut failed: usize = 0;
    let mut i: usize = 0;
    proof {
        assert(tally_keys(actors@).to_set() =~= actors_of(entries@.take(0)).to_set());
        assert(tally_keys(action_counts@).to_set() =~= labels_of(entries@.take(0)).to_set());
    }
    while i < entries.len()
        invariant
            i <= entries.len(),
            tallies(actors@, actors_of(entries@.take(i as int))),
            tallies(action_counts@, labels_of(entries@.take(i as int))),
            failed == failures(entries@.take(i as int)),
            failed <= i,
        decreases entries.len() - i,
    {
        let e = &entries[i];
        proof {
            assert(entries@.take(i + 1) =~= entries@.take(i as int).push(entries@[i as int]));
            assert(actors_of(entries@.take(i + 1)) =~= actors_of(entries@.take(i as int)).push(e.actor@));
            assert(labels_of(entries@.take(i + 1)) =~= labels_of(entries@.take(i as int)).push(action_label(e.action)));
            assert(entries@.take(i + 1).drop_last() =~= entries@.take(i as int));
        }
        tally_add(&mut actors, e.actor.as_str(), Ghost(actors_of(entries@.take(i as int))));
        let label = e.action.label();
        tally_add(&mut action_counts, label.as_str(), Ghost(labels_of(entries@.take(i as int))));
        if !e.success {
            failed += 1;
        }
        i += 1;
    }
    proof {
        assert(entries@.take(entries.len() as int) =~= entries@);
        lemma_failures_bound(entries@);
    }
    let mut unique_actors: Vec<String> = Vec::new();
    let mut j: usize = 0;
    while j < actors.len()
        invariant
            j <= actors.len(),
            views(unique_actors@) == tally_keys(actors@).take(j as int),
        decreases actors.len() - j,
    {
        let a = owned(actors[j].0.as_str());
        assert(a@ == tally_keys(actors@)[j as int]);
        let ghost before = unique_actors@;
        unique_actors.push(a);
        assert(views(unique_actors@) =~= views(before).push(a@));
        j += 1;
        assert(views(unique_actors@) =~= tally_keys(actors@).take(j as int));
    }
    assert(tally_keys(actors@).take(actors.len() as int) =~= tally_keys(actors@));
    AuditSummary {
        total_actions: entries.len(),
        successful_actions: entries.len() - failed,
        failed_actions: failed,
        unique_actors,
        action_counts,
    }
}

// ── Signing ─────────────────────────────────────────────────────────────────

/// The lowercase hexadecimal digit of a value below sixteen.
pub open spec fn hex_digit(n: u8) -> char {
    if n == 0 { '0' } else if n == 1 { '1' } else if n == 2 { '2' } else if n == 3 { '3' }
    else if n == 4 { '4' } else if n == 5 { '5' } else if n == 6 { '6' } else if n == 7 { '7' }
    else if n == 8 { '8' } else if n == 9 { '9' } else if n == 10 { 'a' } else if n == 11 { 'b' }
    else if n == 12 { 'c' } else if n == 13 { 'd' } else if n == 14 { 'e' } else { 'f' }
}

fn hex_char(n: u8) -> (c: char)
    ensures
        c == hex_digit(n),
{
    if n == 0 { '0' } else if n == 1 { '1' } else if n == 2 { '2' } else if n == 3 { '3' }
    else if n == 4 { '4' } else if n == 5 { '5' } else if n == 6 { '6' } else if n == 7 { '7' }
    else if n == 8 { '8' } else if n == 9 { '9' } else if n == 10 { 'a' } else if n == 11 { 'b' }
    else if n == 12 { 'c' } else if n == 13 { 'd' } else if n == 14 { 'e' } else { 'f' }
}

/// Lowercase hexadecimal of a byte string, two digits per byte.
pub open spec fn hex_of(b: Seq<u8>) -> Seq<char>
    decreases b.len(),
{
    if b.len() == 0 {
        seq![]
    } else {
        hex_of(b.drop_last()) + seq![hex_digit(b.last() / 16), hex_digit(b.last() % 16)]
    }
}

/// The hexadecimal form of bytes has two characters per byte.
pub proof fn lemma_hex_len(b: Seq<u8>)
    ensures
        hex_of(b).len() == 2 * b.len(),
    decreases b.len(),
{
    if b.len() > 0 {
        lemma_hex_len(b.drop_last());
    }
}

/// Lowercase hexadecimal of a byte string, two digits per byte, as
/// `hex::encode` writes it.
pub fn hex_encode(bytes: &[u8]) -> (r: String)
    ensures
        r@ == hex_of(bytes@),
        r@.len() == 2 * bytes@.len(),
{
    let mut r = String::new();
    let mut i: usize = 0;
    while i < bytes.len()
        invariant
            i <= bytes@.len(),
            r@ == hex_of(bytes@.take(i as int)),
        decreases bytes@.len() - i,
    {
        let b = bytes[i];
        push_char(&mut r, hex_char(b / 16));
        push_char(&mut r, hex_char(b % 16));
        proof {
            assert(bytes@.take(i + 1).drop_last() =~= bytes@.take(i as int));
            assert(bytes@.take(i + 1).last() == b);
        }
        i += 1;
        assert(r@ =~= hex_of(bytes@.take(i as int)));
    }
    assert(bytes@.take(bytes@.len() as int) =~= bytes@);
    proof {
        lemma_hex_len(bytes@);
    }
    r
}

/// The SHA-256 digest of a byte string.
pub uninterp spec fn sha256_of(bytes: Seq<u8>) -> Seq<u8>;

/// The Ed25519 signature of `msg` under the secret key `secret`.
pub uninterp spec fn ed25519_signature(secret: Seq<u8>, msg: Seq<u8>) -> Seq<u8>;

/// The Ed25519 public key of the secret key `secret`.
pub uninterp spec fn ed25519_public(secret: Seq<u8>) -> Seq<u8>;

/// `Sha256::digest`: the 32-byte SHA-256 digest.
#[verifier::external_body]
fn sha256_digest(bytes: &[u8]) -> (r: Vec<u8>)
    ensures
        r@ == sha256_of(bytes@),
        r@.len() == 32,
{
    Sha256::digest(bytes).to_vec()
}

/// `SigningKey::generate(&mut OsRng)`: a fresh secret key from the operating
/// system's generator, as its 32 bytes. Which key is not stated.
#[verifier::external_body]
fn generate_secret_key() -> (r: Vec<u8>)
    ensures
        r@.len() == 32,
{
    SigningKey::generate(&mut OsRng).to_bytes().to_vec()
}

/// `SigningKey::from_bytes(secret).sign(msg)`: the 64-byte Ed25519 signature.
#[verifier::external_body]
fn ed25519_sign(secret: &[u8], msg: &[u8]) -> (r: Vec<u8>)
    requires
        secret@.len() == 32,
    ensures
        r@ == ed25519_signature(secret@, msg@),
        r@.len() == 64,
{
    let mut key = [0u8; 32];
    key.copy_from_slice(secret);
    SigningKey::from_bytes(&key).sign(msg).to_bytes().to_vec()
}

/// `SigningKey::from_bytes(secret).verifying_key().to_bytes()`: the 32-byte
/// public key.
#[verifier::external_body]
fn ed25519_public_key(secret: &[u8]) -> (r: Vec<u8>)
    requires
        secret@.len() == 32,
    ensures
        r@ == ed25519_public(secret@),
        r@.len() == 32,
{
    let mut key = [0u8; 32];
    key.copy_from_slice(secret);
    SigningKey::from_bytes(&key).verifying_key().to_bytes().to_vec()
}

/// The integrity fields of a signed export, all lowercase hexadecimal.
#[derive(Debug, Clone)]
pub struct ExportSignature {
    /// SHA-256 of the payload.
    pub sha256: String,
    /// Ed25519 signature of that digest.
    pub signature: String,
    /// Public key that verifies the signature.
    pub public_key: String,
}

/// Signs an export payload with a fresh key: its SHA-256 digest, the
/// Ed25519 signature of the digest, and the public key, in hexadecimal.
pub fn sign_payload(payload: &[u8]) -> (r: ExportSignature)
    ensures
        r.sha256@ == hex_of(sha256_of(payload@)),
        r.sha256@.len() == 64,
        exists|secret: Seq<u8>| secret.len() == 32
            && r.signature@ == hex_of(ed25519_signature(secret, sha256_of(payload@)))
            && #[trigger] r.public_key@ == hex_of(ed25519_public(secret)),
{
    let digest = sha256_digest(payload);
    let secret = generate_secret_key();
    let sig = ed25519_sign(secret.as_slice(), digest.as_slice());
    let public = ed25519_public_key(secret.as_slice());
    ExportSignature {
        sha256: hex_encode(digest.as_slice()),
        signature: hex_encode(sig.as_slice()),
        public_key: hex_encode(public.as_slice()),
    }
}

/// The report line of an entry whose time reads `timestamp`:
/// `[OK|FAIL] {timestamp} | {action} | {namespace}/{resource} | {actor}`.
pub open spec fn report_line_spec(e: AuditEntry, timestamp: Seq<char>) -> Seq<char> {
    "["@ + (if e.success { "OK"@ } else { "FAIL"@ }) + "] "@ + timestamp + " | "@ + action_label(e.action)
        + " | "@ + e.namespace@ + "/"@ + e.resource@ + " | "@ + e.actor@
}

/// The line of the PDF report for one entry.
pub fn report_line(e: &AuditEntry, timestamp: &str) -> (r: String)
    ensures
        r@ == report_line_spec(*e, timestamp@),
{
    let mut s = owned("[");
    append(&mut s, if e.success { "OK" } else { "FAIL" });
    append(&mut s, "] ");
    append(&mut s, timestamp);
    append(&mut s, " | ");
    append(&mut s, e.action.label().as_str());
    append(&mut s, " | ");
    append(&mut s, e.namespace.as_str());
    append(&mut s, "/");
    append(&mut s, e.resource.as_str());
    append(&mut s, " | ");
    append(&mut s, e.actor.as_str());
    s
}


/// The report line of an entry, its time written `%Y-%m-%dT%H:%M:%SZ` in
/// UTC; none when its time is outside chrono's range.
pub fn entry_report_line(e: &AuditEntry) -> (r: Option<String>)
    ensures
        match utc_second(e.timestamp_ms) {
            Some(t) => r.is_some() && r.unwrap()@ == report_line_spec(*e, t),
            None => r.is_none(),
        },
{
    match format_utc_second(e.timestamp_ms) {
        Some(t) => Some(report_line(e, t.as_str())),
        None => None,
    }
}
} // verus!
