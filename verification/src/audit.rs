//! Audit entries of administrative actions, and where they are persisted.
//!
//! Persisting is the callers' I/O; this module builds entries, derives what
//! each sink writes (object keys, checksums, headers) and encrypts details.

use vstd::prelude::*;
use base64::Engine;
use crate::clock::{unix_now_millis, format_utc_date, utc_date};
use crate::text::{owned, concat2, append};
use crate::compliance::{hex_encode, hex_of};

verus! {

/// An administrative action that is audited.
#[derive(Debug, Clone, PartialEq, Eq)]
pub enum AdminAction {
    NodeCreate,
    NodeUpdate,
    NodeDelete,
    ConfigUpdate,
    Other(String),
}

/// `format!("{:?}", s)` for a string: the string quoted, with Rust's debug
/// escapes.
pub uninterp spec fn debug_quoted(s: Seq<char>) -> Seq<char>;

/// `format!("{:?}", s)`: the debug form of a string.
#[verifier::external_body]
fn quote_debug(s: &str) -> (r: String)
    ensures
        r@ == debug_quoted(s@),
{
    format!("{:?}", s)
}

/// The label of an action, as its debug form prints it.
pub open spec fn action_label(a: AdminAction) -> Seq<char> {
    match a {
        AdminAction::NodeCreate => "NodeCreate"@,
        AdminAction::NodeUpdate => "NodeUpdate"@,
        AdminAction::NodeDelete => "NodeDelete"@,
        AdminAction::ConfigUpdate => "ConfigUpdate"@,
        AdminAction::Other(s) => "Other("@ + debug_quoted(s@) + ")"@,
    }
}

impl AdminAction {
    /// The action's label, as its debug form prints it.
    pub fn label(&self) -> (r: String)
        ensures
            r@ == action_label(*self),
    {
        match self {
            AdminAction::NodeCreate => owned("NodeCreate"),
            AdminAction::NodeUpdate => owned("NodeUpdate"),
            AdminAction::NodeDelete => owned("NodeDelete"),
            AdminAction::ConfigUpdate => owned("ConfigUpdate"),
            AdminAction::Other(s) => {
                let mut r = owned("Other(");
                append(&mut r, quote_debug(s.as_str()).as_str());
                append(&mut r, ")");
                r
            },
        }
    }
}

/// One audited action.
#[derive(Debug, Clone)]
pub struct AuditEntry {
    /// Unique identifier: 32 lowercase hex digits.
    pub id: String,
    /// When the action happened, in milliseconds since the Unix epoch.
    pub timestamp_ms: i64,
    pub action: AdminAction,
    pub actor: String,
    pub resource: String,
    pub namespace: String,
    pub details: Option<String>,
    pub success: bool,
    pub error: Option<String>,
}

/// `rand::random::<[u8; 16]>()`: sixteen random bytes from the thread-local
/// generator. Which ones is not stated.
#[verifier::external_body]
fn random_id_bytes() -> (r: Vec<u8>)
    ensures
        r@.len() == 16,
{
    rand::random::<[u8; 16]>().to_vec()
}

/// An optional string slice, copied.
fn copy_opt(s: Option<&str>) -> (r: Option<String>)
    ensures
        match s {
            Some(x) => r.is_some() && r.unwrap()@ == x@,
            None => r.is_none(),
        },
{
    match s {
        Some(x) => Some(owned(x)),
        None => None,
    }
}

impl AuditEntry {
    /// A successful entry for `action` by `actor` on `resource` in
    /// `namespace`, stamped now, with a fresh random identifier.
    pub fn new(action: AdminAction, actor: &str, resource: &str, namespace: &str, details: Option<&str>) -> (r: AuditEntry)
        ensures
            r.action == action,
            r.actor@ == actor@,
            r.resource@ == resource@,
            r.namespace@ == namespace@,
            match details {
                Some(d) => r.details.is_some() && r.details.unwrap()@ == d@,
                None => r.details.is_none(),
            },
            r.success,
            r.error.is_none(),
            r.id@.len() == 32,
            exists|b: Seq<u8>| b.len() == 16 && r.id@ == #[trigger] hex_of(b),
    {
        let id_bytes = random_id_bytes();
        let id = hex_encode(id_bytes.as_slice());
        AuditEntry {
            id,
            timestamp_ms: unix_now_millis(),
            action,
            actor: owned(actor),
            resource: owned(resource),
            namespace: owned(namespace),
            details: copy_opt(details),
            success: true,
            error: None,
        }
    }
}

/// The details of an entry once encrypted under `key_ref`.
pub open spec fn encrypted_details(details: Option<Seq<char>>, key_ref: Seq<char>) -> Option<Seq<char>> {
    match details {
        Some(d) => Some("ENC["@ + key_ref + "]:"@ + d),
        None => None,
    }
}

/// Seals the entry's details under the KMS key `kms_key_ref`; every other
/// field, and an entry without details, is left as it is.
pub fn encrypt_audit_entry(entry: AuditEntry, kms_key_ref: &str) -> (r: AuditEntry)
    ensures
        r.id == entry.id,
        r.timestamp_ms == entry.timestamp_ms,
        r.action == entry.action,
        r.actor == entry.actor,
        r.resource == entry.resource,
        r.namespace == entry.namespace,
        r.success == entry.success,
        r.error == entry.error,
        match r.details {
            Some(d) => encrypted_details(match entry.details { Some(x) => Some(x@), None => None }, kms_key_ref@) == Some(d@),
            None => entry.details.is_none(),
        },
{
    let mut entry = entry;
    let details = entry.details;
    entry.details = match details {
        Some(d) => {
            let mut s = owned("ENC[");
            append(&mut s, kms_key_ref);
            append(&mut s, "]:");
            append(&mut s, d.as_str());
            Some(s)
        },
        None => None,
    };
    entry
}

/// The object key of an entry in an S3 bucket: the prefix, the entry's UTC
/// date, its namespace and its identifier.
pub open spec fn s3_key_spec(prefix: Seq<char>, date: Seq<char>, namespace: Seq<char>, id: Seq<char>) -> Seq<char> {
    prefix + date + "/"@ + namespace + "/"@ + id + ".json"@
}

/// The object key `{prefix}{date}/{namespace}/{id}.json` of an entry whose
/// UTC date is `date`.
pub fn s3_object_key(prefix: &str, date: &str, namespace: &str, id: &str) -> (r: String)
    ensures
        r@ == s3_key_spec(prefix@, date@, namespace@, id@),
{
    let mut k = owned(prefix);
    append(&mut k, date);
    append(&mut k, "/");
    append(&mut k, namespace);
    append(&mut k, "/");
    append(&mut k, id);
    append(&mut k, ".json");
    k
}

/// The object key of an entry: `{prefix}{date}/{namespace}/{id}.json`
/// with the entry's UTC date; none when its time is outside chrono's range.
pub fn entry_object_key(prefix: &str, entry: &AuditEntry) -> (r: Option<String>)
    ensures
        match utc_date(entry.timestamp_ms) {
            Some(d) => r.is_some() && r.unwrap()@ == s3_key_spec(prefix@, d, entry.namespace@, entry.id@),
            None => r.is_none(),
        },
{
    match format_utc_date(entry.timestamp_ms) {
        Some(date) => Some(s3_object_key(prefix, date.as_str(), entry.namespace.as_str(), entry.id.as_str())),
        None => None,
    }
}

/// The MD5 digest of a byte string.
pub uninterp spec fn md5_of(bytes: Seq<u8>) -> Seq<u8>;

/// The character of a 6-bit value in the standard base64 alphabet
/// (`A`-`Z`, `a`-`z`, `0`-`9`, `+`, `/`).
pub open spec fn base64_char(v: int) -> char {
    if v < 26 {
        (65 + v) as char
    } else if v < 52 {
        (97 + v - 26) as char
    } else if v < 62 {
        (48 + v - 52) as char
    } else if v == 62 {
        '+'
    } else {
        '/'
    }
}

/// The standard base64 encoding with padding (RFC 4648): each group of three
/// bytes becomes four characters; a last group of one or two bytes becomes
/// two or three characters followed by `=` up to four.
pub open spec fn base64_of(b: Seq<u8>) -> Seq<char>
    decreases b.len(),
{
    let x = b[0] as int;
    let y = if b.len() > 1 { b[1] as int } else { 0 };
    let z = if b.len() > 2 { b[2] as int } else { 0 };
    if b.len() == 0 {
        Seq::empty()
    } else if b.len() == 1 {
        seq![base64_char(x / 4), base64_char((x % 4) * 16), '=', '=']
    } else if b.len() == 2 {
        seq![base64_char(x / 4), base64_char((x % 4) * 16 + y / 16), base64_char((y % 16) * 4), '=']
    } else {
        seq![base64_char(x / 4), base64_char((x % 4) * 16 + y / 16), base64_char((y % 16) * 4 + z / 64),
            base64_char(z % 64)]
            + base64_of(b.subrange(3, b.len() as int))
    }
}

/// `md5::compute`: the MD5 digest, 16 bytes.
#[verifier::external_body]
fn md5_digest(bytes: &[u8]) -> (r: Vec<u8>)
    ensures
        r@ == md5_of(bytes@),
        r@.len() == 16,
{
    md5::compute(bytes).0.to_vec()
}

/// `base64::engine::general_purpose::STANDARD.encode`: the standard base64
/// encoding of `bytes`, with padding.
#[verifier::external_body]
pub(crate) fn base64_standard(bytes: &[u8]) -> (r: String)
    ensures
        r@ == base64_of(bytes@),
{
    base64::engine::general_purpose::STANDARD.encode(bytes)
}

/// The `Content-MD5` of an uploaded body: the base64 MD5 digest when the
/// bucket uses object lock, else none.
pub fn content_md5(body: &[u8], object_lock: bool) -> (r: Option<String>)
    ensures
        object_lock ==> r.is_some() && r.unwrap()@ == base64_of(md5_of(body@)),
        !object_lock ==> r.is_none(),
{
    if object_lock {
        let d = md5_digest(body);
        Some(base64_standard(d.as_slice()))
    } else {
        None
    }
}

/// Configuration of an S3 audit sink.
#[derive(Debug, Clone)]
pub struct S3AuditSinkConfig {
    pub bucket: String,
    /// Key prefix of the audit objects; "audit-logs/" by default.
    pub prefix: String,
    pub region: Option<String>,
    /// Whether the bucket uses object lock (uploads then carry a Content-MD5).
    pub object_lock: bool,
}

/// The default key prefix of audit objects.
pub fn default_prefix() -> (r: String)
    ensures
        r@ == "audit-logs/"@,
{
    owned("audit-logs/")
}

impl S3AuditSinkConfig {
    /// A configuration for `bucket` with the default prefix, no region and
    /// no object lock.
    pub fn for_bucket(bucket: &str) -> (r: S3AuditSinkConfig)
        ensures
            r.bucket@ == bucket@,
            r.prefix@ == "audit-logs/"@,
            r.region.is_none(),
            !r.object_lock,
    {
        S3AuditSinkConfig { bucket: owned(bucket), prefix: default_prefix(), region: None, object_lock: false }
    }
}

/// A sink that prints each entry as a JSON line on standard output.
pub struct StdoutAuditSink;

/// A sink that appends each entry as a JSON line to a file.
pub struct FileAuditSink {
    path: String,
    max_size_mb: u32,
    max_age_days: u32,
}

impl FileAuditSink {
    /// A file sink writing to `path`, with its rotation limits.
    pub fn new(path: String, max_size_mb: u32, max_age_days: u32) -> (r: FileAuditSink)
        ensures
            r.path_view() == path@,
            r.max_size_mb_view() == max_size_mb,
            r.max_age_days_view() == max_age_days,
    {
        FileAuditSink { path, max_size_mb, max_age_days }
    }

    /// The file written to.
    pub closed spec fn path_view(&self) -> Seq<char> {
        self.path@
    }

    /// The size, in megabytes, at which the file is rotated.
    pub closed spec fn max_size_mb_view(&self) -> u32 {
        self.max_size_mb
    }

    /// The age, in days, at which the file is rotated.
    pub closed spec fn max_age_days_view(&self) -> u32 {
        self.max_age_days
    }

    /// The file the entries are appended to.
    pub fn path(&self) -> (r: &str)
        ensures
            r@ == self.path_view(),
    {
        self.path.as_str()
    }

    /// Largest file size before rotation, in MiB.
    pub fn max_size_mb(&self) -> (r: u32)
        ensures
            r == self.max_size_mb_view(),
    {
        self.max_size_mb
    }

    /// Oldest file age before rotation, in days.
    pub fn max_age_days(&self) -> (r: u32)
        ensures
            r == self.max_age_days_view(),
    {
        self.max_age_days
    }
}

/// A sink that records entries in a database.
pub struct DatabaseAuditSink {
    dsn: String,
}

impl DatabaseAuditSink {
    /// A database sink for the data source `dsn`.
    pub fn new(dsn: String) -> (r: DatabaseAuditSink)
        ensures
            r.dsn_view() == dsn@,
    {
        DatabaseAuditSink { dsn }
    }

    /// The database connection string.
    pub closed spec fn dsn_view(&self) -> Seq<char> {
        self.dsn@
    }

    /// The data source name.
    pub fn dsn(&self) -> (r: &str)
        ensures
            r@ == self.dsn_view(),
    {
        self.dsn.as_str()
    }
}

/// A sink that posts each entry to an external log aggregator.
pub struct ExternalAggregatorAuditSink {
    endpoint: String,
    token: Option<String>,
}

impl ExternalAggregatorAuditSink {
    /// An aggregator sink posting to `endpoint`, authenticated by `token`
    /// when given.
    pub fn new(endpoint: String, token: Option<String>) -> (r: ExternalAggregatorAuditSink)
        ensures
            r.endpoint_view() == endpoint@,
            r.token_view() == (match token { Some(t) => Some(t@), None => None }),
    {
        ExternalAggregatorAuditSink { endpoint, token }
    }

    /// The aggregator endpoint entries are posted to.
    pub closed spec fn endpoint_view(&self) -> Seq<char> {
        self.endpoint@
    }

    /// The bearer token sent with each entry, if any.
    pub closed spec fn token_view(&self) -> Option<Seq<char>> {
        match self.token {
            Some(t) => Some(t@),
            None => None,
        }
    }

    /// The URL entries are posted to.
    pub fn endpoint(&self) -> (r: &str)
        ensures
            r@ == self.endpoint_view(),
    {
        self.endpoint.as_str()
    }

    /// The `Authorization` header of each request: `Bearer {token}` when a
    /// token is configured.
    pub fn authorization_header(&self) -> (r: Option<String>)
        ensures
            match self.token_view() {
                Some(t) => r.is_some() && r.unwrap()@ == "Bearer "@ + t,
                None => r.is_none(),
            },
    {
        match &self.token {
            Some(t) => Some(concat2("Bearer ", t.as_str())),
            None => None,
        }
    }
}

/// A sink that drops every entry.
pub struct NoopAuditSink;

} // verus!
