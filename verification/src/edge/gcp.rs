//! Google Cloud clients: the requests they make (where they go and what
//! they carry) and the rule that decides when a cached access token may be
//! reused. The requests themselves go out over the network elsewhere.
use vstd::prelude::*;
use vstd::string::StringSliceAdditionalSpecFns;
use vstd::utf8::{decode_utf8, encode_utf8, valid_utf8};
use crate::json_text::{json_literal, push_json_str, push_mark};
use crate::text::{chars_of, contains, contains_seq, decimal, owned, push_decimal, push_str, text_with};

verus! {

/// Declares `std::sync::Mutex`, which guards the shared token cache.
#[verifier::external_type_specification]
#[verifier::external_body]
#[verifier::reject_recursive_types(T)]
pub struct ExMutex<T: ?Sized>(std::sync::Mutex<T>);

/// A service account's key file.
#[derive(Debug)]
pub struct ServiceAccountKey {
    pub client_email: String,
    pub private_key: String,
    pub private_key_id: String,
    pub token_uri: String,
}

/// The claims of the JWT that is exchanged for an access token.
#[derive(Debug)]
pub struct Claims {
    pub iss: String,
    pub scope: String,
    pub aud: String,
    pub exp: usize,
    pub iat: usize,
}

/// The claims for `key` issued at `now`: valid for an hour, for the whole
/// cloud platform.
pub fn claims_for(key: &ServiceAccountKey, now: u64) -> (c: Claims)
    requires
        now + 3600 <= usize::MAX,
    ensures
        c.iss@ == key.client_email@,
        c.scope@ == "https://www.googleapis.com/auth/cloud-platform"@,
        c.aud@ == key.token_uri@,
        c.iat == now,
        c.exp == now + 3600,
{
    let iat = now as usize;
    Claims {
        iss: key.client_email.clone(),
        scope: owned("https://www.googleapis.com/auth/cloud-platform"),
        aud: key.token_uri.clone(),
        exp: iat + 3600,
        iat,
    }
}

/// A cached token may be reused up to a minute before it expires. (An
/// expiry under a minute past the epoch counts as expired.)
pub open spec fn token_usable(now: u64, expires_at: u64) -> bool {
    expires_at >= 60 && now < expires_at - 60
}

/// The cached token, if it may still be used at `now`.
pub fn fresh_token(cache: &Option<(String, u64)>, now: u64) -> (r: Option<String>)
    ensures
        match cache {
            Some((t, e)) => if token_usable(now, *e) { r matches Some(s) && s@ == t@ } else { r is None },
            None => r is None,
        },
{
    match cache {
        Some((token, expires_at)) => {
            if *expires_at >= 60 && now < *expires_at - 60 {
                Some(token.clone())
            } else {
                None
            }
        },
        None => None,
    }
}

/// What the cache holds once a token valid for `expires_in` seconds was
/// obtained at `now`.
pub fn cache_entry(token: String, now: u64, expires_in: u64) -> (r: Option<(String, u64)>)
    requires
        now + expires_in <= u64::MAX,
    ensures
        r matches Some((t, e)) && t@ == token@ && e == now + expires_in,
{
    Some((token, now + expires_in))
}

/// A fresh, empty token cache, shared by every clone of the credentials.
/// Calls `std::sync::Arc::new` on `std::sync::Mutex::new(None)`.
#[verifier::external_body]
fn empty_token_cache() -> std::sync::Arc<std::sync::Mutex<Option<(String, u64)>>> {
    std::sync::Arc::new(std::sync::Mutex::new(None))
}

/// A service account's credentials and the token cache their clones share.
#[derive(Clone)]
pub struct GcpAuth {
    key: std::sync::Arc<ServiceAccountKey>,
    cached_token: std::sync::Arc<std::sync::Mutex<Option<(String, u64)>>>,
}

impl GcpAuth {
    /// Credentials for `key`, with nothing cached.
    pub fn from_key(key: ServiceAccountKey) -> (a: GcpAuth)
        ensures
            a.key_view().client_email == key.client_email@,
            a.key_view().private_key == key.private_key@,
            a.key_view().private_key_id == key.private_key_id@,
            a.key_view().token_uri == key.token_uri@,
    {
        GcpAuth { key: std::sync::Arc::new(key), cached_token: empty_token_cache() }
    }

    pub closed spec fn key_view(self) -> ServiceAccountKeyView {
        let k = *self.key;
        ServiceAccountKeyView {
            client_email: k.client_email@,
            private_key: k.private_key@,
            private_key_id: k.private_key_id@,
            token_uri: k.token_uri@,
        }
    }

    /// The service account's key.
    pub fn key(&self) -> (k: &ServiceAccountKey)
        ensures
            k.client_email@ == self.key_view().client_email,
            k.private_key@ == self.key_view().private_key,
            k.private_key_id@ == self.key_view().private_key_id,
            k.token_uri@ == self.key_view().token_uri,
    {
        &*self.key
    }

    /// The token cache that these credentials and their clones share.
    pub closed spec fn shared_cache(self) -> std::sync::Arc<std::sync::Mutex<Option<(String, u64)>>> {
        self.cached_token
    }

    /// The token cache.
    pub fn token_cache(&self) -> (c: &std::sync::Arc<std::sync::Mutex<Option<(String, u64)>>>)
        ensures
            *c == self.shared_cache(),
    {
        &self.cached_token
    }
}

pub struct ServiceAccountKeyView {
    pub client_email: Seq<char>,
    pub private_key: Seq<char>,
    pub private_key_id: Seq<char>,
    pub token_uri: Seq<char>,
}

/// The `Authorization` header's value.
pub fn bearer(token: &str) -> (h: String)
    ensures
        h@ == "Bearer "@ + token@,
{
    text_with("Bearer ", token)
}

/// A byte that URL encoding leaves as it is.
pub open spec fn url_unreserved(b: u8) -> bool {
    (48 <= b <= 57) || (65 <= b <= 90) || (97 <= b <= 122) || b == 45 || b == 46 || b == 95 || b == 126
}

/// An upper-case hexadecimal digit.
pub open spec fn upper_hex(d: u8) -> char {
    if d < 10 { ((d + 48) as u8) as char } else { ((d + 55) as u8) as char }
}

/// Percent-encoding of bytes: every byte but ASCII letters, digits and
/// `-._~` becomes `%` and two upper-case hexadecimal digits.
pub open spec fn url_encoded(b: Seq<u8>) -> Seq<char>
    decreases b.len(),
{
    if b.len() == 0 {
        seq![]
    } else {
        let c = b.last();
        url_encoded(b.drop_last()) + if url_unreserved(c) {
            seq![c as char]
        } else {
            seq!['%', upper_hex(c / 16), upper_hex(c % 16)]
        }
    }
}

/// Calls `urlencoding::encode`, which percent-encodes the UTF-8 bytes of
/// `s`: the contract states that encoding, as the crate documents and its
/// source does it.
#[verifier::external_body]
fn url_encode(s: &str) -> (r: String)
    ensures
        r@ == url_encoded(encode_utf8(s@)),
{
    urlencoding::encode(s).into_owned()
}

/// The character of the standard base64 alphabet for `i < 64`.
pub open spec fn b64_char(i: int) -> char {
    if i < 26 {
        ((65 + i) as u8) as char
    } else if i < 52 {
        ((97 + i - 26) as u8) as char
    } else if i < 62 {
        ((48 + i - 52) as u8) as char
    } else if i == 62 {
        '+'
    } else {
        '/'
    }
}

/// Standard base64 with padding (RFC 4648): each three bytes make four
/// characters; a last one or two bytes make four with `=` filling.
pub open spec fn base64_standard(b: Seq<u8>) -> Seq<char>
    decreases b.len(),
{
    if b.len() == 0 {
        seq![]
    } else if b.len() == 1 {
        seq![b64_char(b[0] as int / 4), b64_char((b[0] % 4) * 16), '=', '=']
    } else if b.len() == 2 {
        seq![b64_char(b[0] as int / 4), b64_char((b[0] % 4) * 16 + b[1] / 16), b64_char((b[1] % 16) * 4), '=']
    } else {
        seq![
            b64_char(b[0] as int / 4),
            b64_char((b[0] % 4) * 16 + b[1] / 16),
            b64_char((b[1] % 16) * 4 + b[2] / 64),
            b64_char(b[2] as int % 64),
        ] + base64_standard(b.skip(3))
    }
}

/// Calls `Engine::encode` of `base64::engine::general_purpose::STANDARD`:
/// the contract states standard base64 with padding.
#[verifier::external_body]
fn base64_encode(data: &[u8]) -> (r: String)
    ensures
        r@ == base64_standard(data@),
{
    base64::Engine::encode(&base64::engine::general_purpose::STANDARD, data)
}

/// The bytes that `base64`'s standard engine decodes from `text`, where it
/// accepts it.
pub uninterp spec fn base64_decoded(text: Seq<char>) -> Option<Seq<u8>>;

/// Calls `Engine::decode` of `base64::engine::general_purpose::STANDARD`.
/// The contract claims that a success gives the bytes named
/// `base64_decoded`, and a failure (with the engine's message) comes where
/// that name gives none.
#[verifier::external_body]
fn base64_decode(text: &str) -> (r: Result<Vec<u8>, String>)
    ensures
        match r {
            Ok(b) => base64_decoded(text@) == Some(b@),
            Err(_) => base64_decoded(text@) is None,
        },
{
    base64::Engine::decode(&base64::engine::general_purpose::STANDARD, text).map_err(|e| e.to_string())
}

/// Calls `String::from_utf8`, which succeeds exactly on valid UTF-8 and
/// then holds the characters that the bytes encode.
#[verifier::external_body]
fn utf8_text(bytes: Vec<u8>) -> (r: Result<String, String>)
    ensures
        match r {
            Ok(s) => valid_utf8(bytes@) && s@ == decode_utf8(bytes@),
            Err(_) => !valid_utf8(bytes@),
        },
{
    String::from_utf8(bytes).map_err(|e| e.to_string())
}

/// Calls Cloud Run.
pub struct CloudRunClient {
    pub auth: GcpAuth,
    pub endpoint_url: String,
}

impl CloudRunClient {
    pub fn new(auth: GcpAuth, endpoint_url: &str) -> (c: CloudRunClient)
        ensures
            c.endpoint_url@ == endpoint_url@,
    {
        CloudRunClient { auth, endpoint_url: owned(endpoint_url) }
    }
}

/// Reads Firestore documents.
pub struct FirestoreClient {
    pub auth: GcpAuth,
    pub project_id: String,
    pub database: String,
}

impl FirestoreClient {
    /// A client of the project's default database.
    pub fn new(auth: GcpAuth, project_id: &str) -> (c: FirestoreClient)
        ensures
            c.project_id@ == project_id@,
            c.database@ == "(default)"@,
    {
        FirestoreClient { auth, project_id: owned(project_id), database: owned("(default)") }
    }

    /// Where a document lives.
    pub fn document_url(&self, collection: &str, document_id: &str) -> (u: String)
        ensures
            u@ == "https://firestore.googleapis.com/v1/projects/"@ + self.project_id@ + "/databases/"@ + self.database@
                + "/documents/"@ + collection@ + "/"@ + document_id@,
    {
        let mut u = owned("https://firestore.googleapis.com/v1/projects/");
        push_str(&mut u, self.project_id.as_str());
        u.append("/databases/");
        push_str(&mut u, self.database.as_str());
        u.append("/documents/");
        u.append(collection);
        u.append("/");
        u.append(document_id);
        u
    }
}

/// Writes to Cloud Logging.
pub struct LoggingClient {
    pub auth: GcpAuth,
    pub log_name: String,
}

/// One log entry's request body, its keys in order.
pub open spec fn log_body(log_name: Seq<char>, message: Seq<char>, timestamp: Seq<char>) -> Seq<char> {
    seq!['{'] + json_literal("entries"@) + seq![':', '[', '{'] + json_literal("logName"@) + seq![':'] + json_literal(
        log_name,
    ) + seq![','] + json_literal("textPayload"@) + seq![':'] + json_literal(message) + seq![','] + json_literal(
        "timestamp"@,
    ) + seq![':'] + json_literal(timestamp) + seq!['}', ']', '}']
}

impl LoggingClient {
    /// A client of the log `log_id` (URL-encoded) in the project.
    pub fn new(auth: GcpAuth, project_id: &str, log_id: &str) -> (c: LoggingClient)
        ensures
            c.log_name@ == "projects/"@ + project_id@ + "/logs/"@ + url_encoded(encode_utf8(log_id@)),
    {
        let mut log_name = text_with("projects/", project_id);
        log_name.append("/logs/");
        let enc = url_encode(log_id);
        push_str(&mut log_name, enc.as_str());
        LoggingClient { auth, log_name }
    }

    /// The request body that writes `message` stamped `timestamp`.
    pub fn entry_body(&self, message: &str, timestamp: &str) -> (b: String)
        ensures
            b@ == log_body(self.log_name@, message@, timestamp@),
    {
        let mut b = String::new();
        push_mark(&mut b, '{');
        push_json_str(&mut b, "entries");
        push_mark(&mut b, ':');
        push_mark(&mut b, '[');
        push_mark(&mut b, '{');
        push_json_str(&mut b, "logName");
        push_mark(&mut b, ':');
        push_json_str(&mut b, self.log_name.as_str());
        push_mark(&mut b, ',');
        push_json_str(&mut b, "textPayload");
        push_mark(&mut b, ':');
        push_json_str(&mut b, message);
        push_mark(&mut b, ',');
        push_json_str(&mut b, "timestamp");
        push_mark(&mut b, ':');
        push_json_str(&mut b, timestamp);
        push_mark(&mut b, '}');
        push_mark(&mut b, ']');
        push_mark(&mut b, '}');
        assert(b@ =~= log_body(self.log_name@, message@, timestamp@));
        b
    }
}

/// Publishes to a Pub/Sub topic.
pub struct PubSubClient {
    pub auth: GcpAuth,
    pub project_id: String,
    pub topic: String,
}

/// A publish request carrying one message.
pub open spec fn publish_body_spec(payload: Seq<char>) -> Seq<char> {
    seq!['{'] + json_literal("messages"@) + seq![':', '[', '{'] + json_literal("data"@) + seq![':'] + json_literal(
        base64_standard(encode_utf8(payload)),
    ) + seq!['}', ']', '}']
}

impl PubSubClient {
    pub fn new(auth: GcpAuth, project_id: &str, topic: &str) -> (c: PubSubClient)
        ensures
            c.project_id@ == project_id@,
            c.topic@ == topic@,
    {
        PubSubClient { auth, project_id: owned(project_id), topic: owned(topic) }
    }

    /// Where messages are published.
    pub fn publish_url(&self) -> (u: String)
        ensures
            u@ == "https://pubsub.googleapis.com/v1/projects/"@ + self.project_id@ + "/topics/"@ + self.topic@
                + ":publish"@,
    {
        let mut u = owned("https://pubsub.googleapis.com/v1/projects/");
        push_str(&mut u, self.project_id.as_str());
        u.append("/topics/");
        push_str(&mut u, self.topic.as_str());
        u.append(":publish");
        u
    }

    /// The request body that publishes `payload`, base64 encoded.
    pub fn publish_body(&self, payload: &str) -> (b: String)
        ensures
            b@ == publish_body_spec(payload@),
    {
        let data = base64_encode(payload.as_bytes());
        let mut b = String::new();
        push_mark(&mut b, '{');
        push_json_str(&mut b, "messages");
        push_mark(&mut b, ':');
        push_mark(&mut b, '[');
        push_mark(&mut b, '{');
        push_json_str(&mut b, "data");
        push_mark(&mut b, ':');
        push_json_str(&mut b, data.as_str());
        push_mark(&mut b, '}');
        push_mark(&mut b, ']');
        push_mark(&mut b, '}');
        assert(b@ =~= publish_body_spec(payload@));
        b
    }
}

/// Reads Secret Manager.
pub struct SecretManagerClient {
    pub auth: GcpAuth,
    pub project_id: String,
}

impl SecretManagerClient {
    pub fn new(auth: GcpAuth, project_id: &str) -> (c: SecretManagerClient)
        ensures
            c.project_id@ == project_id@,
    {
        SecretManagerClient { auth, project_id: owned(project_id) }
    }

    /// Where the latest version of a secret is read.
    pub fn access_url(&self, secret_id: &str) -> (u: String)
        ensures
            u@ == "https://secretmanager.googleapis.com/v1/projects/"@ + self.project_id@ + "/secrets/"@ + secret_id@
                + "/versions/latest:access"@,
    {
        let mut u = owned("https://secretmanager.googleapis.com/v1/projects/");
        push_str(&mut u, self.project_id.as_str());
        u.append("/secrets/");
        u.append(secret_id);
        u.append("/versions/latest:access");
        u
    }

    /// The secret a response's payload carries: base64 of UTF-8 text.
    pub fn decode_payload(data: &str) -> (r: Result<String, String>)
        ensures
            match r {
                Ok(s) => base64_decoded(data@) matches Some(b) && valid_utf8(b) && s@ == decode_utf8(b),
                Err(_) => base64_decoded(data@) matches Some(b) ==> !valid_utf8(b),
            },
    {
        let bytes = base64_decode(data)?;
        utf8_text(bytes)
    }
}

/// Where advisory data came from.
#[derive(Debug, Clone, Copy, PartialEq, Eq, Structural)]
pub enum AdvisorySource {
    LiveFetch,
    Unavailable,
}

/// Queries the Spanner memory fabric.
pub struct SpannerMemoryFabric {
    pub auth: GcpAuth,
    pub project_id: String,
    pub instance_id: String,
    pub database_id: String,
}

/// A statement the advisory reader refuses: one that, upper-cased, holds
/// `INSERT` or `DELETE`.
pub open spec fn writes(sql: Seq<char>) -> bool {
    let upper = sql.map_values(|c: char| if 'a' <= c && c <= 'z' { ((c as u32) - 32) as char } else { c });
    contains_seq(upper, "INSERT"@) || contains_seq(upper, "DELETE"@)
}

impl SpannerMemoryFabric {
    pub fn new(auth: GcpAuth, project_id: &str, instance_id: &str, database_id: &str) -> (f: SpannerMemoryFabric)
        ensures
            f.project_id@ == project_id@,
            f.instance_id@ == instance_id@,
            f.database_id@ == database_id@,
    {
        SpannerMemoryFabric {
            auth,
            project_id: owned(project_id),
            instance_id: owned(instance_id),
            database_id: owned(database_id),
        }
    }

    /// Whether a statement is refused as a write.
    pub fn blocks_write(sql: &str) -> (r: bool)
        ensures
            r == writes(sql@),
    {
        let cs = chars_of(sql);
        let mut upper: Vec<char> = Vec::new();
        let mut i: usize = 0;
        while i < cs.len()
            invariant
                cs@ == sql@,
                i <= cs@.len(),
                upper@ == sql@.take(i as int).map_values(
                    |c: char| if 'a' <= c && c <= 'z' { ((c as u32) - 32) as char } else { c },
                ),
            decreases cs.len() - i,
        {
            let c = cs[i];
            let d = if 'a' <= c && c <= 'z' { ((c as u8) - 32) as char } else { c };
            proof {
                if 'a' <= c && c <= 'z' {
                    assert((c as u8) as u32 == c as u32);
                }
            }
            upper.push(d);
            assert(sql@.take(i + 1) =~= sql@.take(i as int).push(c));
            assert(upper@ =~= sql@.take(i + 1).map_values(
                |c: char| if 'a' <= c && c <= 'z' { ((c as u32) - 32) as char } else { c },
            ));
            i = i + 1;
        }
        assert(sql@.take(i as int) =~= sql@);
        let ins = chars_of("INSERT");
        let del = chars_of("DELETE");
        contains(upper.as_slice(), ins.as_slice()) || contains(upper.as_slice(), del.as_slice())
    }

    /// Where sessions are created.
    pub fn session_url(&self) -> (u: String)
        ensures
            u@ == "https://spanner.googleapis.com/v1/projects/"@ + self.project_id@ + "/instances/"@ + self.instance_id@
                + "/databases/"@ + self.database_id@ + "/sessions"@,
    {
        let mut u = owned("https://spanner.googleapis.com/v1/projects/");
        push_str(&mut u, self.project_id.as_str());
        u.append("/instances/");
        push_str(&mut u, self.instance_id.as_str());
        u.append("/databases/");
        push_str(&mut u, self.database_id.as_str());
        u.append("/sessions");
        u
    }

    /// What the session reply means: an HTTP status other than 200 refuses
    /// the query, as does a reply without a session name; otherwise the SQL
    /// goes to that session's execute URL.
    pub fn session_step(status: u16, session_name: Option<&str>) -> (r: Result<String, String>)
        ensures
            status != 200 ==> (r matches Err(m) && m@ == "Failed to create Spanner session: "@ + decimal(status as nat)),
            status == 200 && session_name is None ==> (r matches Err(m) && m@ == "Missing session name"@),
            status == 200 && session_name is Some ==> (r matches Ok(u) && u@ == "https://spanner.googleapis.com/v1/"@
                + session_name->Some_0@ + ":executeSql"@),
    {
        if status != 200 {
            let mut m = owned("Failed to create Spanner session: ");
            push_decimal(&mut m, status as u64);
            return Err(m);
        }
        match session_name {
            None => Err(owned("Missing session name")),
            Some(name) => Ok(SpannerMemoryFabric::execute_url(name)),
        }
    }

    /// What the execute reply's status means: anything but 200 fails the
    /// query.
    pub fn execute_step(status: u16) -> (r: Result<(), String>)
        ensures
            status != 200 ==> (r matches Err(m) && m@ == "Failed to execute SQL: "@ + decimal(status as nat)),
            status == 200 ==> r is Ok,
    {
        if status != 200 {
            let mut m = owned("Failed to execute SQL: ");
            push_decimal(&mut m, status as u64);
            return Err(m);
        }
        Ok(())
    }

    /// Where a session executes SQL.
    pub fn execute_url(session_name: &str) -> (u: String)
        ensures
            u@ == "https://spanner.googleapis.com/v1/"@ + session_name@ + ":executeSql"@,
    {
        let mut u = text_with("https://spanner.googleapis.com/v1/", session_name);
        u.append(":executeSql");
        u
    }

    /// The request body that executes `sql`.
    pub fn execute_body(sql: &str) -> (b: String)
        ensures
            b@ == seq!['{'] + json_literal("sql"@) + seq![':'] + json_literal(sql@) + seq!['}'],
    {
        let mut b = String::new();
        push_mark(&mut b, '{');
        push_json_str(&mut b, "sql");
        push_mark(&mut b, ':');
        push_json_str(&mut b, sql);
        push_mark(&mut b, '}');
        b
    }
}

/// Uploads to Cloud Storage.
pub struct StorageClient {
    pub auth: GcpAuth,
    pub bucket: String,
}

impl StorageClient {
    pub fn new(auth: GcpAuth, bucket: &str) -> (c: StorageClient)
        ensures
            c.bucket@ == bucket@,
    {
        StorageClient { auth, bucket: owned(bucket) }
    }

    /// Where an object is uploaded, its name URL-encoded.
    pub fn upload_url(&self, destination_object_name: &str) -> (u: String)
        ensures
            u@ == "https://storage.googleapis.com/upload/storage/v1/b/"@ + self.bucket@ + "/o?uploadType=media&name="@
                + url_encoded(encode_utf8(destination_object_name@)),
    {
        let mut u = owned("https://storage.googleapis.com/upload/storage/v1/b/");
        push_str(&mut u, self.bucket.as_str());
        u.append("/o?uploadType=media&name=");
        let enc = url_encode(destination_object_name);
        push_str(&mut u, enc.as_str());
        u
    }
}

} // verus!
