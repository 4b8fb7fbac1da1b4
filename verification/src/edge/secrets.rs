//! The local-first secret vault: secrets live in memory and on disk sealed
//! with ChaCha20-Poly1305; the cloud is asked only for what the vault lacks,
//! and never while offline.
use vstd::prelude::*;
use vstd::string::StringSliceAdditionalSpecFns;
use vstd::utf8::encode_utf8;
use crate::json_text::{json_literal, push_json_str, push_mark};
use crate::text::{decimal, owned, push_decimal, text_with};
use chacha20poly1305::aead::{Aead, KeyInit};

verus! {

/// What ChaCha20-Poly1305 under `key` and `nonce` makes of `plaintext`
/// (ciphertext and tag), where it accepts the message.
pub uninterp spec fn chacha_sealed(key: Seq<u8>, nonce: Seq<u8>, plaintext: Seq<u8>) -> Option<Seq<u8>>;

/// What ChaCha20-Poly1305 under `key` and `nonce` recovers from
/// `ciphertext`, where its tag checks.
pub uninterp spec fn chacha_opened(key: Seq<u8>, nonce: Seq<u8>, ciphertext: Seq<u8>) -> Option<Seq<u8>>;

/// Calls `Aead::encrypt` of `chacha20poly1305::ChaCha20Poly1305`, keyed by
/// `key`, on `plaintext` under `nonce`. The contract claims only that the
/// result is the one named `chacha_sealed`.
#[verifier::external_body]
fn seal(key: &[u8], nonce: &[u8], plaintext: &[u8]) -> (r: Option<Vec<u8>>)
    requires
        key@.len() == 32,
        nonce@.len() == 12,
    ensures
        match r {
            Some(c) => chacha_sealed(key@, nonce@, plaintext@) == Some(c@),
            None => chacha_sealed(key@, nonce@, plaintext@) is None,
        },
{
    let cipher = chacha20poly1305::ChaCha20Poly1305::new(chacha20poly1305::Key::from_slice(key));
    cipher.encrypt(chacha20poly1305::Nonce::from_slice(nonce), plaintext).ok()
}

/// Calls `Aead::decrypt` of `chacha20poly1305::ChaCha20Poly1305`, keyed by
/// `key`, on `ciphertext` under `nonce`. The contract claims that the result
/// is the one named `chacha_opened`, and that a ciphertext that `encrypt`
/// made under the same key and nonce opens to its plaintext, as the crate's
/// documentation shows.
#[verifier::external_body]
fn open(key: &[u8], nonce: &[u8], ciphertext: &[u8]) -> (r: Option<Vec<u8>>)
    requires
        key@.len() == 32,
        nonce@.len() == 12,
    ensures
        match r {
            Some(p) => chacha_opened(key@, nonce@, ciphertext@) == Some(p@),
            None => chacha_opened(key@, nonce@, ciphertext@) is None,
        },
        forall|p: Seq<u8>|
            #[trigger] chacha_sealed(key@, nonce@, p) == Some(ciphertext@) ==> (r is Some && r->Some_0@ == p),
{
    let cipher = chacha20poly1305::ChaCha20Poly1305::new(chacha20poly1305::Key::from_slice(key));
    cipher.decrypt(chacha20poly1305::Nonce::from_slice(nonce), ciphertext).ok()
}

/// Twelve bytes from `rand::rng()`, filled with `RngExt::fill`. Nothing but
/// their number is claimed: they are random.
#[verifier::external_body]
fn random_nonce() -> (r: Vec<u8>)
    ensures
        r@.len() == 12,
{
    let mut nonce_bytes = [0u8; 12];
    let mut rng = rand::rng();
    rand::RngExt::fill(&mut rng, &mut nonce_bytes);
    nonce_bytes.to_vec()
}

/// The string map that `serde_json` reads from a JSON object of strings.
pub uninterp spec fn json_string_map(bytes: Seq<u8>) -> Option<Map<Seq<char>, Seq<char>>>;

pub open spec fn pairs_map(p: Seq<(Seq<char>, Seq<char>)>) -> Map<Seq<char>, Seq<char>> {
    Map::new(
        |k: Seq<char>| exists|i: int| 0 <= i < p.len() && (#[trigger] p[i]).0 == k,
        |k: Seq<char>| p[choose|i: int| 0 <= i < p.len() && (#[trigger] p[i]).0 == k].1,
    )
}

/// Keys once each.
pub open spec fn keys_distinct(p: Seq<(Seq<char>, Seq<char>)>) -> bool {
    forall|i: int, j: int| 0 <= i < j < p.len() ==> (#[trigger] p[i]).0 != (#[trigger] p[j]).0
}

pub open spec fn pair_texts(p: Seq<(String, String)>) -> Seq<(Seq<char>, Seq<char>)> {
    p.map_values(|kv: (String, String)| (kv.0@, kv.1@))
}

/// Reads a JSON object of strings with `serde_json::from_slice` into a
/// `HashMap<String, String>` and hands out its entries, in the map's order.
/// The contract claims that the entries, keys once each, are the map named
/// `json_string_map`; their order is left open, as the map's walk is. It
/// claims too that an object written from `serde_json::to_string` literals,
/// keys once each, reads back as the entries it was written from.
#[verifier::external_body]
fn parse_string_map(bytes: &[u8]) -> (r: Result<Vec<(String, String)>, String>)
    ensures
        match r {
            Ok(p) => json_string_map(bytes@) == Some(pairs_map(pair_texts(p@))) && keys_distinct(pair_texts(p@)),
            Err(_) => json_string_map(bytes@) is None,
        },
        forall|w: Seq<(Seq<char>, Seq<char>)>|
            keys_distinct(w) && bytes@ == encode_utf8(#[trigger] secrets_json(w)) ==> (r is Ok && pairs_map(pair_texts(r->Ok_0@)) == pairs_map(w)),
{
    match serde_json::from_slice::<std::collections::HashMap<String, String>>(bytes) {
        Ok(m) => Ok(m.into_iter().collect()),
        Err(e) => Err(e.to_string()),
    }
}

proof fn lemma_choose_index(p: Seq<(Seq<char>, Seq<char>)>, i: int, key: Seq<char>)
    requires
        keys_distinct(p),
        0 <= i < p.len(),
        p[i].0 == key,
    ensures
        (choose|j: int| 0 <= j < p.len() && (#[trigger] p[j]).0 == key) == i,
        pairs_map(p).contains_key(key),
        pairs_map(p)[key] == p[i].1,
{
    let c = choose|j: int| 0 <= j < p.len() && (#[trigger] p[j]).0 == key;
    assert(0 <= c < p.len() && p[c].0 == p[i].0);
    if c < i {
        assert(p[c].0 != p[i].0);
    } else if c > i {
        assert(p[i].0 != p[c].0);
    }
}

proof fn lemma_update_keeps_distinct(p: Seq<(Seq<char>, Seq<char>)>, k: int, v: Seq<char>)
    requires
        keys_distinct(p),
        0 <= k < p.len(),
    ensures
        keys_distinct(p.update(k, (p[k].0, v))),
{
    let q = p.update(k, (p[k].0, v));
    assert forall|i: int, j: int| 0 <= i < j < q.len() implies (#[trigger] q[i]).0 != (#[trigger] q[j]).0 by {
        assert(q[i].0 == p[i].0);
        assert(q[j].0 == p[j].0);
    }
}

proof fn lemma_pairs_map_update(p: Seq<(Seq<char>, Seq<char>)>, k: int, v: Seq<char>)
    requires
        keys_distinct(p),
        0 <= k < p.len(),
    ensures
        pairs_map(p.update(k, (p[k].0, v))) == pairs_map(p).insert(p[k].0, v),
{
    let q = p.update(k, (p[k].0, v));
    lemma_update_keeps_distinct(p, k, v);
    assert forall|key: Seq<char>| #[trigger] pairs_map(q).contains_key(key) == pairs_map(p).insert(p[k].0, v).contains_key(key) by {
        if pairs_map(q).contains_key(key) {
            let i = choose|i: int| 0 <= i < q.len() && (#[trigger] q[i]).0 == key;
            assert(p[i].0 == key);
        }
        if pairs_map(p).contains_key(key) {
            let i = choose|i: int| 0 <= i < p.len() && (#[trigger] p[i]).0 == key;
            assert(q[i].0 == key);
        }
        if key == p[k].0 {
            assert(q[k].0 == key);
        }
    }
    assert forall|key: Seq<char>| #[trigger] pairs_map(q).contains_key(key) implies pairs_map(q)[key] == pairs_map(p).insert(p[k].0, v)[key] by {
        let i = choose|i: int| 0 <= i < q.len() && (#[trigger] q[i]).0 == key;
        lemma_choose_index(q, i, key);
        if i != k {
            assert(p[i].0 == key);
            lemma_choose_index(p, i, key);
            assert(p[i].0 != p[k].0);
        }
    }
    assert(pairs_map(q) =~= pairs_map(p).insert(p[k].0, v));
}

proof fn lemma_pairs_map_push(p: Seq<(Seq<char>, Seq<char>)>, key: Seq<char>, v: Seq<char>)
    requires
        keys_distinct(p),
        forall|j: int| 0 <= j < p.len() ==> (#[trigger] p[j]).0 != key,
    ensures
        pairs_map(p.push((key, v))) == pairs_map(p).insert(key, v),
        keys_distinct(p.push((key, v))),
{
    let q = p.push((key, v));
    assert forall|i: int, j: int| 0 <= i < j < q.len() implies (#[trigger] q[i]).0 != (#[trigger] q[j]).0 by {
        if j < p.len() {
            assert(q[i] == p[i] && q[j] == p[j]);
        } else {
            assert(q[i] == p[i]);
        }
    }
    assert forall|x: Seq<char>| #[trigger] pairs_map(q).contains_key(x) == pairs_map(p).insert(key, v).contains_key(x) by {
        if pairs_map(q).contains_key(x) {
            let i = choose|i: int| 0 <= i < q.len() && (#[trigger] q[i]).0 == x;
            if i < p.len() {
                assert(p[i].0 == x);
            }
        }
        if pairs_map(p).contains_key(x) {
            let i = choose|i: int| 0 <= i < p.len() && (#[trigger] p[i]).0 == x;
            assert(q[i].0 == x);
        }
        if x == key {
            assert(q[p.len() as int].0 == x);
        }
    }
    assert forall|x: Seq<char>| #[trigger] pairs_map(q).contains_key(x) implies pairs_map(q)[x] == pairs_map(p).insert(key, v)[x] by {
        let i = choose|i: int| 0 <= i < q.len() && (#[trigger] q[i]).0 == x;
        lemma_choose_index(q, i, x);
        if i < p.len() {
            assert(q[i] == p[i]);
            lemma_choose_index(p, i, x);
        }
    }
    assert(pairs_map(q) =~= pairs_map(p).insert(key, v));
}

/// The sealed vault as it is stored: the nonce and the ciphertext.
#[derive(Debug)]
pub struct EncryptedSecretVault {
    pub nonce: Vec<u8>,
    pub ciphertext: Vec<u8>,
}

/// Numbers separated by commas.
pub open spec fn bytes_json(b: Seq<u8>) -> Seq<char>
    decreases b.len(),
{
    if b.len() == 0 {
        seq![]
    } else if b.len() == 1 {
        decimal(b[0] as nat)
    } else {
        bytes_json(b.drop_last()) + seq![','] + decimal(b.last() as nat)
    }
}

/// The vault as `serde_json` writes it.
pub open spec fn vault_json(nonce: Seq<u8>, ciphertext: Seq<u8>) -> Seq<char> {
    seq!['{'] + json_literal("nonce"@) + seq![':', '['] + bytes_json(nonce) + seq![']', ','] + json_literal(
        "ciphertext"@,
    ) + seq![':', '['] + bytes_json(ciphertext) + seq![']', '}']
}

fn push_bytes_json(out: &mut String, b: &Vec<u8>)
    ensures
        final(out)@ == old(out)@ + bytes_json(b@),
{
    let ghost head = out@;
    let mut i: usize = 0;
    while i < b.len()
        invariant
            i <= b@.len(),
            out@ == head + bytes_json(b@.take(i as int)),
        decreases b.len() - i,
    {
        let ghost part = b@.take(i + 1);
        assert(part.drop_last() =~= b@.take(i as int));
        if i > 0 {
            push_mark(out, ',');
        }
        push_decimal(out, b[i] as u64);
        assert(out@ =~= head + bytes_json(part));
        i = i + 1;
    }
    assert(b@.take(i as int) =~= b@);
}

impl EncryptedSecretVault {
    /// The vault's JSON text.
    pub fn to_json(&self) -> (t: String)
        ensures
            t@ == vault_json(self.nonce@, self.ciphertext@),
    {
        let mut out = String::new();
        push_mark(&mut out, '{');
        push_json_str(&mut out, "nonce");
        push_mark(&mut out, ':');
        push_mark(&mut out, '[');
        push_bytes_json(&mut out, &self.nonce);
        push_mark(&mut out, ']');
        push_mark(&mut out, ',');
        push_json_str(&mut out, "ciphertext");
        push_mark(&mut out, ':');
        push_mark(&mut out, '[');
        push_bytes_json(&mut out, &self.ciphertext);
        push_mark(&mut out, ']');
        push_mark(&mut out, '}');
        assert(out@ =~= vault_json(self.nonce@, self.ciphertext@));
        out
    }
}

/// `"k":"v"` entries separated by commas.
pub open spec fn map_entries_json(p: Seq<(Seq<char>, Seq<char>)>) -> Seq<char>
    decreases p.len(),
{
    if p.len() == 0 {
        seq![]
    } else {
        let last = json_literal(p.last().0) + seq![':'] + json_literal(p.last().1);
        if p.len() == 1 {
            last
        } else {
            map_entries_json(p.drop_last()) + seq![','] + last
        }
    }
}

/// The secrets as a JSON object, in the order they are held.
pub open spec fn secrets_json(p: Seq<(Seq<char>, Seq<char>)>) -> Seq<char> {
    seq!['{'] + map_entries_json(p) + seq!['}']
}

/// The secret vault: where it is stored, its key, and the secrets, each
/// name once.
pub struct SovereignSecretManager {
    local_cache_path: String,
    master_key: Vec<u8>,
    memory_cache: Vec<(String, String)>,
}

impl SovereignSecretManager {
    #[verifier::type_invariant]
    spec fn well_formed(self) -> bool {
        &&& self.master_key@.len() == 32
        &&& keys_distinct(pair_texts(self.memory_cache@))
    }

    /// The secrets held, by name.
    pub closed spec fn secrets(self) -> Map<Seq<char>, Seq<char>> {
        pairs_map(pair_texts(self.memory_cache@))
    }

    /// The secrets in the order they are held.
    pub closed spec fn entries(self) -> Seq<(Seq<char>, Seq<char>)> {
        pair_texts(self.memory_cache@)
    }

    pub closed spec fn key(self) -> Seq<u8> {
        self.master_key@
    }

    pub closed spec fn path(self) -> Seq<char> {
        self.local_cache_path@
    }

    /// An empty vault stored at `cache_path`, sealed under `master_key_bytes`.
    pub fn new(cache_path: &str, master_key_bytes: &[u8; 32]) -> (m: SovereignSecretManager)
        ensures
            m.secrets() == Map::<Seq<char>, Seq<char>>::empty(),
            m.entries().len() == 0,
            m.key() == master_key_bytes@,
            m.path() == cache_path@,
    {
        let mut key: Vec<u8> = Vec::new();
        let mut i: usize = 0;
        while i < 32
            invariant
                i <= 32,
                master_key_bytes@.len() == 32,
                key@ == master_key_bytes@.take(i as int),
            decreases 32 - i,
        {
            key.push(master_key_bytes[i]);
            assert(master_key_bytes@.take(i + 1) =~= master_key_bytes@.take(i as int).push(master_key_bytes@[i as int]));
            i = i + 1;
        }
        assert(master_key_bytes@.take(32) =~= master_key_bytes@);
        let m = SovereignSecretManager { local_cache_path: owned(cache_path), master_key: key, memory_cache: Vec::new() };
        assert(m.secrets() =~= Map::<Seq<char>, Seq<char>>::empty());
        m
    }

    /// Where the vault is stored.
    pub fn cache_path(&self) -> (p: &String)
        ensures
            p@ == self.path(),
    {
        &self.local_cache_path
    }

    fn find(&self, secret_id: &str) -> (r: Option<usize>)
        ensures
            match r {
                Some(k) => k < self.entries().len() && self.entries()[k as int].0 == secret_id@,
                None => forall|j: int| 0 <= j < self.entries().len() ==> (#[trigger] self.entries()[j]).0 != secret_id@,
            },
    {
        let key = owned(secret_id);
        let mut i: usize = 0;
        while i < self.memory_cache.len()
            invariant
                i <= self.memory_cache@.len(),
                key@ == secret_id@,
                forall|j: int| 0 <= j < i ==> (#[trigger] self.entries()[j]).0 != secret_id@,
            decreases self.memory_cache.len() - i,
        {
            assert(self.entries()[i as int].0 == self.memory_cache@[i as int].0@);
            if self.memory_cache[i].0 == key {
                return Some(i);
            }
            i = i + 1;
        }
        None
    }

    /// The secret held under `secret_id`.
    pub fn get_cached(&self, secret_id: &str) -> (r: Option<String>)
        ensures
            match r {
                Some(v) => self.secrets().contains_key(secret_id@) && self.secrets()[secret_id@] == v@,
                None => !self.secrets().contains_key(secret_id@),
            },
    {
        proof {
            use_type_invariant(self);
        }
        match self.find(secret_id) {
            Some(k) => {
                let v = self.memory_cache[k].1.clone();
                proof {
                    let p = self.entries();
                    assert(p[k as int].0 == secret_id@);
                    assert(p[k as int].1 == self.memory_cache@[k as int].1@);
                    assert(p[k as int].1 == v@);
                    assert(keys_distinct(p));
                    lemma_choose_index(p, k as int, secret_id@);
                    assert(pairs_map(p)[secret_id@] == v@);
                    assert(self.secrets() == pairs_map(p));
                }
                assert(self.secrets().contains_key(secret_id@));
                assert(self.secrets()[secret_id@] == v@);
                Some(v)
            },
            None => {
                proof {
                    let p = self.entries();
                    if pairs_map(p).contains_key(secret_id@) {
                        let i = choose|i: int| 0 <= i < p.len() && (#[trigger] p[i]).0 == secret_id@;
                        assert(p[i].0 != secret_id@);
                    }
                }
                None
            },
        }
    }

    /// Holds `secret_value` under `secret_id`, in the place of any secret
    /// held under that name.
    pub fn insert(&mut self, secret_id: &str, secret_value: String)
        ensures
            final(self).secrets() == old(self).secrets().insert(secret_id@, secret_value@),
            final(self).key() == old(self).key(),
            final(self).path() == old(self).path(),
    {
        proof {
            use_type_invariant(&*self);
        }
        let ghost before = self.entries();
        let ghost value = secret_value@;
        match self.find(secret_id) {
            Some(k) => {
                let mut cache: Vec<(String, String)> = Vec::new();
                std::mem::swap(&mut cache, &mut self.memory_cache);
                cache.set(k, (owned(secret_id), secret_value));
                proof {
                    assert(pair_texts(cache@) =~= before.update(k as int, (secret_id@, value)));
                    lemma_update_keeps_distinct(before, k as int, value);
                    lemma_pairs_map_update(before, k as int, value);
                }
                self.memory_cache = cache;
            },
            None => {
                let mut cache: Vec<(String, String)> = Vec::new();
                std::mem::swap(&mut cache, &mut self.memory_cache);
                cache.push((owned(secret_id), secret_value));
                proof {
                    assert(pair_texts(cache@) =~= before.push((secret_id@, value)));
                    lemma_pairs_map_push(before, secret_id@, value);
                }
                self.memory_cache = cache;
            },
        }
    }

    /// The plaintext the vault seals: the secrets as a JSON object.
    pub fn secrets_json_text(&self) -> (t: String)
        ensures
            t@ == secrets_json(self.entries()),
    {
        let mut out = String::new();
        push_mark(&mut out, '{');
        let ghost head = out@;
        let ghost pv = self.entries();
        let mut i: usize = 0;
        while i < self.memory_cache.len()
            invariant
                pv == self.entries(),
                pv.len() == self.memory_cache@.len(),
                i <= pv.len(),
                out@ == head + map_entries_json(pv.take(i as int)),
            decreases self.memory_cache.len() - i,
        {
            let ghost part = pv.take(i + 1);
            assert(part.drop_last() =~= pv.take(i as int));
            if i > 0 {
                push_mark(&mut out, ',');
            }
            push_json_str(&mut out, self.memory_cache[i].0.as_str());
            push_mark(&mut out, ':');
            push_json_str(&mut out, self.memory_cache[i].1.as_str());
            assert(out@ =~= head + map_entries_json(part));
            i = i + 1;
        }
        assert(pv.take(i as int) =~= pv);
        push_mark(&mut out, '}');
        assert(out@ =~= secrets_json(pv));
        out
    }

    /// Seals the secrets under a fresh random nonce.
    pub fn seal_vault(&self) -> (r: Result<EncryptedSecretVault, String>)
        ensures
            match r {
                Ok(v) => v.nonce@.len() == 12 && chacha_sealed(
                    self.key(),
                    v.nonce@,
                    encode_utf8(secrets_json(self.entries())),
                ) == Some(v.ciphertext@) && keys_distinct(self.entries()) && pairs_map(self.entries())
                    == self.secrets(),
                Err(m) => m@ == "aead::Error"@ && exists|n: Seq<u8>|
                    n.len() == 12 && #[trigger] chacha_sealed(self.key(), n, encode_utf8(secrets_json(self.entries()))) is None,
            },
    {
        proof {
            use_type_invariant(self);
        }
        let plaintext = self.secrets_json_text();
        let nonce = random_nonce();
        match seal(self.master_key.as_slice(), nonce.as_slice(), plaintext.as_str().as_bytes()) {
            Some(ciphertext) => Ok(EncryptedSecretVault { nonce, ciphertext }),
            None => Err(owned("aead::Error")),
        }
    }
}

/// What a vault opens to: nothing unless its nonce is twelve bytes long and
/// its tag checks.
pub open spec fn opened(key: Seq<u8>, nonce: Seq<u8>, ciphertext: Seq<u8>) -> Option<Seq<u8>> {
    if nonce.len() == 12 { chacha_opened(key, nonce, ciphertext) } else { None }
}

impl SovereignSecretManager {
    /// Unseals `vault` and holds the secrets it keeps in place of those held.
    /// A vault that does not open under the key (its nonce not twelve bytes
    /// long, or its tag not checking) is refused with the key error; one that
    /// opens to no JSON object of strings is refused with the reader's
    /// message. A refused vault changes nothing.
    pub fn hydrate_from_vault(&mut self, vault: &EncryptedSecretVault) -> (r: Result<(), String>)
        ensures
            final(self).key() == old(self).key(),
            final(self).path() == old(self).path(),
            match r {
                Ok(()) => {
                    &&& opened(old(self).key(), vault.nonce@, vault.ciphertext@) is Some
                    &&& json_string_map(opened(old(self).key(), vault.nonce@, vault.ciphertext@)->Some_0) == Some(
                        final(self).secrets(),
                    )
                },
                Err(m) => {
                    &&& final(self).secrets() == old(self).secrets()
                    &&& final(self).entries() == old(self).entries()
                    &&& opened(old(self).key(), vault.nonce@, vault.ciphertext@) is None ==> m@
                        == "Cryptographic key error: Unable to unlock local sovereign secrets."@
                    &&& opened(old(self).key(), vault.nonce@, vault.ciphertext@) is Some ==> json_string_map(
                        opened(old(self).key(), vault.nonce@, vault.ciphertext@)->Some_0,
                    ) is None
                },
            },
            forall|p: Seq<(Seq<char>, Seq<char>)>|
                keys_distinct(p) && vault.nonce@.len() == 12 && #[trigger] chacha_sealed(
                    old(self).key(),
                    vault.nonce@,
                    encode_utf8(secrets_json(p)),
                ) == Some(vault.ciphertext@) ==> (r is Ok && final(self).secrets() == pairs_map(p)),
    {
        proof {
            use_type_invariant(&*self);
        }
        if vault.nonce.len() != 12 {
            return Err(owned("Cryptographic key error: Unable to unlock local sovereign secrets."));
        }
        let plaintext = match open(self.master_key.as_slice(), vault.nonce.as_slice(), vault.ciphertext.as_slice()) {
            Some(p) => p,
            None => {
                return Err(owned("Cryptographic key error: Unable to unlock local sovereign secrets."));
            },
        };
        let entries = match parse_string_map(plaintext.as_slice()) {
            Ok(e) => e,
            Err(m) => {
                return Err(m);
            },
        };
        self.memory_cache = entries;
        Ok(())
    }

    /// Holds `secret_value` under `secret_id` and seals the secrets under a
    /// fresh nonce, for the caller to store.
    pub fn insert_and_seal(&mut self, secret_id: &str, secret_value: String) -> (r: Result<EncryptedSecretVault, String>)
        ensures
            final(self).secrets() == old(self).secrets().insert(secret_id@, secret_value@),
            final(self).key() == old(self).key(),
            final(self).path() == old(self).path(),
            match r {
                Ok(v) => v.nonce@.len() == 12 && chacha_sealed(
                    final(self).key(),
                    v.nonce@,
                    encode_utf8(secrets_json(final(self).entries())),
                ) == Some(v.ciphertext@) && keys_distinct(final(self).entries()) && pairs_map(
                    final(self).entries(),
                ) == final(self).secrets(),
                Err(m) => m@ == "aead::Error"@,
            },
    {
        self.insert(secret_id, secret_value);
        self.seal_vault()
    }
}

/// Secrets from the local vault first; from the cloud only for what it
/// lacks.
pub struct LocalFirstSecretProvider {
    cache: SovereignSecretManager,
}

/// Where a secret is to come from.
pub enum SecretSource {
    /// The vault holds it.
    Local(String),
    /// The vault lacks it and the cloud may be asked.
    Upstream,
}

impl LocalFirstSecretProvider {
    /// A provider over an empty vault at `cache_path`.
    pub fn new(cache_path: &str, master_key_bytes: &[u8; 32]) -> (p: LocalFirstSecretProvider)
        ensures
            p.vault().secrets() == Map::<Seq<char>, Seq<char>>::empty(),
            p.vault().key() == master_key_bytes@,
            p.vault().path() == cache_path@,
    {
        LocalFirstSecretProvider { cache: SovereignSecretManager::new(cache_path, master_key_bytes) }
    }

    pub closed spec fn vault(self) -> SovereignSecretManager {
        self.cache
    }

    /// The vault.
    pub fn cache(&self) -> (c: &SovereignSecretManager)
        ensures
            *c == self.vault(),
    {
        &self.cache
    }

    /// The vault, to fill from disk.
    pub fn cache_mut(&mut self) -> (c: &mut SovereignSecretManager)
        ensures
            *c == old(self).vault(),
            final(self).vault() == *final(c),
    {
        &mut self.cache
    }

    /// Where `secret_id` is to come from: the vault if it holds it; else the
    /// cloud, when a client is at hand; else nowhere, which is the offline
    /// error.
    pub fn resolve_local(&self, secret_id: &str, client_available: bool) -> (r: Result<SecretSource, String>)
        ensures
            match r {
                Ok(SecretSource::Local(v)) => self.vault().secrets().contains_key(secret_id@)
                    && self.vault().secrets()[secret_id@] == v@,
                Ok(SecretSource::Upstream) => !self.vault().secrets().contains_key(secret_id@) && client_available,
                Err(m) => !self.vault().secrets().contains_key(secret_id@) && !client_available && m@
                    == "Offline Mode Error: Secret "@ + secret_id@ + " missing from local vault."@,
            },
    {
        match self.cache.get_cached(secret_id) {
            Some(v) => Ok(SecretSource::Local(v)),
            None => if client_available {
                Ok(SecretSource::Upstream)
            } else {
                let mut m = text_with("Offline Mode Error: Secret ", secret_id);
                m.append(" missing from local vault.");
                Err(m)
            },
        }
    }

    /// Keeps a secret fetched from the cloud and seals the vault again.
    pub fn accept_upstream(&mut self, secret_id: &str, secret_value: String) -> (r: Result<EncryptedSecretVault, String>)
        ensures
            final(self).vault().secrets() == old(self).vault().secrets().insert(secret_id@, secret_value@),
            final(self).vault().key() == old(self).vault().key(),
            final(self).vault().path() == old(self).vault().path(),
            match r {
                Ok(v) => v.nonce@.len() == 12 && chacha_sealed(
                    final(self).vault().key(),
                    v.nonce@,
                    encode_utf8(secrets_json(final(self).vault().entries())),
                ) == Some(v.ciphertext@) && keys_distinct(final(self).vault().entries()) && pairs_map(
                    final(self).vault().entries(),
                ) == final(self).vault().secrets(),
                Err(m) => m@ == "aead::Error"@,
            },
    {
        self.cache.insert_and_seal(secret_id, secret_value)
    }
}

/// A secret held under a name is what the name finds afterwards, and the
/// other names find what they found before.
pub proof fn law_insert_then_get(secrets: Map<Seq<char>, Seq<char>>, id: Seq<char>, value: Seq<char>, other: Seq<char>)
    ensures
        secrets.insert(id, value).contains_key(id),
        secrets.insert(id, value)[id] == value,
        other != id ==> (secrets.insert(id, value).contains_key(other) == secrets.contains_key(other)),
        other != id && secrets.contains_key(other) ==> secrets.insert(id, value)[other] == secrets[other],
{
}

} // verus!
