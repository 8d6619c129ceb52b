//! Storage of secrets, by (service, key).
//!
//! What must not go into the database goes here: the application passwords
//! of the mail accounts and the identity seeds. The platform keychains are
//! reached by the application; this module names the entries and keeps an
//! in-memory store with the same behaviour, for tests.

use vstd::prelude::*;

use crate::chat::{Error, Result};
use crate::encoding::{base64_decode, base64_encode, lemma_decode_spec, spec_base64_decode, spec_base64_encode};
use crate::text::{concat, str_eq};

verus! {

/// The service of the application passwords of mail accounts.
pub const SERVICE_MAIL: &'static str = "echat.mail";

/// The service of the identity keypairs (private keys).
pub const SERVICE_IDENTITY: &'static str = "echat.identity";

/// The key of an account's identity seed: `identity_seed:{account_id}`.
pub fn identity_seed_key(account_id: &str) -> (k: String)
    ensures
        k@ == "identity_seed:"@ + account_id@,
{
    concat("identity_seed:", account_id)
}

/// The key of an account's application password: `app_password:{email}`.
pub fn app_password_key(email: &str) -> (k: String)
    ensures
        k@ == "app_password:"@ + email@,
{
    concat("app_password:", email)
}

/// The contents of a keystore: secrets by (service, key).
pub type SecretMap = Map<(Seq<char>, Seq<char>), Seq<u8>>;

/// The store after `set`.
pub open spec fn spec_set(m: SecretMap, service: Seq<char>, key: Seq<char>, secret: Seq<u8>) -> SecretMap {
    m.insert((service, key), secret)
}

/// What `get` returns.
pub open spec fn spec_get(m: SecretMap, service: Seq<char>, key: Seq<char>) -> Option<Seq<u8>> {
    if m.dom().contains((service, key)) {
        Some(m[(service, key)])
    } else {
        None
    }
}

/// The store after `delete`.
pub open spec fn spec_delete(m: SecretMap, service: Seq<char>, key: Seq<char>) -> SecretMap {
    m.remove((service, key))
}

/// A store of secrets by (service, key). The application passwords of the
/// mail accounts and the identity seeds live in one, never in the database;
/// each platform brings its own.
pub trait KeystorePort {
    /// What the store holds.
    spec fn secrets(&self) -> SecretMap;

    /// Stores `secret` under (service, key), replacing any earlier one. A
    /// store that refuses leaves its contents as they were.
    fn set(&mut self, service: &str, key: &str, secret: &[u8]) -> (r: Result<()>)
        ensures
            r is Ok ==> final(self).secrets() == spec_set(old(self).secrets(), service@, key@, secret@),
            r is Err ==> final(self).secrets() == old(self).secrets(),
    ;

    /// The secret stored under (service, key), if any.
    fn get(&self, service: &str, key: &str) -> (r: Result<Option<Vec<u8>>>)
        ensures
            r matches Ok(o) ==> match spec_get(self.secrets(), service@, key@) {
                Some(v) => o matches Some(w) && w@ == v,
                None => o is None,
            },
    ;

    /// Removes the secret stored under (service, key), if any. A store that
    /// refuses leaves its contents as they were.
    fn delete(&mut self, service: &str, key: &str) -> (r: Result<()>)
        ensures
            r is Ok ==> final(self).secrets() == spec_delete(old(self).secrets(), service@, key@),
            r is Err ==> final(self).secrets() == old(self).secrets(),
    ;
}

/// One stored secret.
#[derive(Debug, Clone)]
pub struct KeystoreEntry {
    pub service: String,
    pub key: String,
    pub secret: Vec<u8>,
}

/// The (service, key) of an entry.
pub open spec fn entry_id(e: KeystoreEntry) -> (Seq<char>, Seq<char>) {
    (e.service@, e.key@)
}

/// Some entry has the given (service, key).
pub open spec fn holds(es: Seq<KeystoreEntry>, id: (Seq<char>, Seq<char>)) -> bool {
    exists|i: int| 0 <= i < es.len() && #[trigger] entry_id(es[i]) == id
}

/// The secrets held by a list of entries.
pub open spec fn entries_view(es: Seq<KeystoreEntry>) -> SecretMap {
    Map::new(
        |id: (Seq<char>, Seq<char>)| holds(es, id),
        |id: (Seq<char>, Seq<char>)|
            es[choose|i: int| 0 <= i < es.len() && #[trigger] entry_id(es[i]) == id].secret@,
    )
}

/// No (service, key) occurs twice.
pub open spec fn ids_unique(es: Seq<KeystoreEntry>) -> bool {
    forall|i: int, j: int|
        0 <= i < es.len() && 0 <= j < es.len() && i != j ==> entry_id(#[trigger] es[i])
            != entry_id(#[trigger] es[j])
}

proof fn lemma_value_at(es: Seq<KeystoreEntry>, i: int)
    requires
        ids_unique(es),
        0 <= i < es.len(),
    ensures
        entries_view(es).dom().contains(entry_id(es[i])),
        entries_view(es)[entry_id(es[i])] == es[i].secret@,
{
    let id = entry_id(es[i]);
    assert(holds(es, id));
    let j = choose|j: int| 0 <= j < es.len() && #[trigger] entry_id(es[j]) == id;
    if j != i {
        assert(entry_id(es[i]) != entry_id(es[j]));
    }
}

/// An in-memory keystore, for tests.
pub struct InMemoryKeystore {
    entries: Vec<KeystoreEntry>,
}

impl View for InMemoryKeystore {
    type V = SecretMap;

    closed spec fn view(&self) -> SecretMap {
        entries_view(self.entries@)
    }
}

impl InMemoryKeystore {
    #[verifier::type_invariant]
    spec fn inv(self) -> bool {
        ids_unique(self.entries@)
    }

    /// An empty store.
    pub fn new() -> (s: InMemoryKeystore)
        ensures
            s@ == SecretMap::empty(),
    {
        let s = InMemoryKeystore { entries: Vec::new() };
        assert(s@ =~= SecretMap::empty());
        s
    }

    fn find(&self, service: &str, key: &str) -> (r: Option<usize>)
        ensures
            match r {
                Some(i) => i < self.entries@.len() && entry_id(self.entries@[i as int]) == (
                service@,
                key@,
                ),
                None => !holds(self.entries@, (service@, key@)),
            },
    {
        let mut i: usize = 0;
        while i < self.entries.len()
            invariant
                i <= self.entries@.len(),
                forall|k: int| 0 <= k < i ==> entry_id(#[trigger] self.entries@[k]) != (service@, key@),
            decreases self.entries@.len() - i,
        {
            if str_eq(self.entries[i].service.as_str(), service) && str_eq(
                self.entries[i].key.as_str(),
                key,
            ) {
                return Some(i);
            }
            i = i + 1;
        }
        None
    }
}

impl KeystorePort for InMemoryKeystore {
    open spec fn secrets(&self) -> SecretMap {
        self@
    }

    /// Stores a secret, replacing any earlier one under the same (service, key).
    fn set(&mut self, service: &str, key: &str, secret: &[u8]) -> (r: Result<()>)
        ensures
            r is Ok,
            final(self)@ == spec_set(old(self)@, service@, key@, secret@),
    {
        proof {
            use_type_invariant(&*self);
        }
        let ghost old_es = self.entries@;
        let entry = KeystoreEntry {
            service: service.to_owned(),
            key: key.to_owned(),
            secret: crate::bytes::to_vec(secret),
        };
        let found = self.find(service, key);
        let mut es: Vec<KeystoreEntry> = Vec::new();
        std::mem::swap(&mut es, &mut self.entries);
        match found {
            Some(i) => {
                es.set(i, entry);
            },
            None => {
                es.push(entry);
            },
        }
        proof {
            let id = (service@, key@);
            assert forall|a: int, b: int|
                0 <= a < es@.len() && 0 <= b < es@.len() && a != b implies entry_id(#[trigger] es@[a])
                != entry_id(#[trigger] es@[b]) by {
                if a < old_es.len() && b < old_es.len() && (found is None || (a != found->0 && b
                    != found->0)) {
                    assert(entry_id(old_es[a]) != entry_id(old_es[b]));
                } else if found is Some {
                    let i = found->0 as int;
                    if a == i {
                        assert(entry_id(old_es[b]) != entry_id(old_es[i]));
                    } else {
                        assert(entry_id(old_es[a]) != entry_id(old_es[i]));
                    }
                } else {
                    if a == old_es.len() {
                        assert(entry_id(old_es[b]) != id);
                    } else {
                        assert(entry_id(old_es[a]) != id);
                    }
                }
            }
            let m = entries_view(es@);
            let expected = spec_set(entries_view(old_es), service@, key@, secret@);
            let at: int = match found {
                Some(i) => i as int,
                None => old_es.len() as int,
            };
            assert(es@[at] == entry);
            lemma_value_at(es@, at);
            assert forall|k: (Seq<char>, Seq<char>)| #[trigger] m.dom().contains(k) <==> expected.dom().contains(k) by {
                if m.dom().contains(k) {
                    let j = choose|j: int| 0 <= j < es@.len() && #[trigger] entry_id(es@[j]) == k;
                    if j != at {
                        assert(es@[j] == old_es[j]);
                        assert(holds(old_es, k));
                    }
                }
                if expected.dom().contains(k) && k != id {
                    let j = choose|j: int| 0 <= j < old_es.len() && #[trigger] entry_id(old_es[j]) == k;
                    assert(es@[j] == old_es[j]);
                    assert(holds(es@, k));
                }
            }
            assert forall|k: (Seq<char>, Seq<char>)| #[trigger] m.dom().contains(k) implies m[k] == expected[k] by {
                if k != id {
                    let j = choose|j: int| 0 <= j < es@.len() && #[trigger] entry_id(es@[j]) == k;
                    assert(j != at);
                    assert(es@[j] == old_es[j]);
                    lemma_value_at(es@, j);
                    lemma_value_at(old_es, j);
                }
            }
            assert(m =~= expected);
        }
        self.entries = es;
        Ok(())
    }

    /// The secret stored under (service, key), if any.
    fn get(&self, service: &str, key: &str) -> (r: Result<Option<Vec<u8>>>)
        ensures
            r matches Ok(o) && match spec_get(self@, service@, key@) {
                Some(v) => o matches Some(w) && w@ == v,
                None => o is None,
            },
    {
        proof {
            use_type_invariant(&*self);
        }
        match self.find(service, key) {
            Some(i) => {
                proof {
                    lemma_value_at(self.entries@, i as int);
                }
                Ok(Some(self.entries[i].secret.clone()))
            },
            None => Ok(None),
        }
    }

    /// Removes the secret stored under (service, key), if any.
    fn delete(&mut self, service: &str, key: &str) -> (r: Result<()>)
        ensures
            r is Ok,
            final(self)@ == spec_delete(old(self)@, service@, key@),
    {
        proof {
            use_type_invariant(&*self);
        }
        let ghost old_es = self.entries@;
        let found = self.find(service, key);
        match found {
            Some(i) => {
                let mut es: Vec<KeystoreEntry> = Vec::new();
                std::mem::swap(&mut es, &mut self.entries);
                es.remove(i);
                proof {
                    let id = (service@, key@);
                    let ii = i as int;
                    assert forall|a: int, b: int|
                        0 <= a < es@.len() && 0 <= b < es@.len() && a != b implies entry_id(
                        #[trigger] es@[a],
                    ) != entry_id(#[trigger] es@[b]) by {
                        let oa = if a < ii { a } else { a + 1 };
                        let ob = if b < ii { b } else { b + 1 };
                        assert(es@[a] == old_es[oa]);
                        assert(es@[b] == old_es[ob]);
                        assert(entry_id(old_es[oa]) != entry_id(old_es[ob]));
                    }
                    let m = entries_view(es@);
                    let expected = spec_delete(entries_view(old_es), service@, key@);
                    assert forall|k: (Seq<char>, Seq<char>)| #[trigger] m.dom().contains(k) <==> expected.dom().contains(k) by {
                        if m.dom().contains(k) {
                            let j = choose|j: int| 0 <= j < es@.len() && #[trigger] entry_id(es@[j]) == k;
                            let oj = if j < ii { j } else { j + 1 };
                            assert(es@[j] == old_es[oj]);
                            assert(holds(old_es, k));
                            assert(entry_id(old_es[oj]) != entry_id(old_es[ii]));
                        }
                        if expected.dom().contains(k) {
                            let j = choose|j: int| 0 <= j < old_es.len() && #[trigger] entry_id(old_es[j]) == k;
                            assert(j != ii);
                            let nj = if j < ii { j } else { j - 1 };
                            assert(es@[nj] == old_es[j]);
                            assert(holds(es@, k));
                        }
                    }
                    assert forall|k: (Seq<char>, Seq<char>)| #[trigger] m.dom().contains(k) implies m[k] == expected[k] by {
                        let j = choose|j: int| 0 <= j < es@.len() && #[trigger] entry_id(es@[j]) == k;
                        let oj = if j < ii { j } else { j + 1 };
                        assert(es@[j] == old_es[oj]);
                        lemma_value_at(es@, j);
                        lemma_value_at(old_es, oj);
                    }
                    assert(m =~= expected);
                }
                self.entries = es;
            },
            None => {
                proof {
                    assert(self@ =~= spec_delete(old(self)@, service@, key@));
                }
            },
        }
        Ok(())
    }
}

/// A secret read back under the (service, key) it was stored under is the
/// secret that was stored.
pub proof fn lemma_get_after_set(m: SecretMap, service: Seq<char>, key: Seq<char>, secret: Seq<u8>)
    ensures
        spec_get(spec_set(m, service, key, secret), service, key) == Some(secret),
{
}

/// Storing again under the same (service, key) replaces the earlier secret.
pub proof fn lemma_set_overwrites(
    m: SecretMap,
    service: Seq<char>,
    key: Seq<char>,
    first: Seq<u8>,
    second: Seq<u8>,
)
    ensures
        spec_set(spec_set(m, service, key, first), service, key, second) == spec_set(
            m,
            service,
            key,
            second,
        ),
{
    assert(spec_set(spec_set(m, service, key, first), service, key, second) =~= spec_set(
        m,
        service,
        key,
        second,
    ));
}

/// After `delete` nothing is found under that (service, key).
pub proof fn lemma_get_after_delete(m: SecretMap, service: Seq<char>, key: Seq<char>)
    ensures
        spec_get(spec_delete(m, service, key), service, key) is None,
{
}

/// Entries are isolated: storing or deleting under one (service, key)
/// changes nothing read under another, in particular under the same key of
/// another service.
pub proof fn lemma_entries_isolated(
    m: SecretMap,
    service: Seq<char>,
    key: Seq<char>,
    secret: Seq<u8>,
    other_service: Seq<char>,
    other_key: Seq<char>,
)
    requires
        (service, key) != (other_service, other_key),
    ensures
        spec_get(spec_set(m, service, key, secret), other_service, other_key) == spec_get(
            m,
            other_service,
            other_key,
        ),
        spec_get(spec_delete(m, service, key), other_service, other_key) == spec_get(
            m,
            other_service,
            other_key,
        ),
{
}

/// The keychain service name of one of our services: `echat.{service}`.
pub fn keychain_service(service: &str) -> (s: String)
    ensures
        s@ == "echat."@ + service@,
{
    concat("echat.", service)
}

/// The text under which the OS keychain stores a secret: its base64.
pub fn encode_secret(secret: &[u8]) -> (s: String)
    ensures
        s@ == spec_base64_encode(secret@),
{
    base64_encode(secret)
}

/// The secret stored as `text`; `Keystore` when it is not base64.
pub fn decode_secret(text: &str) -> (r: Result<Vec<u8>>)
    ensures
        match spec_base64_decode(text@) {
            Some(b) => r matches Ok(v) && v@ == b,
            None => r matches Err(Error::Keystore(_)),
        },
{
    match base64_decode(text) {
        Ok(v) => {
            proof {
                lemma_decode_spec(text@, v@);
            }
            Ok(v)
        },
        Err(msg) => Err(Error::Keystore(concat("base64 decode: ", msg.as_str()))),
    }
}

/// The keystore of the desktop: the OS keychain (Windows Credential
/// Manager, macOS Keychain, Secret Service), reached by the application.
pub struct DesktopKeystore;

impl DesktopKeystore {
    /// The desktop keystore.
    pub fn new() -> (k: DesktopKeystore) {
        DesktopKeystore
    }
}

/// The keystore of Android (the Android Keystore System). Not available
/// yet: it needs a bridge to the platform; nothing is stored.
pub struct AndroidKeystore;

impl AndroidKeystore {
    /// The Android keystore.
    pub fn new() -> (k: AndroidKeystore) {
        AndroidKeystore
    }
}

impl KeystorePort for AndroidKeystore {
    /// It holds nothing.
    open spec fn secrets(&self) -> SecretMap {
        SecretMap::empty()
    }

    /// Storing is not available: always `Keystore`.
    fn set(&mut self, service: &str, key: &str, secret: &[u8]) -> (r: Result<()>)
        ensures
            r matches Err(Error::Keystore(_)),
    {
        Err(Error::Keystore("AndroidKeystore не реализован (stub). Требует JNI.".to_owned()))
    }

    /// Nothing is ever found.
    fn get(&self, service: &str, key: &str) -> (r: Result<Option<Vec<u8>>>)
        ensures
            r matches Ok(None),
    {
        Ok(None)
    }

    /// Deleting always succeeds (there is nothing to delete).
    fn delete(&mut self, service: &str, key: &str) -> (r: Result<()>)
        ensures
            r is Ok,
    {
        Ok(())
    }
}

/// The keystore of iOS (the iOS Keychain). Not available yet: it needs a
/// bridge to the platform; nothing is stored.
pub struct IosKeystore;

impl IosKeystore {
    /// The iOS keystore.
    pub fn new() -> (k: IosKeystore) {
        IosKeystore
    }
}

impl KeystorePort for IosKeystore {
    /// It holds nothing.
    open spec fn secrets(&self) -> SecretMap {
        SecretMap::empty()
    }

    /// Storing is not available: always `Keystore`.
    fn set(&mut self, service: &str, key: &str, secret: &[u8]) -> (r: Result<()>)
        ensures
            r matches Err(Error::Keystore(_)),
    {
        Err(Error::Keystore("IosKeystore не реализован (stub). Требует Swift bridge.".to_owned()))
    }

    /// Nothing is ever found.
    fn get(&self, service: &str, key: &str) -> (r: Result<Option<Vec<u8>>>)
        ensures
            r matches Ok(None),
    {
        Ok(None)
    }

    /// Deleting always succeeds (there is nothing to delete).
    fn delete(&mut self, service: &str, key: &str) -> (r: Result<()>)
        ensures
            r is Ok,
    {
        Ok(())
    }
}

} // verus!
