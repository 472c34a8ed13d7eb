//! The identities that receivers know this sender by, kept from one run to the next.
use crate::bytes::array32;
use crate::sorted::{get, ordered, put, table, Keyed};
use crate::text::same;
use vstd::prelude::*;
use vstd::slice::slice_to_vec;

verus! {

/// The name of the service under which a keyring keeps the entries.
pub const KEYRING_SERVICE: &'static str = "airfry";

/// What is kept for a receiver.
#[derive(Clone, Debug)]
pub struct SavedCredentials {
    pub pairing_id: String,
    pub ed25519_public: Vec<u8>,
    pub ed25519_seed: Vec<u8>,
    /// What a screen cast can be taken up again with.
    pub restore_token: Option<String>,
}

#[verifier::ext_equal]
pub struct SavedCredentialsView {
    pub pairing_id: Seq<char>,
    pub ed25519_public: Seq<u8>,
    pub ed25519_seed: Seq<u8>,
    pub restore_token: Option<Seq<char>>,
}

impl View for SavedCredentials {
    type V = SavedCredentialsView;

    open spec fn view(&self) -> SavedCredentialsView {
        SavedCredentialsView {
            pairing_id: self.pairing_id@,
            ed25519_public: self.ed25519_public@,
            ed25519_seed: self.ed25519_seed@,
            restore_token: match self.restore_token {
                Some(t) => Some(t@),
                None => None,
            },
        }
    }
}

/// What is kept for a receiver that is not known.
pub open spec fn nothing_saved() -> SavedCredentialsView {
    SavedCredentialsView {
        pairing_id: Seq::empty(),
        ed25519_public: Seq::empty(),
        ed25519_seed: Seq::empty(),
        restore_token: None,
    }
}

impl Default for SavedCredentials {
    fn default() -> (r: SavedCredentials)
        ensures
            r@ == nothing_saved(),
    {
        SavedCredentials {
            pairing_id: String::new(),
            ed25519_public: Vec::new(),
            ed25519_seed: Vec::new(),
            restore_token: None,
        }
    }
}

/// Whether an entry holds an identity that can be paired with.
pub open spec fn usable(c: SavedCredentialsView) -> bool {
    c.pairing_id.len() > 0 && c.ed25519_public.len() == 32 && c.ed25519_seed.len() == 32
}

/// An entry with an identity; the rest of it stays.
pub open spec fn with_identity(
    c: SavedCredentialsView,
    pairing_id: Seq<char>,
    public: Seq<u8>,
    seed: Seq<u8>,
) -> SavedCredentialsView {
    SavedCredentialsView { pairing_id, ed25519_public: public, ed25519_seed: seed, ..c }
}

/// An entry with a restore token; the rest of it stays.
pub open spec fn with_token(c: SavedCredentialsView, token: Seq<char>) -> SavedCredentialsView {
    SavedCredentialsView { restore_token: Some(token), ..c }
}

impl SavedCredentials {
    /// Whether the entry holds an identity that can be paired with.
    pub fn has_pairing_credentials(&self) -> (r: bool)
        ensures
            r == usable(self@),
    {
        !self.pairing_id.as_str().is_empty() && self.ed25519_public.len() == 32 && self.ed25519_seed.len()
            == 32
    }

    /// The public key and the seed, if the seed has its proper length.
    pub fn ed25519_keys(&self) -> (r: Option<(Vec<u8>, [u8; 32])>)
        ensures
            r is Some <==> self@.ed25519_seed.len() == 32,
            r matches Some(keys) ==> keys.0@ == self@.ed25519_public && keys.1@
                == self@.ed25519_seed,
    {
        if self.ed25519_seed.len() != 32 {
            return None;
        }
        Some(
            (
                slice_to_vec(self.ed25519_public.as_slice()),
                array32(self.ed25519_seed.as_slice()),
            ),
        )
    }

    /// Takes an identity; the rest of the entry stays.
    pub fn set_identity(&mut self, pairing_id: &str, public: &[u8], seed: &[u8])
        ensures
            final(self)@ == with_identity(old(self)@, pairing_id@, public@, seed@),
    {
        self.pairing_id = pairing_id.to_owned();
        self.ed25519_public = slice_to_vec(public);
        self.ed25519_seed = slice_to_vec(seed);
    }

    /// Takes a restore token; the rest of the entry stays.
    pub fn set_restore_token(&mut self, token: &str)
        ensures
            final(self)@ == with_token(old(self)@, token@),
    {
        self.restore_token = Some(token.to_owned());
    }

    /// The same entry once more.
    pub fn copy(&self) -> (r: SavedCredentials)
        ensures
            r@ == self@,
    {
        SavedCredentials {
            pairing_id: self.pairing_id.clone(),
            ed25519_public: slice_to_vec(self.ed25519_public.as_slice()),
            ed25519_seed: slice_to_vec(self.ed25519_seed.as_slice()),
            restore_token: match &self.restore_token {
                Some(t) => Some(t.clone()),
                None => None,
            },
        }
    }
}

/// Where credentials are kept.
#[derive(Debug)]
pub enum CredentialBackend {
    /// In a file.
    File(Vec<u8>),
    /// In the system's keyring.
    Keyring,
}

/// Where credentials are kept, by its name; `None` when there is no such place.
pub open spec fn backend_named(
    backend: Seq<char>,
    path: Option<&[u8]>,
    default_path: Seq<u8>,
) -> Option<Option<Seq<u8>>> {
    if backend == "file"@ {
        Some(
            Some(
                match path {
                    Some(p) => p@,
                    None => default_path,
                },
            ),
        )
    } else if backend == "keyring"@ {
        Some(None)
    } else {
        None
    }
}

impl CredentialBackend {
    /// The file, none for the keyring.
    pub open spec fn file(self) -> Option<Seq<u8>> {
        match self {
            CredentialBackend::File(p) => Some(p@),
            CredentialBackend::Keyring => None,
        }
    }

    /// Reads the name of a place: `file`, with the path given or the default one, or `keyring`.
    pub fn parse(backend: &str, creds_path: Option<&[u8]>, default_path: &[u8]) -> (r: Option<
        CredentialBackend,
    >)
        ensures
            match backend_named(backend@, creds_path, default_path@) {
                Some(file) => r matches Some(b) && b.file() == file,
                None => r is None,
            },
    {
        if same(backend, "file") {
            Some(
                CredentialBackend::File(
                    match creds_path {
                        Some(p) => slice_to_vec(p),
                        None => slice_to_vec(default_path),
                    },
                ),
            )
        } else if same(backend, "keyring") {
            Some(CredentialBackend::Keyring)
        } else {
            None
        }
    }
}

/// The entry of one receiver.
pub struct CredentialEntry {
    pub device_id: String,
    pub credentials: SavedCredentials,
}

impl Keyed for CredentialEntry {
    open spec fn key(&self) -> Seq<char> {
        self.device_id@
    }

    fn name(&self) -> (r: &str) {
        self.device_id.as_str()
    }
}

/// The entries of all receivers, in the order of their identifiers.
pub struct CredentialStore {
    entries: Vec<CredentialEntry>,
}

impl View for CredentialStore {
    type V = Map<Seq<char>, SavedCredentialsView>;

    closed spec fn view(&self) -> Map<Seq<char>, SavedCredentialsView> {
        table(self.entries@).map_values(|e: CredentialEntry| e.credentials@)
    }
}

/// What is kept for a receiver, if anything is.
pub open spec fn saved(m: Map<Seq<char>, SavedCredentialsView>, id: Seq<char>) -> SavedCredentialsView {
    if m.contains_key(id) {
        m[id]
    } else {
        nothing_saved()
    }
}

impl CredentialStore {
    pub closed spec fn wf(&self) -> bool {
        ordered(self.entries@)
    }

    /// A store without entries.
    pub fn new() -> (r: CredentialStore)
        ensures
            r.wf(),
            r@ == Map::<Seq<char>, SavedCredentialsView>::empty(),
    {
        let r = CredentialStore { entries: Vec::new() };
        assert(r@ =~= Map::<Seq<char>, SavedCredentialsView>::empty());
        r
    }

    /// How many entries there are.
    pub fn len(&self) -> (r: usize)
        requires
            self.wf(),
        ensures
            self@.dom().finite(),
            r == self@.dom().len(),
    {
        proof {
            crate::sorted::lemma_count(self.entries@);
            assert(self@.dom() =~= table(self.entries@).dom());
        }
        self.entries.len()
    }

    pub fn is_empty(&self) -> (r: bool)
        requires
            self.wf(),
        ensures
            r == (self@ == Map::<Seq<char>, SavedCredentialsView>::empty()),
    {
        proof {
            if self.entries@.len() == 0 {
                assert(self@ =~= Map::<Seq<char>, SavedCredentialsView>::empty());
            } else {
                crate::sorted::lemma_row(self.entries@, 0);
                assert(self@.contains_key(self.entries@[0].key()));
            }
        }
        self.entries.len() == 0
    }

    /// The entries, in the order of their identifiers.
    pub fn entries(&self) -> (r: &Vec<CredentialEntry>)
        requires
            self.wf(),
        ensures
            ordered(r@),
            table(r@).map_values(|e: CredentialEntry| e.credentials@) == self@,
            forall|i: int|
                0 <= i < r@.len() ==> self@.contains_key((#[trigger] r@[i]).device_id@)
                    && self@[r@[i].device_id@] == r@[i].credentials@,
    {
        proof {
            assert forall|i: int| 0 <= i < self.entries@.len() implies self@.contains_key(
                (#[trigger] self.entries@[i]).device_id@,
            ) && self@[self.entries@[i].device_id@] == self.entries@[i].credentials@ by {
                crate::sorted::lemma_row(self.entries@, i);
            }
        }
        &self.entries
    }

    /// What is kept for a receiver.
    pub fn lookup(&self, device_id: &str) -> (r: Option<SavedCredentials>)
        requires
            self.wf(),
        ensures
            r is Some <==> self@.contains_key(device_id@),
            r matches Some(c) ==> c@ == self@[device_id@],
    {
        match get(&self.entries, device_id) {
            Some(e) => Some(e.credentials.copy()),
            None => None,
        }
    }

    /// Puts an entry in place of the one there.
    pub fn put(&mut self, device_id: &str, credentials: SavedCredentials)
        requires
            old(self).wf(),
        ensures
            final(self).wf(),
            final(self)@ == old(self)@.insert(device_id@, credentials@),
    {
        let ghost c = credentials@;
        put(
            &mut self.entries,
            CredentialEntry { device_id: device_id.to_owned(), credentials },
        );
        assert(self@ =~= old(self)@.insert(device_id@, c));
    }

    /// Keeps an identity for a receiver. A restore token that is kept for it stays.
    pub fn save(&mut self, device_id: &str, pairing_id: &str, public: &[u8], seed: &[u8])
        requires
            old(self).wf(),
        ensures
            final(self).wf(),
            final(self)@ == old(self)@.insert(
                device_id@,
                with_identity(saved(old(self)@, device_id@), pairing_id@, public@, seed@),
            ),
    {
        let mut entry: SavedCredentials = match self.lookup(device_id) {
            Some(c) => c,
            None => SavedCredentials::default(),
        };
        entry.set_identity(pairing_id, public, seed);
        self.put(device_id, entry);
    }

    /// Keeps a restore token for a receiver. An identity that is kept for it stays. An empty token
    /// is not kept.
    pub fn save_restore_token(&mut self, device_id: &str, token: &str)
        requires
            old(self).wf(),
        ensures
            final(self).wf(),
            final(self)@ == (if token@.len() == 0 {
                old(self)@
            } else {
                old(self)@.insert(device_id@, with_token(saved(old(self)@, device_id@), token@))
            }),
    {
        if token.is_empty() {
            return ;
        }
        let mut entry: SavedCredentials = match self.lookup(device_id) {
            Some(c) => c,
            None => SavedCredentials::default(),
        };
        entry.set_restore_token(token);
        self.put(device_id, entry);
    }
}

/// An identity and a token do not displace each other, whichever is kept first.
pub proof fn lemma_identity_and_token(
    c: SavedCredentialsView,
    pairing_id: Seq<char>,
    public: Seq<u8>,
    seed: Seq<u8>,
    token: Seq<char>,
)
    ensures
        with_token(with_identity(c, pairing_id, public, seed), token) == with_identity(
            with_token(c, token),
            pairing_id,
            public,
            seed,
        ),
        with_token(with_identity(c, pairing_id, public, seed), token).restore_token == Some(token),
        with_identity(with_token(c, token), pairing_id, public, seed).ed25519_seed == seed,
{
}

/// A token alone is no identity.
pub proof fn lemma_token_only(token: Seq<char>)
    ensures
        !usable(with_token(nothing_saved(), token)),
{
}

/// Credentials stand in a file only where that is asked for: the one that is named, or else the usual
/// one.
pub proof fn law_place_of_credentials(
    backend: Seq<char>,
    named: Option<&[u8]>,
    usual: Seq<u8>,
)
    ensures
        backend == "file"@ ==> backend_named(backend, named, usual) == Some(
            Some(
                if named is Some {
                    named->Some_0@
                } else {
                    usual
                },
            ),
        ),
        backend == "keyring"@ ==> backend_named(backend, named, usual) == Some(None::<Seq<u8>>),
        backend != "file"@ && backend != "keyring"@ ==> backend_named(backend, named, usual)
            is None,
{
    reveal_strlit("file");
    reveal_strlit("keyring");
    assert("file"@.len() == 4 && "keyring"@.len() == 7);
}

} // verus!
