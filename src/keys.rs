//! The key vault: provider API keys sealed under a master key, at most one
//! per (user, provider).

use vstd::prelude::*;
use magic_crypt::MagicCryptTrait;
use crate::error::AppError;
use crate::records::UserApiKey;

verus! {

/// The ciphertext (base64) that `magic_crypt` makes of `plain` under `master`.
pub uninterp spec fn sealed(master: Seq<char>, plain: Seq<char>) -> Seq<char>;

/// What `magic_crypt` recovers from `cipher` under `master`, if anything.
pub uninterp spec fn opened(master: Seq<char>, cipher: Seq<char>) -> Option<Seq<char>>;

/// Relies on `MagicCrypt256::new` with no IV (key: SHA-256 of `master`, IV:
/// zeros) and `encrypt_str_to_base64`: the result depends on the master key
/// and the text alone.
#[verifier::external_body]
fn seal(master: &str, plain: &str) -> (r: String)
    ensures
        r@ == sealed(master@, plain@),
{
    let mc = magic_crypt::MagicCrypt256::new(master, None::<String>);
    mc.encrypt_str_to_base64(plain)
}

/// Relies on `MagicCrypt256::new` with no IV and `decrypt_base64_to_string`,
/// which inverts `encrypt_str_to_base64` under the same master key and fails
/// on text that does not decode.
#[verifier::external_body]
fn unseal(master: &str, cipher: &str) -> (r: Option<String>)
    ensures
        match r {
            Some(s) => opened(master@, cipher@) == Some(s@),
            None => opened(master@, cipher@) is None,
        },
        forall|p: Seq<char>| #[trigger] sealed(master@, p) == cipher@ ==> (r is Some && r->0@ == p),
{
    let mc = magic_crypt::MagicCrypt256::new(master, None::<String>);
    match mc.decrypt_base64_to_string(cipher) {
        Ok(s) => Some(s),
        Err(_) => None,
    }
}

/// Encrypts an API key under the master key (base64 text).
pub fn encrypt_api_key(master: &str, api_key: &str) -> (r: String)
    ensures
        r@ == sealed(master@, api_key@),
{
    seal(master, api_key)
}

/// Decrypts a stored key; a key that does not decrypt means corrupted
/// storage or another master key, an internal fault.
pub fn decrypt_api_key(master: &str, cipher: &str) -> (r: Result<String, AppError>)
    ensures
        match opened(master@, cipher@) {
            Some(p) => r is Ok && r->Ok_0@ == p,
            None => r == Err::<String, AppError>(AppError::InternalServerError),
        },
        forall|p: Seq<char>| #[trigger] sealed(master@, p) == cipher@ ==> (r is Ok && r->Ok_0@ == p),
{
    match unseal(master, cipher) {
        Some(p) => Ok(p),
        None => Err(AppError::InternalServerError),
    }
}

pub open spec fn row_key(r: UserApiKey) -> (Seq<char>, Seq<char>) {
    (r.user_id@, r.provider@)
}

/// Stored keys, one row per (user, provider).
pub struct KeyTable {
    rows: Vec<UserApiKey>,
    secrets: Ghost<Map<(Seq<char>, Seq<char>), Seq<char>>>,
}

impl View for KeyTable {
    type V = Map<(Seq<char>, Seq<char>), Seq<char>>;

    closed spec fn view(&self) -> Map<(Seq<char>, Seq<char>), Seq<char>> {
        self.secrets@
    }
}

/// The message of a missing key.
pub open spec fn missing_key_message(provider: Seq<char>) -> Seq<char> {
    "api key for provider '"@ + provider + "' not found."@
}

/// Decrypts a stored key: a missing key is a bad request naming the
/// provider, a key that does not decrypt is an internal fault.
pub fn decrypt_stored_key(provider: &str, stored: &Option<String>, master: &str) -> (r: Result<
    String,
    AppError,
>)
    ensures
        stored is None ==> (r is Err && r->Err_0 is BadRequest),
        stored is None ==> r->Err_0->BadRequest_0@ == missing_key_message(provider@),
        stored is Some ==> match opened(master@, stored->0@) {
            Some(p) => r is Ok && r->Ok_0@ == p,
            None => r == Err::<String, AppError>(AppError::InternalServerError),
        },
        forall|p: Seq<char>|
            stored is Some && stored->0@ == #[trigger] sealed(master@, p) ==> (r is Ok
                && r->Ok_0@ == p),
{
    match stored {
        None => {
            let mut m = String::from_str("api key for provider '");
            m.append(provider);
            m.append("' not found.");
            Err(AppError::BadRequest(m))
        },
        Some(c) => decrypt_api_key(master, c.as_str()),
    }
}

impl KeyTable {
    /// Rows are unique by (user, provider) and hold exactly the view.
    pub closed spec fn wf(&self) -> bool {
        &&& forall|i: int, j: int|
            0 <= i < j < self.rows.len() ==> row_key(#[trigger] self.rows@[i]) != row_key(
                #[trigger] self.rows@[j],
            )
        &&& forall|i: int|
            0 <= i < self.rows.len() ==> {
                &&& self.secrets@.contains_key(row_key(#[trigger] self.rows@[i]))
                &&& self.secrets@[row_key(self.rows@[i])] == self.rows@[i].encrypted_key@
            }
        &&& forall|k: (Seq<char>, Seq<char>)|
            #[trigger] self.secrets@.contains_key(k) ==> exists|i: int|
                0 <= i < self.rows.len() && row_key(#[trigger] self.rows@[i]) == k
        &&& self.secrets@.dom().finite()
        &&& self.rows.len() == self.secrets@.len()
    }

    pub fn new() -> (r: KeyTable)
        ensures
            r.wf(),
            r@ == Map::<(Seq<char>, Seq<char>), Seq<char>>::empty(),
    {
        KeyTable { rows: Vec::new(), secrets: Ghost(Map::empty()) }
    }

    /// Number of stored rows; one per (user, provider) in the view.
    pub fn len(&self) -> (r: usize)
        requires
            self.wf(),
        ensures
            r == self@.len(),
    {
        self.rows.len()
    }

    fn position(&self, user_id: &String, provider: &String) -> (r: Option<usize>)
        requires
            self.wf(),
        ensures
            match r {
                Some(i) => i < self.rows.len() && row_key(self.rows@[i as int]) == (
                    user_id@,
                    provider@,
                ),
                None => !self@.contains_key((user_id@, provider@)),
            },
    {
        let mut i: usize = 0;
        while i < self.rows.len()
            invariant
                i <= self.rows.len(),
                forall|j: int| 0 <= j < i ==> row_key(#[trigger] self.rows@[j]) != (user_id@, provider@),
            decreases self.rows.len() - i,
        {
            let row = &self.rows[i];
            if row.user_id == *user_id && row.provider == *provider {
                return Some(i);
            }
            i = i + 1;
        }
        None
    }

    /// Stores the key sealed under `master`, replacing any key of the same
    /// user and provider.
    pub fn add_key(
        &mut self,
        user_id: &String,
        provider: &String,
        api_key: &String,
        master: &str,
        created_at: String,
    )
        requires
            old(self).wf(),
        ensures
            final(self).wf(),
            final(self)@ == old(self)@.insert(
                (user_id@, provider@),
                sealed(master@, api_key@),
            ),
    {
        let row = UserApiKey {
            user_id: user_id.clone(),
            provider: provider.clone(),
            encrypted_key: seal(master, api_key.as_str()),
            created_at,
        };
        let ghost k = (user_id@, provider@);
        let ghost v = row.encrypted_key@;
        match self.position(user_id, provider) {
            Some(i) => {
                proof {
                    assert(self@.contains_key(k));
                }
                self.rows.set(i, row);
                self.secrets = Ghost(self.secrets@.insert(k, v));
                proof {
                    assert(self.secrets@.dom() =~= old(self).secrets@.dom());
                    assert forall|kk: (Seq<char>, Seq<char>)| #[trigger] self.secrets@.contains_key(kk) implies exists|j: int|
                        0 <= j < self.rows.len() && row_key(#[trigger] self.rows@[j]) == kk by {
                        if kk == k {
                            assert(row_key(self.rows@[i as int]) == kk);
                        } else {
                            let j = choose|j: int| 0 <= j < old(self).rows.len() && row_key(#[trigger] old(self).rows@[j]) == kk;
                            assert(row_key(self.rows@[j]) == kk);
                        }
                    }
                }
            },
            None => {
                self.rows.push(row);
                self.secrets = Ghost(self.secrets@.insert(k, v));
                proof {
                    let n = old(self).rows.len() as int;
                    assert(row_key(self.rows@[n]) == k);
                    assert forall|kk: (Seq<char>, Seq<char>)| #[trigger] self.secrets@.contains_key(kk) implies exists|j: int|
                        0 <= j < self.rows.len() && row_key(#[trigger] self.rows@[j]) == kk by {
                        if kk == k {
                            assert(row_key(self.rows@[n]) == kk);
                        } else {
                            let j = choose|j: int| 0 <= j < old(self).rows.len() && row_key(#[trigger] old(self).rows@[j]) == kk;
                            assert(row_key(self.rows@[j]) == kk);
                        }
                    }
                    assert forall|i: int| 0 <= i < n implies row_key(#[trigger] self.rows@[i]) != k by {
                        assert(old(self).secrets@.contains_key(row_key(old(self).rows@[i])));
                    }
                }
            },
        }
    }

    /// The plaintext key of (`user_id`, `provider`): a missing key is a bad
    /// request, a key that does not decrypt is an internal fault.
    pub fn decrypted_key(&self, user_id: &String, provider: &String, master: &str) -> (r: Result<
        String,
        AppError,
    >)
        requires
            self.wf(),
        ensures
            !self@.contains_key((user_id@, provider@)) ==> (r is Err && r->Err_0 is BadRequest),
            !self@.contains_key((user_id@, provider@)) ==> r->Err_0->BadRequest_0@
                == missing_key_message(provider@),
            self@.contains_key((user_id@, provider@)) ==> match opened(
                master@,
                self@[(user_id@, provider@)],
            ) {
                Some(p) => r is Ok && r->Ok_0@ == p,
                None => r == Err::<String, AppError>(AppError::InternalServerError),
            },
            forall|p: Seq<char>|
                self@.get((user_id@, provider@)) == Some(#[trigger] sealed(master@, p)) ==> (
                r is Ok && r->Ok_0@ == p),
    {
        let stored = match self.position(user_id, provider) {
            None => None,
            Some(i) => Some(self.rows[i].encrypted_key.clone()),
        };
        decrypt_stored_key(provider.as_str(), &stored, master)
    }

    /// Removes the key of (`user_id`, `provider`); `NotFound` when there is none.
    pub fn delete_key(&mut self, user_id: &String, provider: &String) -> (r: Result<(), AppError>)
        requires
            old(self).wf(),
        ensures
            final(self).wf(),
            r is Ok <==> old(self)@.contains_key((user_id@, provider@)),
            r is Err ==> r->Err_0 is NotFound,
            final(self)@ == old(self)@.remove((user_id@, provider@)),
    {
        match self.position(user_id, provider) {
            None => {
                assert(self@.remove((user_id@, provider@)) =~= self@);
                Err(AppError::NotFound)
            },
            Some(i) => {
                let ghost k = (user_id@, provider@);
                let ghost old_rows = self.rows@;
                self.rows.remove(i);
                self.secrets = Ghost(self.secrets@.remove(k));
                proof {
                    assert forall|a: int, b: int|
                        0 <= a < b < self.rows.len() implies row_key(#[trigger] self.rows@[a]) != row_key(
                            #[trigger] self.rows@[b],
                        ) by {
                        let a0 = if a < i { a } else { a + 1 };
                        let b0 = if b < i { b } else { b + 1 };
                        assert(self.rows@[a] == old_rows[a0]);
                        assert(self.rows@[b] == old_rows[b0]);
                    }
                    assert forall|a: int| 0 <= a < self.rows.len() implies {
                        &&& self.secrets@.contains_key(row_key(#[trigger] self.rows@[a]))
                        &&& self.secrets@[row_key(self.rows@[a])] == self.rows@[a].encrypted_key@
                    } by {
                        let a0 = if a < i { a } else { a + 1 };
                        assert(self.rows@[a] == old_rows[a0]);
                        assert(row_key(old_rows[a0]) != row_key(old_rows[i as int]));
                    }
                    assert forall|kk: (Seq<char>, Seq<char>)| #[trigger] self.secrets@.contains_key(kk) implies exists|j: int|
                        0 <= j < self.rows.len() && row_key(#[trigger] self.rows@[j]) == kk by {
                        let j = choose|j: int| 0 <= j < old_rows.len() && row_key(#[trigger] old_rows[j]) == kk;
                        assert(j != i);
                        let j1 = if j < i { j } else { j - 1 };
                        assert(self.rows@[j1] == old_rows[j]);
                    }
                }
                Ok(())
            },
        }
    }
}

/// Adding a key twice for the same user and provider leaves one entry,
/// holding the second key.
pub proof fn law_key_upsert(
    table: Map<(Seq<char>, Seq<char>), Seq<char>>,
    user: Seq<char>,
    provider: Seq<char>,
    master: Seq<char>,
    first: Seq<char>,
    second: Seq<char>,
)
    ensures
        ({
            let t = table.insert((user, provider), sealed(master, first)).insert(
                (user, provider),
                sealed(master, second),
            );
            &&& t.contains_key((user, provider))
            &&& t[(user, provider)] == sealed(master, second)
            &&& t.len() == table.insert((user, provider), sealed(master, second)).len()
            &&& t.dom() == table.dom().insert((user, provider))
        }),
{
    let t = table.insert((user, provider), sealed(master, first)).insert(
        (user, provider),
        sealed(master, second),
    );
    assert(t =~= table.insert((user, provider), sealed(master, second)));
}

} // verus!
