//! What startup adds to empty tables: the first user, the API key, the
//! command policy, and the decoy hash for logins.

use vstd::prelude::*;
use vstd::utf8::*;
use crate::crypto::{
    hash_password, random_printable, bcrypt_verify, accepts, all_printable, is_hash_text,
    in_cipher_domain, HASH_LEN,
};
use crate::outcome::Outcome;
use crate::pawl::{Pawl, users_table_name, apikey_table_name, policy_table_name};
use crate::records::{
    RatchetUserEntry, RatchetApiKey, RatchetUserCmdPolicy, UserView, ApiKeyView, CmdPolicyView,
};
use crate::table::{DurableOp, DurableOpView, sealed, payload};

verus! {

/// Length of the first user's password.
pub const FIRST_PASSWORD_LEN: usize = 16;

/// Length of the API key.
pub const API_KEY_LEN: usize = 128;

/// Length of the text that the decoy hash is made from.
pub const GUTTER_LEN: usize = 72;

/// The name of the first user.
pub open spec fn first_username() -> Seq<char> {
    "DefaultRatchetUser"@
}

/// The command policy that an empty table starts with.
pub open spec fn first_policy() -> Seq<char> {
    "$\n(\n)"@
}

/// A secret made at startup, to be shown to the operator once, with the
/// durable write that stores what was made of it.
#[derive(Debug)]
pub struct Minted {
    pub secret: String,
    pub write: DurableOp,
}

/// Whether a command policy is stored that is not empty.
pub open spec fn has_policy(pawl: &Pawl) -> bool {
    pawl.policy@.contains_key("singleton"@) && pawl.policy@["singleton"@].body.len() != 0
}

/// The parts of the authority that startup leaves alone.
pub open spec fn keeps_sessions_and_bus(before: &Pawl, after: &Pawl) -> bool {
    &&& after.sessions == before.sessions
    &&& after.bus == before.bus
}

/// The text that the decoy hash is made from: 72 printable characters.
pub fn rt_generate_gutter_string() -> (text: Option<String>)
    ensures
        text matches Some(t) ==> encode_utf8(t@).len() == GUTTER_LEN && all_printable(
            encode_utf8(t@),
        ),
{
    random_printable(GUTTER_LEN)
}

impl Pawl {
    /// Sets the decoy hash to the given hash, and says whether one was given.
    /// Without a hash the decoy stays as it is.
    pub fn install_gutter(&mut self, hash: Option<String>) -> (done: bool)
        ensures
            final(self).users == old(self).users,
            final(self).devices == old(self).devices,
            final(self).policy == old(self).policy,
            final(self).api_keys == old(self).api_keys,
            keeps_sessions_and_bus(old(self), final(self)),
            done == hash is Some,
            final(self).gutter == match hash {
                Some(h) => h,
                None => old(self).gutter,
            },
    {
        match hash {
            Some(hash) => {
                self.gutter = hash;
                true
            },
            None => false,
        }
    }

    /// Sets the decoy hash to the hash of a random text of 72 printable
    /// characters, and says whether it could.
    pub fn rt_generate_gutter(&mut self) -> (done: bool)
        ensures
            final(self).users == old(self).users,
            final(self).devices == old(self).devices,
            final(self).policy == old(self).policy,
            final(self).api_keys == old(self).api_keys,
            keeps_sessions_and_bus(old(self), final(self)),
            !done ==> final(self).gutter == old(self).gutter,
            done ==> is_hash_text(encode_utf8(final(self).gutter@)) && encode_utf8(
                final(self).gutter@,
            ).len() == HASH_LEN,
            done ==> exists|text: Seq<u8>|
                text.len() == GUTTER_LEN && all_printable(text) && #[trigger] bcrypt_verify(
                    text,
                    final(self).gutter@,
                ),
    {
        match rt_generate_gutter_string() {
            Some(text) => {
                let hash = hash_password(text.as_str());
                let done = self.install_gutter(hash);
                assert(done ==> bcrypt_verify(encode_utf8(text@), self.gutter@));
                done
            },
            None => false,
        }
    }

    /// Stores the first user with the given password hash, unless the table
    /// of users holds a user already.
    pub fn install_first_user(&mut self, passhash: String) -> (write: Result<
        Option<DurableOp>,
        Outcome,
    >)
        requires
            old(self).wf(),
        ensures
            final(self).wf(),
            final(self).devices == old(self).devices,
            final(self).policy == old(self).policy,
            final(self).api_keys == old(self).api_keys,
            final(self).gutter == old(self).gutter,
            keeps_sessions_and_bus(old(self), final(self)),
            old(self).users@.len() != 0 ==> write == Ok::<Option<DurableOp>, Outcome>(None)
                && final(self).users.same_as(&old(self).users),
            old(self).users@.len() == 0 ==> (write is Ok <==> in_cipher_domain(
                payload::<RatchetUserEntry>(
                    UserView { username: first_username(), passhash: passhash@ },
                ).len(),
            )),
            old(self).users@.len() == 0 ==> {
                let record = UserView { username: first_username(), passhash: passhash@ };
                match write {
                    Ok(Some(w)) => {
                        &&& w@ == (DurableOpView::Upsert {
                            table: users_table_name(),
                            key: first_username(),
                            value: sealed::<RatchetUserEntry>(
                                old(self).users.masking_key(),
                                record,
                            ),
                        })
                        &&& final(self).users@ == Map::<Seq<char>, UserView>::empty().insert(
                            first_username(),
                            record,
                        )
                        &&& final(self).users@.len() == 1
                    },
                    Ok(None) => false,
                    Err(e) => e == Outcome::Failed && final(self).users.same_as(
                        &old(self).users,
                    ),
                }
            },
    {
        proof {
            self.users.lemma_wf();
        }
        if self.users.len() != 0 {
            return Ok(None);
        }
        assert(old(self).users@ =~= Map::<Seq<char>, UserView>::empty());
        let first = RatchetUserEntry { username: "DefaultRatchetUser".to_owned(), passhash };
        match self.users.add(first) {
            Ok(op) => Ok(Some(op)),
            Err(_) => Err(Outcome::Failed),
        }
    }

    /// Makes sure that a user exists who can administer the system: where
    /// the table of users is empty, stores the first user with a fresh
    /// password of 16 printable characters, hashed, and hands the password out.
    pub fn initialize_first_user(&mut self) -> (minted: Result<Option<Minted>, Outcome>)
        requires
            old(self).wf(),
        ensures
            final(self).wf(),
            final(self).devices == old(self).devices,
            final(self).policy == old(self).policy,
            final(self).api_keys == old(self).api_keys,
            final(self).gutter == old(self).gutter,
            keeps_sessions_and_bus(old(self), final(self)),
            minted matches Ok(None) <==> old(self).users@.len() != 0,
            !(minted matches Ok(Some(_))) ==> final(self).users.same_as(&old(self).users),
            minted matches Err(e) ==> e == Outcome::Failed,
            minted matches Ok(Some(m)) ==> {
                &&& old(self).users@.len() == 0
                &&& encode_utf8(m.secret@).len() == FIRST_PASSWORD_LEN
                &&& all_printable(encode_utf8(m.secret@))
                &&& final(self).users@.len() == 1
                &&& final(self).users@.dom() == set![first_username()]
                &&& final(self).users@[first_username()].username == first_username()
                &&& accepts(final(self).users@[first_username()].passhash, m.secret@)
                &&& final(self).users@[first_username()].passhash != m.secret@
                &&& m.write@ == (DurableOpView::Upsert {
                    table: users_table_name(),
                    key: first_username(),
                    value: sealed::<RatchetUserEntry>(
                        old(self).users.masking_key(),
                        final(self).users@[first_username()],
                    ),
                })
            },
    {
        proof {
            self.users.lemma_wf();
        }
        if self.users.len() != 0 {
            return Ok(None);
        }
        let secret = match random_printable(FIRST_PASSWORD_LEN) {
            Some(secret) => secret,
            None => { return Err(Outcome::Failed); },
        };
        let passhash = match hash_password(secret.as_str()) {
            Some(passhash) => passhash,
            None => { return Err(Outcome::Failed); },
        };
        match self.install_first_user(passhash) {
            Ok(Some(write)) => {
                assert(final(self).users@.dom() =~= set![first_username()]);
                Ok(Some(Minted { secret, write }))
            },
            Ok(None) => Ok(None),
            Err(e) => Err(e),
        }
    }

    /// Stores the given API key, unless the table of API keys holds one
    /// already.
    pub fn install_api_key(&mut self, api_key: String) -> (write: Result<
        Option<DurableOp>,
        Outcome,
    >)
        requires
            old(self).wf(),
        ensures
            final(self).wf(),
            final(self).users == old(self).users,
            final(self).devices == old(self).devices,
            final(self).policy == old(self).policy,
            final(self).gutter == old(self).gutter,
            keeps_sessions_and_bus(old(self), final(self)),
            old(self).api_keys@.len() != 0 ==> write == Ok::<Option<DurableOp>, Outcome>(None)
                && final(self).api_keys.same_as(&old(self).api_keys),
            old(self).api_keys@.len() == 0 ==> (write is Ok <==> in_cipher_domain(
                payload::<RatchetApiKey>(ApiKeyView { api_key: api_key@ }).len(),
            )),
            old(self).api_keys@.len() == 0 ==> {
                let record = ApiKeyView { api_key: api_key@ };
                match write {
                    Ok(Some(w)) => {
                        &&& w@ == (DurableOpView::Upsert {
                            table: apikey_table_name(),
                            key: "-"@,
                            value: sealed::<RatchetApiKey>(
                                old(self).api_keys.masking_key(),
                                record,
                            ),
                        })
                        &&& final(self).api_keys@ == Map::<Seq<char>, ApiKeyView>::empty().insert(
                            "-"@,
                            record,
                        )
                    },
                    Ok(None) => false,
                    Err(e) => e == Outcome::Failed && final(self).api_keys.same_as(
                        &old(self).api_keys,
                    ),
                }
            },
    {
        proof {
            self.api_keys.lemma_wf();
        }
        if self.api_keys.len() != 0 {
            return Ok(None);
        }
        assert(old(self).api_keys@ =~= Map::<Seq<char>, ApiKeyView>::empty());
        match self.api_keys.add(RatchetApiKey { api_key }) {
            Ok(op) => Ok(Some(op)),
            Err(_) => Err(Outcome::Failed),
        }
    }

    /// Makes sure that an API key exists: where the table of API keys is
    /// empty, stores a fresh key of 128 printable characters and hands it out.
    pub fn initialize_api_key(&mut self) -> (minted: Result<Option<Minted>, Outcome>)
        requires
            old(self).wf(),
        ensures
            final(self).wf(),
            final(self).users == old(self).users,
            final(self).devices == old(self).devices,
            final(self).policy == old(self).policy,
            final(self).gutter == old(self).gutter,
            keeps_sessions_and_bus(old(self), final(self)),
            minted matches Ok(None) <==> old(self).api_keys@.len() != 0,
            !(minted matches Ok(Some(_))) ==> final(self).api_keys.same_as(&old(self).api_keys),
            minted matches Err(e) ==> e == Outcome::Failed,
            minted matches Ok(Some(m)) ==> {
                &&& old(self).api_keys@.len() == 0
                &&& encode_utf8(m.secret@).len() == API_KEY_LEN
                &&& all_printable(encode_utf8(m.secret@))
                &&& final(self).api_keys@ == Map::<Seq<char>, ApiKeyView>::empty().insert(
                    "-"@,
                    ApiKeyView { api_key: m.secret@ },
                )
                &&& m.write@ == (DurableOpView::Upsert {
                    table: apikey_table_name(),
                    key: "-"@,
                    value: sealed::<RatchetApiKey>(
                        old(self).api_keys.masking_key(),
                        ApiKeyView { api_key: m.secret@ },
                    ),
                })
            },
    {
        proof {
            self.api_keys.lemma_wf();
        }
        if self.api_keys.len() != 0 {
            return Ok(None);
        }
        let secret = match random_printable(API_KEY_LEN) {
            Some(secret) => secret,
            None => { return Err(Outcome::Failed); },
        };
        match self.install_api_key(secret.clone()) {
            Ok(Some(write)) => Ok(Some(Minted { secret, write })),
            Ok(None) => Ok(None),
            Err(e) => Err(e),
        }
    }

    /// Makes sure that a command policy exists: where none is stored, or the
    /// stored one is empty, stores the starting policy.
    pub fn initialize_user_cmd_pol(&mut self) -> (write: Result<Option<DurableOp>, Outcome>)
        requires
            old(self).wf(),
        ensures
            final(self).wf(),
            final(self).users == old(self).users,
            final(self).devices == old(self).devices,
            final(self).api_keys == old(self).api_keys,
            final(self).gutter == old(self).gutter,
            keeps_sessions_and_bus(old(self), final(self)),
            has_policy(old(self)) ==> {
                &&& write == Ok::<Option<DurableOp>, Outcome>(None)
                &&& final(self).policy.same_as(&old(self).policy)
            },
            !has_policy(old(self)) ==> (write is Ok <==> in_cipher_domain(
                payload::<RatchetUserCmdPolicy>(CmdPolicyView { body: first_policy() }).len(),
            )),
            !has_policy(old(self)) ==> match write {
                Ok(Some(w)) => {
                    &&& w@ == (DurableOpView::Upsert {
                        table: policy_table_name(),
                        key: "singleton"@,
                        value: sealed::<RatchetUserCmdPolicy>(
                            old(self).policy.masking_key(),
                            CmdPolicyView { body: first_policy() },
                        ),
                    })
                    &&& final(self).policy@ == old(self).policy@.insert(
                        "singleton"@,
                        CmdPolicyView { body: first_policy() },
                    )
                },
                Ok(None) => false,
                Err(e) => e == Outcome::Failed && final(self).policy.same_as(&old(self).policy),
            },
    {
        let key = "singleton".to_owned();
        let stored: Option<bool> = match self.policy.get(&key) {
            Some(policy) => Some(policy.0.as_str().is_empty()),
            None => None,
        };
        let first = RatchetUserCmdPolicy("$\n(\n)".to_owned());
        let written = match stored {
            Some(false) => { return Ok(None); },
            Some(true) => self.policy.edit(first),
            None => self.policy.add(first),
        };
        match written {
            Ok(op) => Ok(Some(op)),
            Err(_) => Err(Outcome::Failed),
        }
    }
}

} // verus!
