//! Authentication: logging in with a password, looking a session token up,
//! giving a session up, and checking the API key.

use vstd::prelude::*;
use vstd::utf8::*;
use crate::crypto::{verify_password, accepts};
use crate::outcome::Outcome;
use crate::pawl::Pawl;
use crate::records::ApiKeyView;
use crate::session::{SessionView, AUTH_TIMEOUT_SECONDS, active, fresh_token, user_index};

verus! {

/// The parts of the authority that a request about sessions leaves alone.
pub open spec fn keeps_all_but_sessions(before: &Pawl, after: &Pawl) -> bool {
    &&& after.users == before.users
    &&& after.devices == before.devices
    &&& after.policy == before.policy
    &&& after.api_keys == before.api_keys
    &&& after.bus == before.bus
    &&& after.gutter == before.gutter
}

/// The hash that a login is checked against: the user's own, or the decoy
/// where the user is unknown.
pub open spec fn login_hash(pawl: &Pawl, username: Seq<char>) -> Seq<char> {
    if pawl.users@.contains_key(username) {
        pawl.users@[username].passhash
    } else {
        pawl.gutter@
    }
}

/// Whether any stored API key record holds the key.
pub open spec fn knows_api_key(keys: Map<Seq<char>, ApiKeyView>, key: Seq<char>) -> bool {
    exists|k: Seq<char>| keys.contains_key(k) && #[trigger] keys[k].api_key == key
}

/// A session that a login opened: its token, and the instant at which it
/// runs out and the token is to be purged.
#[derive(Debug)]
pub struct Login {
    pub token: String,
    pub expiry: u64,
}

impl Pawl {
    /// Finishes a login whose password check has been made: opens a session
    /// under the token where the check accepted the password and the user
    /// exists, and refuses otherwise.
    pub fn login_with(&mut self, username: &String, accepted: bool, token: String, now: u64) -> (issued:
        Option<Login>)
        requires
            old(self).wf(),
            now + AUTH_TIMEOUT_SECONDS <= u64::MAX,
        ensures
            final(self).wf(),
            keeps_all_but_sessions(old(self), final(self)),
            issued is Some <==> accepted && old(self).users@.contains_key(username@),
            issued matches Some(l) ==> l.token@ == token@ && l.expiry == now
                + AUTH_TIMEOUT_SECONDS && final(self).sessions@ == old(self).sessions@.insert(
                token@,
                SessionView { expiry: (now + AUTH_TIMEOUT_SECONDS) as u64, owner: username@ },
            ),
            issued is None ==> final(self).sessions == old(self).sessions,
    {
        if accepted && self.users.contains(username) {
            let expiry = self.sessions.register(token.clone(), username, now);
            Some(Login { token, expiry })
        } else {
            None
        }
    }

    /// Checks a password for a login, exactly once: against the user's hash,
    /// or against the decoy where the user is unknown. The login is accepted
    /// where the user exists and the hash accepts the password; an unknown
    /// user is refused whatever the decoy says.
    pub fn check_login(&self, username: &String, password: &str) -> (accepted: bool)
        requires
            self.wf(),
        ensures
            accepted == (self.users@.contains_key(username@) && accepts(
                login_hash(self, username@),
                password@,
            )),
    {
        match self.users.get(username) {
            Some(user) => verify_password(password, user.passhash.as_str()),
            None => {
                let _ = verify_password(password, self.gutter.as_str());
                false
            },
        }
    }

    /// Logs a user in. The password is checked exactly once: against the
    /// user's hash, or against the decoy where the user is unknown. A fresh
    /// token is issued where the user exists and the hash accepts the
    /// password; every other login is refused alike.
    pub fn try_login(&mut self, username: &String, password: &str, now: u64) -> (issued: Option<
        Login,
    >)
        requires
            old(self).wf(),
            now + AUTH_TIMEOUT_SECONDS <= u64::MAX,
        ensures
            final(self).wf(),
            keeps_all_but_sessions(old(self), final(self)),
            issued is Some <==> old(self).users@.contains_key(username@) && accepts(
                login_hash(old(self), username@),
                password@,
            ),
            issued matches Some(l) ==> l.token@.len() == 36 && l.expiry == now
                + AUTH_TIMEOUT_SECONDS && final(self).sessions@ == old(self).sessions@.insert(
                l.token@,
                SessionView { expiry: (now + AUTH_TIMEOUT_SECONDS) as u64, owner: username@ },
            ),
            issued is None ==> final(self).sessions == old(self).sessions,
    {
        let accepted = self.check_login(username, password);
        let token = fresh_token();
        self.login_with(username, accepted, token, now)
    }

    /// Looks a session token up at an instant. An active session gives its
    /// owner. An expired session is purged and is unauthorized, as an unknown
    /// token is.
    pub fn authenticate(&mut self, token: &String, now: u64) -> (user: Result<String, Outcome>)
        requires
            old(self).wf(),
        ensures
            final(self).wf(),
            keeps_all_but_sessions(old(self), final(self)),
            user is Ok <==> old(self).sessions@.contains_key(token@) && active(
                old(self).sessions@[token@],
                now,
            ),
            user matches Ok(u) ==> {
                &&& u@ == old(self).sessions@[token@].owner
                &&& final(self).sessions@ == old(self).sessions@
            },
            user matches Err(e) ==> {
                &&& e == Outcome::Unauthorized
                &&& final(self).sessions@ == old(self).sessions@.remove(token@)
            },
    {
        match self.sessions.authenticate(token, now) {
            Some(user) => Ok(user),
            None => Err(Outcome::Unauthorized),
        }
    }

    /// Gives up a session: the token is purged from the token map and from
    /// the reverse index, whatever its state. Giving up a token that has
    /// expired or is not open is no error and changes nothing else.
    pub fn hangup(&mut self, token: &String) -> (outcome: Outcome)
        requires
            old(self).wf(),
        ensures
            final(self).wf(),
            keeps_all_but_sessions(old(self), final(self)),
            outcome == Outcome::Done,
            final(self).sessions@ == old(self).sessions@.remove(token@),
            final(self).sessions.index() == user_index(old(self).sessions@.remove(token@)),
            !old(self).sessions@.contains_key(token@) ==> {
                final(self).sessions@ == old(self).sessions@
            },
    {
        let _ = self.sessions.purge(token);
        proof {
            self.sessions.lemma_index();
        }
        Outcome::Done
    }

    /// Purges a token when its session has run out. A token that was purged
    /// before is left alone.
    pub fn wipe_cookie(&mut self, uuid: &String) -> (was_open: bool)
        requires
            old(self).wf(),
        ensures
            final(self).wf(),
            keeps_all_but_sessions(old(self), final(self)),
            was_open == old(self).sessions@.contains_key(uuid@),
            final(self).sessions@ == old(self).sessions@.remove(uuid@),
            final(self).sessions.index() == user_index(old(self).sessions@.remove(uuid@)),
            !was_open ==> final(self).sessions@ == old(self).sessions@,
    {
        let was_open = self.sessions.purge(uuid);
        proof {
            self.sessions.lemma_index();
        }
        was_open
    }

    /// Checks an API key against the stored one.
    pub fn authenticate_api(&self, api_key: &String) -> (outcome: Outcome)
        requires
            self.wf(),
        ensures
            outcome == if knows_api_key(self.api_keys@, api_key@) {
                Outcome::Done
            } else {
                Outcome::NotFound
            },
    {
        let n = self.api_keys.len();
        let mut i: usize = 0;
        proof {
            self.api_keys.lemma_wf();
        }
        while i < n
            invariant
                self.wf(),
                n == self.api_keys.order().len(),
                i <= n,
                forall|j: int|
                    0 <= j < i ==> self.api_keys@[#[trigger] self.api_keys.order()[j]].api_key
                        != api_key@,
            decreases n - i,
        {
            if self.api_keys.record_at(i).api_key == *api_key {
                proof {
                    let k = self.api_keys.order()[i as int];
                    assert(self.api_keys@.contains_key(k) && self.api_keys@[k].api_key
                        == api_key@);
                }
                return Outcome::Done;
            }
            i += 1;
        }
        proof {
            if knows_api_key(self.api_keys@, api_key@) {
                let k = choose|k: Seq<char>|
                    self.api_keys@.contains_key(k) && #[trigger] self.api_keys@[k].api_key
                        == api_key@;
                assert(self.api_keys.order().contains(k));
                let j = self.api_keys.order().index_of(k);
                assert(self.api_keys.order()[j] == k);
            }
        }
        Outcome::NotFound
    }
}

} // verus!
