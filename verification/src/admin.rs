//! Administration of users and devices: each request changes the mirror,
//! names the durable write that goes with it, and ends the sessions of a user
//! whose record changed.

use vstd::prelude::*;
use vstd::utf8::*;
use crate::bus::after_notify;
use crate::crypto::{hash_password, accepts, in_cipher_domain};
use crate::outcome::Outcome;
use crate::pawl::{Pawl, Reply, users_table_name, devs_table_name};
use crate::records::{RatchetUserEntry, RatchetDevEntry, UserView, DevView};
use crate::session::without_user;
use crate::table::{DurableOp, DurableOpView, payload, sealed};

verus! {

/// The parts of the authority that a request about users leaves alone.
pub open spec fn keeps_all_but_users(before: &Pawl, after: &Pawl) -> bool {
    &&& after.devices == before.devices
    &&& after.policy == before.policy
    &&& after.api_keys == before.api_keys
    &&& after.gutter == before.gutter
    &&& after.users.masking_key() == before.users.masking_key()
}

/// The parts of the authority that a request about devices leaves alone.
pub open spec fn keeps_all_but_devices(before: &Pawl, after: &Pawl) -> bool {
    &&& after.users == before.users
    &&& after.policy == before.policy
    &&& after.api_keys == before.api_keys
    &&& after.sessions == before.sessions
    &&& after.gutter == before.gutter
    &&& after.devices.masking_key() == before.devices.masking_key()
}

/// A request that was turned down changes nothing and wakes nobody.
pub open spec fn turned_down(before: &Pawl, after: &Pawl, reply: &Reply, why: Outcome) -> bool {
    &&& reply.outcome == why
    &&& reply.write is None
    &&& reply.woken@.len() == 0
    &&& after.users.same_as(&before.users)
    &&& after.devices.same_as(&before.devices)
    &&& after.sessions@ == before.sessions@
    &&& after.bus@ == before.bus@
}

/// A request that was carried out names its durable write, moves the epoch
/// on by one and wakes every parked waiter.
pub open spec fn carried_out(before: &Pawl, after: &Pawl, reply: &Reply, write: DurableOpView) -> bool {
    &&& reply.outcome == Outcome::Done
    &&& reply.write matches Some(w) && w@ == write
    &&& reply.woken@ == before.bus@.waiting
    &&& after.bus@ == after_notify(before.bus@)
}

/// A user record that is ready to be stored, with the durable write that
/// stores it.
#[derive(Debug)]
pub struct PlannedUser {
    pub record: RatchetUserEntry,
    pub write: DurableOp,
}

/// Whether a planned user record holds the user name with a hash that accepts
/// the password, and the planned write stores that record in the table of
/// users.
pub open spec fn plans_user(
    pawl: &Pawl,
    planned: &PlannedUser,
    username: Seq<char>,
    password: Seq<char>,
) -> bool {
    &&& planned.record@.username == username
    &&& accepts(planned.record@.passhash, password)
    &&& planned.write@ == (DurableOpView::Upsert {
        table: users_table_name(),
        key: username,
        value: sealed::<RatchetUserEntry>(pawl.users.masking_key(), planned.record@),
    })
}

impl Pawl {
    /// Prepares the adding of a user and leaves the authority as it is: the
    /// password is hashed and the record sealed, so that the durable write
    /// can be carried out before the user is added with that hash. A user
    /// that exists is a conflict and nothing is hashed; a password that
    /// cannot be hashed is a conflict too.
    pub fn plan_add_user(&self, username: String, password: &str) -> (planned: Result<
        PlannedUser,
        Outcome,
    >)
        requires
            self.wf(),
        ensures
            self.users@.contains_key(username@) ==> planned == Err::<PlannedUser, Outcome>(
                Outcome::Conflict,
            ),
            planned matches Ok(p) ==> !self.users@.contains_key(username@) && plans_user(
                self,
                &p,
                username@,
                password@,
            ),
            planned matches Err(e) ==> e == Outcome::Conflict || e == Outcome::Failed,
    {
        if self.users.contains(&username) {
            return Err(Outcome::Conflict);
        }
        let passhash = match hash_password(password) {
            Some(passhash) => passhash,
            None => { return Err(Outcome::Conflict); },
        };
        let record = RatchetUserEntry { username, passhash };
        match self.users.plan_add(&record) {
            Ok(write) => Ok(PlannedUser { record, write }),
            Err(e) => Err(e),
        }
    }

    /// Prepares the editing of a user and leaves the authority as it is: the
    /// new password is hashed and the record sealed, so that the durable write
    /// can be carried out before the user is edited with that hash. An
    /// unknown user is gone and nothing is hashed; a password that cannot be
    /// hashed is gone too.
    pub fn plan_edit_user(&self, username: String, password: &str) -> (planned: Result<
        PlannedUser,
        Outcome,
    >)
        requires
            self.wf(),
        ensures
            !self.users@.contains_key(username@) ==> planned == Err::<PlannedUser, Outcome>(
                Outcome::Gone,
            ),
            planned matches Ok(p) ==> self.users@.contains_key(username@) && plans_user(
                self,
                &p,
                username@,
                password@,
            ),
            planned matches Err(e) ==> e == Outcome::Gone || e == Outcome::Failed,
    {
        if !self.users.contains(&username) {
            return Err(Outcome::Gone);
        }
        let passhash = match hash_password(password) {
            Some(passhash) => passhash,
            None => { return Err(Outcome::Gone); },
        };
        let record = RatchetUserEntry { username, passhash };
        match self.users.plan_edit(&record) {
            Ok(write) => Ok(PlannedUser { record, write }),
            Err(e) => Err(e),
        }
    }

    /// Removes a user and ends every session of that user. An unknown user
    /// is gone already.
    pub fn rm_user(&mut self, username: &String) -> (reply: Reply)
        requires
            old(self).wf(),
        ensures
            final(self).wf(),
            keeps_all_but_users(old(self), final(self)),
            old(self).users@.contains_key(username@) ==> {
                &&& carried_out(
                    old(self),
                    final(self),
                    &reply,
                    DurableOpView::Remove { table: users_table_name(), key: username@ },
                )
                &&& final(self).users@ == old(self).users@.remove(username@)
                &&& final(self).users.durable() == old(self).users.durable().remove(username@)
                &&& final(self).sessions@ == without_user(old(self).sessions@, username@)
                &&& !final(self).sessions.index().contains_key(username@)
            },
            !old(self).users@.contains_key(username@) ==> turned_down(
                old(self),
                final(self),
                &reply,
                Outcome::Gone,
            ),
    {
        let removed = self.users.remove(username);
        if removed.is_ok() {
            let _ = self.sessions.purge_user(username);
        }
        self.settle(removed)
    }

    /// Adds a user whose password has been hashed already, or could not be.
    /// A user that exists is a conflict, and so is a password that could not
    /// be hashed.
    pub fn add_user_hashed(&mut self, username: String, passhash: Option<String>) -> (reply: Reply)
        requires
            old(self).wf(),
        ensures
            final(self).wf(),
            keeps_all_but_users(old(self), final(self)),
            final(self).sessions == old(self).sessions,
            match passhash {
                Some(h) if !old(self).users@.contains_key(username@) => {
                    let record = UserView { username: username@, passhash: h@ };
                    if in_cipher_domain(payload::<RatchetUserEntry>(record).len()) {
                        &&& carried_out(
                            old(self),
                            final(self),
                            &reply,
                            DurableOpView::Upsert {
                                table: users_table_name(),
                                key: username@,
                                value: sealed::<RatchetUserEntry>(
                                    old(self).users.masking_key(),
                                    record,
                                ),
                            },
                        )
                        &&& final(self).users@ == old(self).users@.insert(username@, record)
                        &&& final(self).users.durable() == old(self).users.durable().insert(
                            username@,
                            sealed::<RatchetUserEntry>(old(self).users.masking_key(), record),
                        )
                    } else {
                        turned_down(old(self), final(self), &reply, Outcome::Failed)
                    }
                },
                _ => turned_down(old(self), final(self), &reply, Outcome::Conflict),
            },
    {
        if self.users.contains(&username) {
            return self.settle(Err(Outcome::Conflict));
        }
        match passhash {
            Some(passhash) => {
                let added = self.users.add(RatchetUserEntry { username, passhash });
                self.settle(added)
            },
            None => self.settle(Err(Outcome::Conflict)),
        }
    }

    /// Adds a user with a password, which is hashed before it is stored.
    /// A user that exists is a conflict and nothing is hashed. A user that is
    /// added is stored with a hash that accepts the password.
    pub fn add_user(&mut self, username: String, password: &str) -> (reply: Reply)
        requires
            old(self).wf(),
        ensures
            final(self).wf(),
            keeps_all_but_users(old(self), final(self)),
            final(self).sessions == old(self).sessions,
            old(self).users@.contains_key(username@) ==> turned_down(
                old(self),
                final(self),
                &reply,
                Outcome::Conflict,
            ),
            reply.outcome == Outcome::Done || turned_down(
                old(self),
                final(self),
                &reply,
                reply.outcome,
            ),
            reply.outcome == Outcome::Done || reply.outcome == Outcome::Conflict || reply.outcome
                == Outcome::Failed,
            reply.outcome == Outcome::Done ==> {
                &&& !old(self).users@.contains_key(username@)
                &&& final(self).users@.contains_key(username@)
                &&& final(self).users@[username@].username == username@
                &&& accepts(final(self).users@[username@].passhash, password@)
                &&& final(self).users@ == old(self).users@.insert(
                    username@,
                    final(self).users@[username@],
                )
                &&& carried_out(
                    old(self),
                    final(self),
                    &reply,
                    DurableOpView::Upsert {
                        table: users_table_name(),
                        key: username@,
                        value: sealed::<RatchetUserEntry>(
                            old(self).users.masking_key(),
                            final(self).users@[username@],
                        ),
                    },
                )
                &&& final(self).users.durable() == old(self).users.durable().insert(
                    username@,
                    sealed::<RatchetUserEntry>(
                        old(self).users.masking_key(),
                        final(self).users@[username@],
                    ),
                )
            },
    {
        if self.users.contains(&username) {
            return self.settle(Err(Outcome::Conflict));
        }
        let passhash = hash_password(password);
        self.add_user_hashed(username, passhash)
    }

    /// Replaces the password hash of a user and ends every session of that
    /// user. An unknown user is gone, and so is a password that could not be
    /// hashed.
    pub fn edit_user_hashed(&mut self, username: String, passhash: Option<String>) -> (reply: Reply)
        requires
            old(self).wf(),
        ensures
            final(self).wf(),
            keeps_all_but_users(old(self), final(self)),
            match passhash {
                Some(h) if old(self).users@.contains_key(username@) => {
                    let record = UserView { username: username@, passhash: h@ };
                    if in_cipher_domain(payload::<RatchetUserEntry>(record).len()) {
                        &&& carried_out(
                            old(self),
                            final(self),
                            &reply,
                            DurableOpView::Upsert {
                                table: users_table_name(),
                                key: username@,
                                value: sealed::<RatchetUserEntry>(
                                    old(self).users.masking_key(),
                                    record,
                                ),
                            },
                        )
                        &&& final(self).users@ == old(self).users@.insert(username@, record)
                        &&& final(self).users.durable() == old(self).users.durable().insert(
                            username@,
                            sealed::<RatchetUserEntry>(old(self).users.masking_key(), record),
                        )
                        &&& final(self).sessions@ == without_user(old(self).sessions@, username@)
                        &&& !final(self).sessions.index().contains_key(username@)
                    } else {
                        turned_down(old(self), final(self), &reply, Outcome::Failed)
                    }
                },
                _ => turned_down(old(self), final(self), &reply, Outcome::Gone),
            },
    {
        if !self.users.contains(&username) {
            return self.settle(Err(Outcome::Gone));
        }
        match passhash {
            Some(passhash) => {
                let owner = username.clone();
                let edited = self.users.edit(RatchetUserEntry { username, passhash });
                if edited.is_ok() {
                    let _ = self.sessions.purge_user(&owner);
                }
                self.settle(edited)
            },
            None => self.settle(Err(Outcome::Gone)),
        }
    }

    /// Gives a user a new password, which is hashed before it is stored, and
    /// ends every session of that user. An unknown user is gone and nothing is
    /// hashed. A user that is edited is stored with a hash that accepts the
    /// new password.
    pub fn edit_user(&mut self, username: String, password: &str) -> (reply: Reply)
        requires
            old(self).wf(),
        ensures
            final(self).wf(),
            keeps_all_but_users(old(self), final(self)),
            !old(self).users@.contains_key(username@) ==> turned_down(
                old(self),
                final(self),
                &reply,
                Outcome::Gone,
            ),
            reply.outcome == Outcome::Done || turned_down(
                old(self),
                final(self),
                &reply,
                reply.outcome,
            ),
            reply.outcome == Outcome::Done || reply.outcome == Outcome::Gone || reply.outcome
                == Outcome::Failed,
            reply.outcome == Outcome::Done ==> {
                &&& old(self).users@.contains_key(username@)
                &&& final(self).users@.contains_key(username@)
                &&& final(self).users@[username@].username == username@
                &&& accepts(final(self).users@[username@].passhash, password@)
                &&& final(self).users@ == old(self).users@.insert(
                    username@,
                    final(self).users@[username@],
                )
                &&& carried_out(
                    old(self),
                    final(self),
                    &reply,
                    DurableOpView::Upsert {
                        table: users_table_name(),
                        key: username@,
                        value: sealed::<RatchetUserEntry>(
                            old(self).users.masking_key(),
                            final(self).users@[username@],
                        ),
                    },
                )
                &&& final(self).users.durable() == old(self).users.durable().insert(
                    username@,
                    sealed::<RatchetUserEntry>(
                        old(self).users.masking_key(),
                        final(self).users@[username@],
                    ),
                )
                &&& final(self).sessions@ == without_user(old(self).sessions@, username@)
                &&& !final(self).sessions.index().contains_key(username@)
            },
    {
        if !self.users.contains(&username) {
            return self.settle(Err(Outcome::Gone));
        }
        let passhash = hash_password(password);
        self.edit_user_hashed(username, passhash)
    }

    /// Removes a device. An unknown device is gone already.
    pub fn rm_dev(&mut self, network_id: &String) -> (reply: Reply)
        requires
            old(self).wf(),
        ensures
            final(self).wf(),
            keeps_all_but_devices(old(self), final(self)),
            old(self).devices@.contains_key(network_id@) ==> {
                &&& carried_out(
                    old(self),
                    final(self),
                    &reply,
                    DurableOpView::Remove { table: devs_table_name(), key: network_id@ },
                )
                &&& final(self).devices@ == old(self).devices@.remove(network_id@)
                &&& final(self).devices.durable() == old(self).devices.durable().remove(
                    network_id@,
                )
            },
            !old(self).devices@.contains_key(network_id@) ==> turned_down(
                old(self),
                final(self),
                &reply,
                Outcome::Gone,
            ),
    {
        let removed = self.devices.remove(network_id);
        self.settle(removed)
    }

    /// Adds a device. A device that exists is a conflict.
    pub fn add_dev(&mut self, newdev: RatchetDevEntry) -> (reply: Reply)
        requires
            old(self).wf(),
        ensures
            final(self).wf(),
            keeps_all_but_devices(old(self), final(self)),
            if old(self).devices@.contains_key(newdev@.network_id) {
                turned_down(old(self), final(self), &reply, Outcome::Conflict)
            } else if in_cipher_domain(payload::<RatchetDevEntry>(newdev@).len()) {
                &&& carried_out(
                    old(self),
                    final(self),
                    &reply,
                    DurableOpView::Upsert {
                        table: devs_table_name(),
                        key: newdev@.network_id,
                        value: sealed::<RatchetDevEntry>(old(self).devices.masking_key(), newdev@),
                    },
                )
                &&& final(self).devices@ == old(self).devices@.insert(newdev@.network_id, newdev@)
                &&& final(self).devices.durable() == old(self).devices.durable().insert(
                    newdev@.network_id,
                    sealed::<RatchetDevEntry>(old(self).devices.masking_key(), newdev@),
                )
            } else {
                turned_down(old(self), final(self), &reply, Outcome::Failed)
            },
    {
        let added = self.devices.add(newdev);
        self.settle(added)
    }

    /// Replaces the shared secret of a device. An unknown device is gone.
    pub fn edit_dev(&mut self, edited: RatchetDevEntry) -> (reply: Reply)
        requires
            old(self).wf(),
        ensures
            final(self).wf(),
            keeps_all_but_devices(old(self), final(self)),
            if !old(self).devices@.contains_key(edited@.network_id) {
                turned_down(old(self), final(self), &reply, Outcome::Gone)
            } else if in_cipher_domain(payload::<RatchetDevEntry>(edited@).len()) {
                &&& carried_out(
                    old(self),
                    final(self),
                    &reply,
                    DurableOpView::Upsert {
                        table: devs_table_name(),
                        key: edited@.network_id,
                        value: sealed::<RatchetDevEntry>(old(self).devices.masking_key(), edited@),
                    },
                )
                &&& final(self).devices@ == old(self).devices@.insert(edited@.network_id, edited@)
                &&& final(self).devices.durable() == old(self).devices.durable().insert(
                    edited@.network_id,
                    sealed::<RatchetDevEntry>(old(self).devices.masking_key(), edited@),
                )
            } else {
                turned_down(old(self), final(self), &reply, Outcome::Failed)
            },
    {
        let updated = self.devices.edit(edited);
        self.settle(updated)
    }
}

} // verus!
