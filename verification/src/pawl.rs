//! The authority as a whole: the four record mirrors, the open sessions
//! and the notification bus, loaded from the durable tables at startup.

use vstd::prelude::*;
use vstd::string::*;
use crate::bus::{RtpNotifier, after_notify, fresh_bus};
use crate::crypto::{MaskingKey, CryptoError};
use crate::mirror::{Mirror, rows_view, table_of, stops_at};
use crate::outcome::Outcome;
use crate::records::{
    RatchetUserEntry, RatchetDevEntry, RatchetApiKey, RatchetUserCmdPolicy, UserView, DevView,
    CmdPolicyView, ApiKeyView,
};
use crate::session::{SessionManager, user_index};
use crate::table::{ReadWriteTable, DurableOp, opened};

verus! {

/// The table of users.
pub open spec fn users_table_name() -> Seq<char> {
    "ratchet_users"@
}

/// The table of devices.
pub open spec fn devs_table_name() -> Seq<char> {
    "ratchet_devs"@
}

/// The table of the command policy.
pub open spec fn policy_table_name() -> Seq<char> {
    "ratchet_user_cmd_policy"@
}

/// The table of the API key.
pub open spec fn apikey_table_name() -> Seq<char> {
    "ratchet_api_keys"@
}

/// The table of users, masked by the key.
pub fn ratchet_users_table(key: &MaskingKey) -> (table: ReadWriteTable<RatchetUserEntry>)
    ensures
        table.name() == users_table_name(),
        table.masking_key() == key@,
{
    ReadWriteTable::new("ratchet_users", key)
}

/// The table of devices, masked by the key.
pub fn ratchet_devs_table(key: &MaskingKey) -> (table: ReadWriteTable<RatchetDevEntry>)
    ensures
        table.name() == devs_table_name(),
        table.masking_key() == key@,
{
    ReadWriteTable::new("ratchet_devs", key)
}

/// The table of the command policy, masked by the key.
pub fn ratchet_user_cmd_policy_table(key: &MaskingKey) -> (table: ReadWriteTable<
    RatchetUserCmdPolicy,
>)
    ensures
        table.name() == policy_table_name(),
        table.masking_key() == key@,
{
    ReadWriteTable::new("ratchet_user_cmd_policy", key)
}

/// The table of the API key, masked by the key.
pub fn ratchet_apikey_table(key: &MaskingKey) -> (table: ReadWriteTable<RatchetApiKey>)
    ensures
        table.name() == apikey_table_name(),
        table.masking_key() == key@,
{
    ReadWriteTable::new("ratchet_api_keys", key)
}

/// What a request is answered with: its outcome, the durable write to carry
/// out, and the tickets of the long-poll waiters to wake.
#[derive(Debug)]
pub struct Reply {
    pub outcome: Outcome,
    pub write: Option<DurableOp>,
    pub woken: Vec<u64>,
}

/// The rows of the four durable tables, as read at startup.
pub struct Snapshot {
    pub users: Vec<(String, Vec<u8>)>,
    pub devices: Vec<(String, Vec<u8>)>,
    pub policy: Vec<(String, Vec<u8>)>,
    pub api_keys: Vec<(String, Vec<u8>)>,
}

/// The state of the authority.
pub struct Pawl {
    pub users: Mirror<RatchetUserEntry>,
    pub devices: Mirror<RatchetDevEntry>,
    pub policy: Mirror<RatchetUserCmdPolicy>,
    pub api_keys: Mirror<RatchetApiKey>,
    pub sessions: SessionManager,
    pub bus: RtpNotifier,
    /// The decoy hash that a login for an unknown user is checked against.
    pub gutter: String,
}

/// One line of a dump: a key, a comma, a secret and a line feed.
pub open spec fn dump_line(key: Seq<char>, secret: Seq<char>) -> Seq<char> {
    key + ","@ + secret + "\n"@
}

/// The dump of the users: one line for each key in order, with the password
/// hash filed under it.
pub open spec fn users_dump(order: Seq<Seq<char>>, users: Map<Seq<char>, UserView>) -> Seq<char>
    decreases order.len(),
{
    if order.len() == 0 {
        Seq::empty()
    } else {
        users_dump(order.drop_last(), users) + dump_line(
            order.last(),
            users[order.last()].passhash,
        )
    }
}

/// The dump of the devices: one line for each key in order, with the shared
/// secret filed under it.
pub open spec fn devs_dump(order: Seq<Seq<char>>, devices: Map<Seq<char>, DevView>) -> Seq<char>
    decreases order.len(),
{
    if order.len() == 0 {
        Seq::empty()
    } else {
        devs_dump(order.drop_last(), devices) + dump_line(order.last(), devices[order.last()].key)
    }
}

impl Pawl {
    /// Every mirror is consistent with its table, each table has its fixed
    /// name, and the session manager's two maps agree.
    pub open spec fn wf(&self) -> bool {
        &&& self.users.wf()
        &&& self.devices.wf()
        &&& self.policy.wf()
        &&& self.api_keys.wf()
        &&& self.sessions.wf()
        &&& self.users.table_name() == users_table_name()
        &&& self.devices.table_name() == devs_table_name()
        &&& self.policy.table_name() == policy_table_name()
        &&& self.api_keys.table_name() == apikey_table_name()
    }

    /// In a well-formed authority every mirror shows what its durable table
    /// holds, and the reverse index of the sessions is the one that the token
    /// map determines.
    pub proof fn lemma_mirrors_match_tables(&self)
        requires
            self.wf(),
        ensures
            self.users.consistent(),
            self.devices.consistent(),
            self.policy.consistent(),
            self.api_keys.consistent(),
            self.sessions.index() == user_index(self.sessions@),
    {
        self.users.lemma_wf();
        self.devices.lemma_wf();
        self.policy.lemma_wf();
        self.api_keys.lemma_wf();
        self.sessions.lemma_index();
    }

    /// An authority over empty tables, with no session and no decoy yet.
    pub fn new(key: &MaskingKey) -> (pawl: Self)
        ensures
            pawl.wf(),
            pawl.users@ == Map::<Seq<char>, UserView>::empty(),
            pawl.devices@.len() == 0,
            pawl.policy@.len() == 0,
            pawl.api_keys@.len() == 0,
            pawl.sessions@.len() == 0,
            pawl.users.masking_key() == key@,
            pawl.devices.masking_key() == key@,
            pawl.policy.masking_key() == key@,
            pawl.api_keys.masking_key() == key@,
            pawl.bus@ == fresh_bus(),
            pawl.gutter@.len() == 0,
    {
        Pawl {
            users: Mirror::new(ratchet_users_table(key)),
            devices: Mirror::new(ratchet_devs_table(key)),
            policy: Mirror::new(ratchet_user_cmd_policy_table(key)),
            api_keys: Mirror::new(ratchet_apikey_table(key)),
            sessions: SessionManager::new(),
            bus: RtpNotifier::new(),
            gutter: String::new(),
        }
    }

    /// Loads the authority from the rows of the four durable tables. Every
    /// row of every table must open to a record of its kind; the first that
    /// does not stops the import, users first, then devices, the policy and
    /// the API key.
    pub fn rtp_import_database(key: &MaskingKey, snapshot: &Snapshot) -> (pawl: Result<
        Self,
        CryptoError,
    >)
        ensures
            pawl is Ok <==> {
                &&& forall|i: int|
                    0 <= i < snapshot.users@.len() ==> #[trigger] opened::<RatchetUserEntry>(
                        key@,
                        snapshot.users@[i].1@,
                    ) is Ok
                &&& forall|i: int|
                    0 <= i < snapshot.devices@.len() ==> #[trigger] opened::<RatchetDevEntry>(
                        key@,
                        snapshot.devices@[i].1@,
                    ) is Ok
                &&& forall|i: int|
                    0 <= i < snapshot.policy@.len() ==> #[trigger] opened::<RatchetUserCmdPolicy>(
                        key@,
                        snapshot.policy@[i].1@,
                    ) is Ok
                &&& forall|i: int|
                    0 <= i < snapshot.api_keys@.len() ==> #[trigger] opened::<RatchetApiKey>(
                        key@,
                        snapshot.api_keys@[i].1@,
                    ) is Ok
            },
            pawl matches Ok(p) ==> {
                &&& p.wf()
                &&& p.users.masking_key() == key@
                &&& p.devices.masking_key() == key@
                &&& p.policy.masking_key() == key@
                &&& p.api_keys.masking_key() == key@
                &&& p.users.durable() == table_of(rows_view(snapshot.users@))
                &&& p.devices.durable() == table_of(rows_view(snapshot.devices@))
                &&& p.policy.durable() == table_of(rows_view(snapshot.policy@))
                &&& p.api_keys.durable() == table_of(rows_view(snapshot.api_keys@))
                &&& forall|k: Seq<char>| #[trigger]
                    p.users@.contains_key(k) ==> opened::<RatchetUserEntry>(
                        key@,
                        p.users.durable()[k],
                    ) == Ok::<UserView, CryptoError>(p.users@[k])
                &&& forall|k: Seq<char>| #[trigger]
                    p.devices@.contains_key(k) ==> opened::<RatchetDevEntry>(
                        key@,
                        p.devices.durable()[k],
                    ) == Ok::<DevView, CryptoError>(p.devices@[k])
                &&& forall|k: Seq<char>| #[trigger]
                    p.policy@.contains_key(k) ==> opened::<RatchetUserCmdPolicy>(
                        key@,
                        p.policy.durable()[k],
                    ) == Ok::<CmdPolicyView, CryptoError>(p.policy@[k])
                &&& forall|k: Seq<char>| #[trigger]
                    p.api_keys@.contains_key(k) ==> opened::<RatchetApiKey>(
                        key@,
                        p.api_keys.durable()[k],
                    ) == Ok::<ApiKeyView, CryptoError>(p.api_keys@[k])
                &&& p.sessions@.len() == 0
                &&& p.bus@ == fresh_bus()
                &&& p.gutter@.len() == 0
            },
            pawl matches Err(e) ==> {
                ||| exists|i: int| #[trigger]
                    stops_at::<RatchetUserEntry>(key@, rows_view(snapshot.users@), i, e)
                ||| exists|i: int| #[trigger]
                    stops_at::<RatchetDevEntry>(key@, rows_view(snapshot.devices@), i, e)
                ||| exists|i: int| #[trigger]
                    stops_at::<RatchetUserCmdPolicy>(key@, rows_view(snapshot.policy@), i, e)
                ||| exists|i: int| #[trigger]
                    stops_at::<RatchetApiKey>(key@, rows_view(snapshot.api_keys@), i, e)
            },
    {
        let users = match Mirror::import(ratchet_users_table(key), &snapshot.users) {
            Ok(mirror) => mirror,
            Err(e) => { return Err(e); },
        };
        let devices = match Mirror::import(ratchet_devs_table(key), &snapshot.devices) {
            Ok(mirror) => mirror,
            Err(e) => { return Err(e); },
        };
        let policy = match Mirror::import(ratchet_user_cmd_policy_table(key), &snapshot.policy) {
            Ok(mirror) => mirror,
            Err(e) => { return Err(e); },
        };
        let api_keys = match Mirror::import(ratchet_apikey_table(key), &snapshot.api_keys) {
            Ok(mirror) => mirror,
            Err(e) => { return Err(e); },
        };
        Ok(
            Pawl {
                users,
                devices,
                policy,
                api_keys,
                sessions: SessionManager::new(),
                bus: RtpNotifier::new(),
                gutter: String::new(),
            },
        )
    }

    /// Turns the result of a mutation into a reply. A mutation that was
    /// carried out moves the epoch on and wakes every parked waiter.
    pub fn settle(&mut self, result: Result<DurableOp, Outcome>) -> (reply: Reply)
        ensures
            final(self).users == old(self).users,
            final(self).devices == old(self).devices,
            final(self).policy == old(self).policy,
            final(self).api_keys == old(self).api_keys,
            final(self).sessions == old(self).sessions,
            final(self).gutter == old(self).gutter,
            result matches Ok(op) ==> {
                &&& reply.outcome == Outcome::Done
                &&& reply.write == Some(op)
                &&& reply.woken@ == old(self).bus@.waiting
                &&& final(self).bus@ == after_notify(old(self).bus@)
            },
            result matches Err(e) ==> {
                &&& reply.outcome == e
                &&& reply.write is None
                &&& reply.woken@.len() == 0
                &&& final(self).bus@ == old(self).bus@
            },
    {
        match result {
            Ok(op) => {
                let woken = self.bus.rtp_notify_pollers();
                Reply { outcome: Outcome::Done, write: Some(op), woken }
            },
            Err(e) => Reply { outcome: e, write: None, woken: Vec::new() },
        }
    }

    /// The names of all users, in order.
    pub fn get_users(&self) -> (names: Vec<String>)
        requires
            self.wf(),
        ensures
            names@.len() == self.users.order().len(),
            forall|i: int|
                0 <= i < names@.len() ==> (#[trigger] names@[i])@
                    == self.users@[self.users.order()[i]].username,
    {
        let mut names: Vec<String> = Vec::new();
        let n = self.users.len();
        let mut i: usize = 0;
        while i < n
            invariant
                self.wf(),
                n == self.users.order().len(),
                i <= n,
                names@.len() == i,
                forall|j: int|
                    0 <= j < i ==> (#[trigger] names@[j])@
                        == self.users@[self.users.order()[j]].username,
            decreases n - i,
        {
            names.push(self.users.record_at(i).username.clone());
            i += 1;
        }
        names
    }

    /// The network identifiers of all devices, in order.
    pub fn get_devs(&self) -> (names: Vec<String>)
        requires
            self.wf(),
        ensures
            names@.len() == self.devices.order().len(),
            forall|i: int|
                0 <= i < names@.len() ==> (#[trigger] names@[i])@
                    == self.devices@[self.devices.order()[i]].network_id,
    {
        let mut names: Vec<String> = Vec::new();
        let n = self.devices.len();
        let mut i: usize = 0;
        while i < n
            invariant
                self.wf(),
                n == self.devices.order().len(),
                i <= n,
                names@.len() == i,
                forall|j: int|
                    0 <= j < i ==> (#[trigger] names@[j])@
                        == self.devices@[self.devices.order()[j]].network_id,
            decreases n - i,
        {
            names.push(self.devices.record_at(i).network_id.clone());
            i += 1;
        }
        names
    }

    /// The command policy, or an empty text where none is stored.
    pub fn get_policy(&self) -> (body: String)
        requires
            self.wf(),
        ensures
            body@ == if self.policy@.contains_key("singleton"@) {
                self.policy@["singleton"@].body
            } else {
                Seq::<char>::empty()
            },
    {
        let key = "singleton".to_owned();
        match self.policy.get(&key) {
            Some(policy) => policy.0.clone(),
            None => String::new(),
        }
    }

    /// Every user with the password hash, one line each.
    pub fn api_dump_users(&self) -> (dump: String)
        requires
            self.wf(),
        ensures
            dump@ == users_dump(self.users.order(), self.users@),
    {
        let mut dump = String::new();
        let n = self.users.len();
        let mut i: usize = 0;
        assert(self.users.order().take(0) =~= Seq::empty());
        while i < n
            invariant
                self.wf(),
                n == self.users.order().len(),
                i <= n,
                dump@ == users_dump(self.users.order().take(i as int), self.users@),
            decreases n - i,
        {
            proof {
                let upto = self.users.order().take(i + 1);
                assert(upto.drop_last() =~= self.users.order().take(i as int));
            }
            let ghost before = dump@;
            dump.append(self.users.key_at(i).as_str());
            dump.append(",");
            dump.append(self.users.record_at(i).passhash.as_str());
            dump.append("\n");
            assert(dump@ =~= before + dump_line(
                self.users.order()[i as int],
                self.users@[self.users.order()[i as int]].passhash,
            ));
            i += 1;
        }
        assert(self.users.order().take(n as int) =~= self.users.order());
        dump
    }

    /// Every device with its shared secret, one line each.
    pub fn api_dump_devs(&self) -> (dump: String)
        requires
            self.wf(),
        ensures
            dump@ == devs_dump(self.devices.order(), self.devices@),
    {
        let mut dump = String::new();
        let n = self.devices.len();
        let mut i: usize = 0;
        assert(self.devices.order().take(0) =~= Seq::empty());
        while i < n
            invariant
                self.wf(),
                n == self.devices.order().len(),
                i <= n,
                dump@ == devs_dump(self.devices.order().take(i as int), self.devices@),
            decreases n - i,
        {
            proof {
                let upto = self.devices.order().take(i + 1);
                assert(upto.drop_last() =~= self.devices.order().take(i as int));
            }
            let ghost before = dump@;
            dump.append(self.devices.key_at(i).as_str());
            dump.append(",");
            dump.append(self.devices.record_at(i).key.as_str());
            dump.append("\n");
            assert(dump@ =~= before + dump_line(
                self.devices.order()[i as int],
                self.devices@[self.devices.order()[i as int]].key,
            ));
            i += 1;
        }
        assert(self.devices.order().take(n as int) =~= self.devices.order());
        dump
    }
}

} // verus!
