//! The four kinds of durable record, the key each is filed under and the
//! JSON text each is stored as.

use vstd::prelude::*;
use vstd::string::*;
use crate::json::{
    json_string_literal, json_string_value, json_string_members, member, find_member,
    push_member, quote, unquote, string_members,
};

verus! {

/// What a record kind must offer to be filed in a table: a key, a JSON text
/// and the way back from that text.
pub trait RatchetKeyed: View + Sized {
    /// The key under which a record is filed.
    spec fn key_of(record: Self::V) -> Seq<char>;

    /// The JSON text that a record is stored as.
    spec fn json_of(record: Self::V) -> Seq<char>;

    /// The record that a JSON text stands for, if it stands for one.
    spec fn parse(document: Seq<char>) -> Option<Self::V>;

    /// The key under which this record is filed.
    fn into_key(&self) -> (key: &str)
        ensures
            key@ == Self::key_of(self@),
    ;

    /// The JSON text of this record.
    fn to_json(&self) -> (text: String)
        ensures
            text@ == Self::json_of(self@),
    ;

    /// Reads a record from its JSON text.
    fn from_json(document: &str) -> (record: Option<Self>)
        ensures
            record is Some <==> Self::parse(document@) is Some,
            record matches Some(r) ==> Self::parse(document@) == Some(r@),
    ;

    /// A copy of this record.
    fn duplicate(&self) -> (copy: Self)
        ensures
            copy@ == self@,
    ;
}

/// An operator who may administer the system.
#[derive(Debug)]
pub struct RatchetUserEntry {
    pub username: String,
    pub passhash: String,
}

/// The content of a user record.
pub struct UserView {
    pub username: Seq<char>,
    pub passhash: Seq<char>,
}

impl View for RatchetUserEntry {
    type V = UserView;

    open spec fn view(&self) -> UserView {
        UserView { username: self.username@, passhash: self.passhash@ }
    }
}

impl RatchetKeyed for RatchetUserEntry {
    open spec fn key_of(record: UserView) -> Seq<char> {
        record.username
    }

    open spec fn json_of(record: UserView) -> Seq<char> {
        "{\"username\":"@ + json_string_literal(record.username) + ",\"passhash\":"@
            + json_string_literal(record.passhash) + "}"@
    }

    open spec fn parse(document: Seq<char>) -> Option<UserView> {
        match json_string_members(document) {
            Some(members) => match (member(members, "username"@), member(members, "passhash"@)) {
                (Some(username), Some(passhash)) => Some(UserView { username, passhash }),
                _ => None,
            },
            None => None,
        }
    }

    fn into_key(&self) -> (key: &str) {
        self.username.as_str()
    }

    fn to_json(&self) -> (text: String) {
        let mut text = String::new();
        push_member(&mut text, "{\"username\":", self.username.as_str());
        push_member(&mut text, ",\"passhash\":", self.passhash.as_str());
        text.append("}");
        assert(text@ =~= Self::json_of(self@));
        text
    }

    fn from_json(document: &str) -> (record: Option<Self>) {
        match string_members(document) {
            Some(members) => {
                let username = find_member(&members, "username");
                let passhash = find_member(&members, "passhash");
                match (username, passhash) {
                    (Some(username), Some(passhash)) => Some(
                        RatchetUserEntry { username, passhash },
                    ),
                    _ => None,
                }
            },
            None => None,
        }
    }

    fn duplicate(&self) -> (copy: Self) {
        RatchetUserEntry { username: self.username.clone(), passhash: self.passhash.clone() }
    }
}

/// A network device and the secret it shares with the authority.
#[derive(Debug)]
pub struct RatchetDevEntry {
    pub network_id: String,
    pub key: String,
}

/// The content of a device record.
pub struct DevView {
    pub network_id: Seq<char>,
    pub key: Seq<char>,
}

impl View for RatchetDevEntry {
    type V = DevView;

    open spec fn view(&self) -> DevView {
        DevView { network_id: self.network_id@, key: self.key@ }
    }
}

impl RatchetKeyed for RatchetDevEntry {
    open spec fn key_of(record: DevView) -> Seq<char> {
        record.network_id
    }

    open spec fn json_of(record: DevView) -> Seq<char> {
        "{\"network_id\":"@ + json_string_literal(record.network_id) + ",\"key\":"@
            + json_string_literal(record.key) + "}"@
    }

    open spec fn parse(document: Seq<char>) -> Option<DevView> {
        match json_string_members(document) {
            Some(members) => match (member(members, "network_id"@), member(members, "key"@)) {
                (Some(network_id), Some(key)) => Some(DevView { network_id, key }),
                _ => None,
            },
            None => None,
        }
    }

    fn into_key(&self) -> (key: &str) {
        self.network_id.as_str()
    }

    fn to_json(&self) -> (text: String) {
        let mut text = String::new();
        push_member(&mut text, "{\"network_id\":", self.network_id.as_str());
        push_member(&mut text, ",\"key\":", self.key.as_str());
        text.append("}");
        assert(text@ =~= Self::json_of(self@));
        text
    }

    fn from_json(document: &str) -> (record: Option<Self>) {
        match string_members(document) {
            Some(members) => {
                let network_id = find_member(&members, "network_id");
                let key = find_member(&members, "key");
                match (network_id, key) {
                    (Some(network_id), Some(key)) => Some(RatchetDevEntry { network_id, key }),
                    _ => None,
                }
            },
            None => None,
        }
    }

    fn duplicate(&self) -> (copy: Self) {
        RatchetDevEntry { network_id: self.network_id.clone(), key: self.key.clone() }
    }
}

/// The key that the backend presents to read the registry.
#[derive(Debug)]
pub struct RatchetApiKey {
    pub api_key: String,
}

/// The content of an API key record.
pub struct ApiKeyView {
    pub api_key: Seq<char>,
}

impl View for RatchetApiKey {
    type V = ApiKeyView;

    open spec fn view(&self) -> ApiKeyView {
        ApiKeyView { api_key: self.api_key@ }
    }
}

impl RatchetKeyed for RatchetApiKey {
    /// The API key is filed under a placeholder, never under its own value.
    open spec fn key_of(record: ApiKeyView) -> Seq<char> {
        "-"@
    }

    open spec fn json_of(record: ApiKeyView) -> Seq<char> {
        "{\"api_key\":"@ + json_string_literal(record.api_key) + "}"@
    }

    open spec fn parse(document: Seq<char>) -> Option<ApiKeyView> {
        match json_string_members(document) {
            Some(members) => match member(members, "api_key"@) {
                Some(api_key) => Some(ApiKeyView { api_key }),
                None => None,
            },
            None => None,
        }
    }

    fn into_key(&self) -> (key: &str) {
        "-"
    }

    fn to_json(&self) -> (text: String) {
        let mut text = String::new();
        push_member(&mut text, "{\"api_key\":", self.api_key.as_str());
        text.append("}");
        assert(text@ =~= Self::json_of(self@));
        text
    }

    fn from_json(document: &str) -> (record: Option<Self>) {
        match string_members(document) {
            Some(members) => match find_member(&members, "api_key") {
                Some(api_key) => Some(RatchetApiKey { api_key }),
                None => None,
            },
            None => None,
        }
    }

    fn duplicate(&self) -> (copy: Self) {
        RatchetApiKey { api_key: self.api_key.clone() }
    }
}

/// The command policy: one free-form text for the whole system.
#[derive(Debug)]
pub struct RatchetUserCmdPolicy(pub String);

/// The content of the command policy.
pub struct CmdPolicyView {
    pub body: Seq<char>,
}

impl View for RatchetUserCmdPolicy {
    type V = CmdPolicyView;

    open spec fn view(&self) -> CmdPolicyView {
        CmdPolicyView { body: self.0@ }
    }
}

impl RatchetKeyed for RatchetUserCmdPolicy {
    /// The policy is filed under one fixed key.
    open spec fn key_of(record: CmdPolicyView) -> Seq<char> {
        "singleton"@
    }

    open spec fn json_of(record: CmdPolicyView) -> Seq<char> {
        json_string_literal(record.body)
    }

    open spec fn parse(document: Seq<char>) -> Option<CmdPolicyView> {
        match json_string_value(document) {
            Some(body) => Some(CmdPolicyView { body }),
            None => None,
        }
    }

    fn into_key(&self) -> (key: &str) {
        "singleton"
    }

    fn to_json(&self) -> (text: String) {
        quote(self.0.as_str())
    }

    fn from_json(document: &str) -> (record: Option<Self>) {
        match unquote(document) {
            Some(body) => Some(RatchetUserCmdPolicy(body)),
            None => None,
        }
    }

    fn duplicate(&self) -> (copy: Self) {
        RatchetUserCmdPolicy(self.0.clone())
    }
}

} // verus!
