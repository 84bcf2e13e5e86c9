use ratchet_pawl::crypto::{decrypt, rtp_take_key, CryptoError, MaskingKey};
use ratchet_pawl::json::find_member;
use ratchet_pawl::json::push_member;
use ratchet_pawl::mirror::Mirror;
use ratchet_pawl::outcome::Outcome;
use ratchet_pawl::pawl::{ratchet_devs_table, ratchet_users_table};
use ratchet_pawl::records::{
    RatchetApiKey, RatchetDevEntry, RatchetKeyed, RatchetUserCmdPolicy, RatchetUserEntry,
};
use ratchet_pawl::string_map::StringMap;
use ratchet_pawl::table::{DurableOp, ReadWriteTable};
use std::collections::BTreeMap;

fn masking_key() -> MaskingKey {
    rtp_take_key(&"table tests".to_string()).unwrap()
}

fn user(name: &str, hash: &str) -> RatchetUserEntry {
    RatchetUserEntry { username: name.to_string(), passhash: hash.to_string() }
}

fn dev(id: &str, key: &str) -> RatchetDevEntry {
    RatchetDevEntry { network_id: id.to_string(), key: key.to_string() }
}

fn carry_out(durable: &mut BTreeMap<String, Vec<u8>>, op: &DurableOp) {
    match op {
        DurableOp::Upsert { key, value, .. } => {
            durable.insert(key.clone(), value.clone());
        }
        DurableOp::Remove { key, .. } => {
            durable.remove(key);
        }
    }
}

fn assert_mirrors(
    mirror: &Mirror<RatchetDevEntry>,
    durable: &BTreeMap<String, Vec<u8>>,
    table: &ReadWriteTable<RatchetDevEntry>,
) {
    assert_eq!(mirror.len(), durable.len());
    for (key, value) in durable {
        let record = mirror.get(key).expect("every durable key is in the mirror");
        let stored = table.read(value).expect("every row opens");
        assert_eq!(stored.network_id, record.network_id);
        assert_eq!(stored.key, record.key);
    }
    for key in mirror.get_all() {
        assert!(durable.contains_key(&key));
    }
}

#[test]
fn string_map_inserts_replaces_and_removes() {
    let mut map: StringMap<u32> = StringMap::new();
    assert_eq!(map.len(), 0);
    assert_eq!(map.insert("a".to_string(), 1), None);
    assert_eq!(map.insert("b".to_string(), 2), None);
    assert_eq!(map.insert("a".to_string(), 3), Some(1));
    assert_eq!(map.len(), 2);
    assert_eq!(map.get(&"a".to_string()), Some(&3));
    assert_eq!(map.get(&"c".to_string()), None);
    assert!(map.contains_key(&"b".to_string()));
    assert_eq!(map.key_at(0), "a");
    assert_eq!(map.key_at(1), "b");
    assert_eq!(*map.value_at(1), 2);
    assert_eq!(map.remove(&"a".to_string()), Some(3));
    assert_eq!(map.remove(&"a".to_string()), None);
    assert_eq!(map.len(), 1);
    assert_eq!(map.key_at(0), "b");
}

#[test]
fn user_json_is_an_object_of_two_strings() {
    let text = user("alice", "$2b$10$abc").to_json();
    assert_eq!(text, "{\"username\":\"alice\",\"passhash\":\"$2b$10$abc\"}");
}

#[test]
fn json_escapes_quotes_and_control_characters() {
    let text = dev("sw\"1", "line\nbreak\\").to_json();
    assert_eq!(text, "{\"network_id\":\"sw\\\"1\",\"key\":\"line\\nbreak\\\\\"}");
    let back = RatchetDevEntry::from_json(&text).unwrap();
    assert_eq!(back.network_id, "sw\"1");
    assert_eq!(back.key, "line\nbreak\\");
}

#[test]
fn api_key_and_policy_json() {
    let key = RatchetApiKey { api_key: "k3y".to_string() };
    assert_eq!(key.to_json(), "{\"api_key\":\"k3y\"}");
    assert_eq!(RatchetApiKey::from_json("{\"api_key\":\"k3y\"}").unwrap().api_key, "k3y");
    let policy = RatchetUserCmdPolicy("$\n(\n)".to_string());
    assert_eq!(policy.to_json(), "\"$\\n(\\n)\"");
    assert_eq!(RatchetUserCmdPolicy::from_json("\"$\\n(\\n)\"").unwrap().0, "$\n(\n)");
}

#[test]
fn record_keys() {
    assert_eq!(user("alice", "h").into_key(), "alice");
    assert_eq!(dev("10.0.0.1", "s").into_key(), "10.0.0.1");
    assert_eq!(RatchetApiKey { api_key: "secret".to_string() }.into_key(), "-");
    assert_eq!(RatchetUserCmdPolicy("p".to_string()).into_key(), "singleton");
}

#[test]
fn json_that_is_no_record_is_refused() {
    assert!(RatchetUserEntry::from_json("").is_none());
    assert!(RatchetUserEntry::from_json("not json").is_none());
    assert!(RatchetUserEntry::from_json("{\"username\":\"alice\"}").is_none());
    assert!(RatchetUserEntry::from_json("{\"passhash\":\"h\"}").is_none());
    assert!(RatchetUserEntry::from_json("[\"alice\",\"h\"]").is_none());
    assert!(RatchetDevEntry::from_json("{\"network_id\":\"n\"}").is_none());
    assert!(RatchetApiKey::from_json("{}").is_none());
    assert!(RatchetUserCmdPolicy::from_json("{}").is_none());
    assert!(RatchetUserCmdPolicy::from_json("12").is_none());
}

#[test]
fn json_members_may_come_in_any_order() {
    let record = RatchetUserEntry::from_json("{ \"passhash\": \"h\", \"username\": \"bob\" }");
    let record = record.unwrap();
    assert_eq!(record.username, "bob");
    assert_eq!(record.passhash, "h");
}

#[test]
fn find_member_takes_the_first_match() {
    let members = vec![
        ("a".to_string(), "1".to_string()),
        ("b".to_string(), "2".to_string()),
        ("a".to_string(), "3".to_string()),
    ];
    assert_eq!(find_member(&members, "a"), Some("1".to_string()));
    assert_eq!(find_member(&members, "b"), Some("2".to_string()));
    assert_eq!(find_member(&members, "c"), None);
    assert_eq!(find_member(&vec![], "a"), None);
}

#[test]
fn push_member_appends_label_and_literal() {
    let mut out = String::from("{");
    push_member(&mut out, "\"k\":", "v\"");
    assert_eq!(out, "{\"k\":\"v\\\"\"");
}

#[test]
fn duplicate_keeps_the_fields() {
    let copy = user("alice", "h").duplicate();
    assert_eq!(copy.username, "alice");
    assert_eq!(copy.passhash, "h");
}

#[test]
fn write_seals_the_json_under_the_record_key() {
    let key = masking_key();
    let table = ratchet_users_table(&key);
    assert_eq!(table.unwrap(), "ratchet_users");
    let record = user("alice", "hash");
    match table.write(&record).unwrap() {
        DurableOp::Upsert { table: name, key: row, value } => {
            assert_eq!(name, "ratchet_users");
            assert_eq!(row, "alice");
            assert_ne!(value, record.to_json().into_bytes());
            assert_eq!(decrypt(&key, &value).unwrap(), record.to_json().into_bytes());
        }
        other => panic!("a write is an upsert, got {:?}", other),
    }
}

#[test]
fn rm_names_the_row_of_the_record() {
    let table = ratchet_devs_table(&masking_key());
    match table.rm(&dev("10.1.1.1", "s")) {
        DurableOp::Remove { table: name, key } => {
            assert_eq!(name, "ratchet_devs");
            assert_eq!(key, "10.1.1.1");
        }
        other => panic!("a removal is a remove, got {:?}", other),
    }
}

#[test]
fn read_opens_what_write_sealed() {
    let table = ratchet_devs_table(&masking_key());
    let op = table.write(&dev("10.1.1.1", "shared")).unwrap();
    let value = match op {
        DurableOp::Upsert { value, .. } => value,
        other => panic!("a write is an upsert, got {:?}", other),
    };
    let back = table.read(&value).unwrap();
    assert_eq!(back.network_id, "10.1.1.1");
    assert_eq!(back.key, "shared");
}

#[test]
fn read_refuses_a_row_that_is_too_short() {
    let table = ratchet_devs_table(&masking_key());
    assert_eq!(table.read(&vec![1, 2]).unwrap_err(), CryptoError::OutOfDomain);
}

#[test]
fn read_refuses_a_row_masked_by_another_key() {
    let table = ratchet_devs_table(&masking_key());
    let other = ratchet_devs_table(&rtp_take_key(&"another key".to_string()).unwrap());
    let value = match other.write(&dev("10.1.1.1", "shared")).unwrap() {
        DurableOp::Upsert { value, .. } => value,
        op => panic!("a write is an upsert, got {:?}", op),
    };
    let refused = table.read(&value).unwrap_err();
    assert!(refused == CryptoError::NotText || refused == CryptoError::NotARecord);
}

#[test]
fn read_refuses_text_that_is_no_record() {
    let key = masking_key();
    let table = ratchet_devs_table(&key);
    let value = ratchet_pawl::crypto::encrypt(&key, &b"{\"nothing\":\"here\"}".to_vec()).unwrap();
    assert_eq!(table.read(&value).unwrap_err(), CryptoError::NotARecord);
}

#[test]
fn policy_that_is_empty_cannot_be_stored() {
    let table: ReadWriteTable<RatchetUserCmdPolicy> =
        ReadWriteTable::new("ratchet_user_cmd_policy", &masking_key());
    assert_eq!(
        table.write(&RatchetUserCmdPolicy(String::new())).unwrap_err(),
        CryptoError::OutOfDomain
    );
}

#[test]
fn mirror_equals_the_durable_table_after_every_operation() {
    let key = masking_key();
    let table = ratchet_devs_table(&key);
    let mut mirror = Mirror::new(ratchet_devs_table(&key));
    let mut durable: BTreeMap<String, Vec<u8>> = BTreeMap::new();
    assert_mirrors(&mirror, &durable, &table);

    let op = mirror.add(dev("a", "1")).unwrap();
    carry_out(&mut durable, &op);
    assert_mirrors(&mirror, &durable, &table);

    let op = mirror.add(dev("b", "2")).unwrap();
    carry_out(&mut durable, &op);
    assert_mirrors(&mirror, &durable, &table);

    assert_eq!(mirror.add(dev("a", "other")).unwrap_err(), Outcome::Conflict);
    assert_mirrors(&mirror, &durable, &table);
    assert_eq!(mirror.get(&"a".to_string()).unwrap().key, "1");

    let op = mirror.edit(dev("a", "3")).unwrap();
    carry_out(&mut durable, &op);
    assert_mirrors(&mirror, &durable, &table);
    assert_eq!(mirror.get(&"a".to_string()).unwrap().key, "3");

    assert_eq!(mirror.edit(dev("c", "4")).unwrap_err(), Outcome::Gone);
    assert_mirrors(&mirror, &durable, &table);

    let op = mirror.remove(&"a".to_string()).unwrap();
    carry_out(&mut durable, &op);
    assert_mirrors(&mirror, &durable, &table);
    assert!(!mirror.contains(&"a".to_string()));

    assert_eq!(mirror.remove(&"a".to_string()).unwrap_err(), Outcome::Gone);
    assert_mirrors(&mirror, &durable, &table);

    let op = mirror.remove(&"b".to_string()).unwrap();
    carry_out(&mut durable, &op);
    assert_mirrors(&mirror, &durable, &table);
    assert_eq!(mirror.len(), 0);
    assert!(durable.is_empty());
}

#[test]
fn mirror_keeps_the_order_of_arrival() {
    let mut mirror = Mirror::new(ratchet_devs_table(&masking_key()));
    mirror.add(dev("z", "1")).unwrap();
    mirror.add(dev("a", "2")).unwrap();
    mirror.add(dev("m", "3")).unwrap();
    mirror.edit(dev("z", "4")).unwrap();
    assert_eq!(mirror.get_all(), vec!["z".to_string(), "a".to_string(), "m".to_string()]);
    assert_eq!(mirror.key_at(1), "a");
    assert_eq!(mirror.record_at(0).key, "4");
    mirror.remove(&"a".to_string()).unwrap();
    assert_eq!(mirror.get_all(), vec!["z".to_string(), "m".to_string()]);
}

#[test]
fn mirror_refuses_a_record_that_cannot_be_stored() {
    let key = masking_key();
    let table: ReadWriteTable<RatchetUserCmdPolicy> = ReadWriteTable::new("policy", &key);
    let mut mirror = Mirror::new(table);
    assert_eq!(mirror.add(RatchetUserCmdPolicy(String::new())).unwrap_err(), Outcome::Failed);
    assert_eq!(mirror.len(), 0);
}

#[test]
fn import_rebuilds_the_mirror_from_the_rows() {
    let key = masking_key();
    let table = ratchet_devs_table(&key);
    let mut rows: Vec<(String, Vec<u8>)> = Vec::new();
    for record in [dev("a", "1"), dev("b", "2"), dev("a", "3")] {
        match table.write(&record).unwrap() {
            DurableOp::Upsert { key, value, .. } => rows.push((key, value)),
            op => panic!("a write is an upsert, got {:?}", op),
        }
    }
    let mirror = Mirror::import(ratchet_devs_table(&key), &rows).unwrap();
    assert_eq!(mirror.len(), 2);
    assert_eq!(mirror.get(&"a".to_string()).unwrap().key, "3");
    assert_eq!(mirror.get(&"b".to_string()).unwrap().key, "2");
}

#[test]
fn import_of_no_rows_is_empty() {
    let mirror = Mirror::import(ratchet_devs_table(&masking_key()), &vec![]).unwrap();
    assert_eq!(mirror.len(), 0);
}

#[test]
fn import_stops_at_a_row_that_does_not_open() {
    let key = masking_key();
    let table = ratchet_devs_table(&key);
    let good = match table.write(&dev("a", "1")).unwrap() {
        DurableOp::Upsert { value, .. } => value,
        op => panic!("a write is an upsert, got {:?}", op),
    };
    let rows = vec![("a".to_string(), good), ("b".to_string(), vec![0u8, 1])];
    match Mirror::import(ratchet_devs_table(&key), &rows) {
        Err(e) => assert_eq!(e, CryptoError::OutOfDomain),
        Ok(_) => panic!("a row of two bytes cannot open"),
    }
}

#[test]
fn plans_name_the_write_and_leave_the_mirror_alone() {
    let key = masking_key();
    let mut mirror = Mirror::new(ratchet_devs_table(&key));
    let planned = mirror.plan_add(&dev("a", "1")).unwrap();
    assert_eq!(mirror.len(), 0);
    let made = mirror.add(dev("a", "1")).unwrap();
    match (planned, made) {
        (
            DurableOp::Upsert { table: t1, key: k1, value: v1 },
            DurableOp::Upsert { table: t2, key: k2, value: v2 },
        ) => {
            assert_eq!(t1, t2);
            assert_eq!(k1, k2);
            assert_eq!(v1, v2);
        }
        other => panic!("both are upserts, got {:?}", other),
    }
    assert_eq!(mirror.plan_add(&dev("a", "2")).unwrap_err(), Outcome::Conflict);
    assert_eq!(mirror.plan_edit(&dev("b", "2")).unwrap_err(), Outcome::Gone);
    assert_eq!(mirror.plan_remove(&"b".to_string()).unwrap_err(), Outcome::Gone);
    assert!(mirror.plan_edit(&dev("a", "2")).is_ok());
    assert_eq!(mirror.get(&"a".to_string()).unwrap().key, "1");
    match mirror.plan_remove(&"a".to_string()).unwrap() {
        DurableOp::Remove { table, key } => {
            assert_eq!(table, "ratchet_devs");
            assert_eq!(key, "a");
        }
        other => panic!("a removal is a remove, got {:?}", other),
    }
    assert_eq!(mirror.len(), 1);
}

#[test]
fn read_refuses_bytes_that_are_no_text() {
    let key = masking_key();
    let table = ratchet_devs_table(&key);
    let value = ratchet_pawl::crypto::encrypt(&key, &vec![0xff, 0xfe, 0xfd, 0xfc]).unwrap();
    assert_eq!(table.read(&value).unwrap_err(), CryptoError::NotText);
}

#[test]
fn import_keeps_the_order_in_which_keys_first_come() {
    let key = masking_key();
    let table = ratchet_devs_table(&key);
    let mut rows: Vec<(String, Vec<u8>)> = Vec::new();
    for record in [dev("z", "1"), dev("a", "2"), dev("z", "3"), dev("m", "4")] {
        match table.write(&record).unwrap() {
            DurableOp::Upsert { key, value, .. } => rows.push((key, value)),
            op => panic!("a write is an upsert, got {:?}", op),
        }
    }
    let mirror = Mirror::import(ratchet_devs_table(&key), &rows).unwrap();
    assert_eq!(mirror.get_all(), vec!["z".to_string(), "a".to_string(), "m".to_string()]);
    assert_eq!(mirror.record_at(0).key, "3");
}
