use icemining::enums::{Algos, ShareModes};
use icemining::keys::{
    dev_subject, dict_key_gen, env_subject, generate_key, hashrate_share_subject, keygen, mode_dict_key, user_key,
};
use icemining::text::{i64_to_string, str_eq, u64_to_string};

fn s(x: &str) -> String {
    x.to_string()
}

#[test]
fn decimal_rendering() {
    assert_eq!(u64_to_string(0), "0");
    assert_eq!(u64_to_string(2408), "2408");
    assert_eq!(u64_to_string(u64::MAX), u64::MAX.to_string());
    assert_eq!(i64_to_string(-2423), "-2423");
    assert_eq!(i64_to_string(i64::MIN), i64::MIN.to_string());
    assert!(str_eq("abc", "abc"));
    assert!(!str_eq("abc", "abd"));
}

#[test]
fn score_table_keys_by_mode() {
    assert_eq!(dict_key_gen(&s("normal"), 2423, &s("blake2s"), &s("pw")), "N:2423-blake2s");
    assert_eq!(dict_key_gen(&s(""), 2423, &s("blake2s"), &s("pw")), "N:2423-blake2s");
    assert_eq!(dict_key_gen(&s("party"), 2423, &s("blake2s"), &s("pw")), "P:2423-blake2s-pw");
    assert_eq!(dict_key_gen(&s("solo"), 2423, &s("blake2s"), &s("pw")), "");
}

#[test]
fn pool_and_party_keys_differ() {
    let pool = dict_key_gen(&s("normal"), 1, &s("a"), &s(""));
    let party = dict_key_gen(&s("party"), 1, &s("a"), &s(""));
    assert_ne!(pool, party);
}

#[test]
fn decoded_mode_keys() {
    assert_eq!(mode_dict_key(&ShareModes::NORMAL, 2408, &Algos::ARGON2D, &s("x")), "N:2408-ARGON2D");
    assert_eq!(mode_dict_key(&ShareModes::PARTY, 2408, &Algos::ARGON2D, &s("x")), "P:2408-ARGON2D-x");
    assert_eq!(mode_dict_key(&ShareModes::SOLO, 2408, &Algos::ARGON2D, &s("x")), "");
}

#[test]
fn queue_worker_and_user_keys() {
    assert_eq!(keygen(2408, &s("argon2d")), "2408-argon2d");
    assert_eq!(generate_key(2422, Algos::CUCKATOO, 11111, &s("rig1")), "2422-CUCKATOO-11111-rig1");
    assert_eq!(user_key(2423, &s("alice")), "2423-alice");
    assert_eq!(user_key(-1, &s("bob")), "-1-bob");
}

#[test]
fn subjects_by_environment() {
    assert_eq!(env_subject(&s("prod"), "events.maintenance.workers"), "events.maintenance.workers");
    assert_eq!(env_subject(&s("dev"), "events.maintenance.workers"), "dev.events.maintenance.workers");
    assert_eq!(dev_subject(&s("dev"), "stratum.start.>"), "dev.stratum.start.>");
    assert_eq!(dev_subject(&s("prod"), "stratum.start.>"), "stratum.start.>");
}

#[test]
fn algorithm_and_mode_codes() {
    assert_eq!(Algos::from_string("primary"), Algos::PRIMARY);
    assert_eq!(Algos::from_string("secondary"), Algos::SECONDARY);
    assert_eq!(Algos::from_string("argon2d"), Algos::DEFAULT);
    assert_eq!(Algos::from_i16(23), Algos::PRIMARY);
    assert_eq!(Algos::from_i16(35), Algos::SECONDARY);
    assert_eq!(Algos::from_i16(28), Algos::BLAKE2S);
    assert_eq!(Algos::from_i16(0), Algos::DEFAULT);
    assert_eq!(Algos::get_target(&Algos::PRIMARY), 41000);
    assert_eq!(Algos::get_target(&Algos::ARGON2D), 65536000);
    assert_eq!(Algos::get_target(&Algos::BLAKE2S), 1000);
    assert_eq!(Algos::ARGON2D.name(), "ARGON2D");
    assert_eq!(ShareModes::from_string(""), ShareModes::NORMAL);
    assert_eq!(ShareModes::from_string("party"), ShareModes::PARTY);
    assert_eq!(ShareModes::from_string("solo"), ShareModes::SOLO);
    assert_eq!(ShareModes::from_i16(0), ShareModes::NORMAL);
    assert_eq!(ShareModes::from_i16(1), ShareModes::PARTY);
    assert_eq!(ShareModes::from_i16(2), ShareModes::SOLO);
    assert_eq!(ShareModes::PARTY.name(), "PARTY");
}

#[test]
fn hashrate_share_subjects() {
    assert_eq!(hashrate_share_subject(&s("prod")), "shares.>");
    assert_eq!(hashrate_share_subject(&s("dev")), "dev.shares.2428");
}
