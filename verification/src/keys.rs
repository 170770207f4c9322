//! Map keys and message subjects shared by the pool services.

use vstd::prelude::*;
use vstd::string::StringExecFns;
use crate::enums::{algo_name, Algos, ShareModes};
use crate::text::{dec_text, i64_to_string, str_eq};

verus! {

/// Key of a pool-mode score table: "N:<coin>-<algo>".
pub open spec fn normal_score_key(coin_id: int, algo: Seq<char>) -> Seq<char> {
    "N:"@ + dec_text(coin_id) + "-"@ + algo
}

/// Key of a party score table: "P:<coin>-<algo>-<party password>".
pub open spec fn party_score_key(coin_id: int, algo: Seq<char>, party_pass: Seq<char>) -> Seq<char> {
    "P:"@ + dec_text(coin_id) + "-"@ + algo + "-"@ + party_pass
}

/// The score-table key of a share or block, by its textual mode.
/// Modes other than "normal", "" and "party" have no table: the key is empty.
pub open spec fn score_table_key(
    mode: Seq<char>,
    coin_id: int,
    algo: Seq<char>,
    party_pass: Seq<char>,
) -> Seq<char> {
    if mode == "normal"@ || mode == ""@ {
        normal_score_key(coin_id, algo)
    } else if mode == "party"@ {
        party_score_key(coin_id, algo, party_pass)
    } else {
        Seq::empty()
    }
}

/// Pool shares and party shares never feed the same score table: a pool
/// key starts "N:" and a party key "P:", whatever the coins, algorithms and
/// passwords.
pub proof fn law_pool_and_party_tables_apart(
    c1: int,
    a1: Seq<char>,
    c2: int,
    a2: Seq<char>,
    pass: Seq<char>,
)
    ensures
        normal_score_key(c1, a1) != party_score_key(c2, a2, pass),
{
    reveal_strlit("N:");
    reveal_strlit("P:");
    assert(normal_score_key(c1, a1)[0] == 'N');
    assert(party_score_key(c2, a2, pass)[0] == 'P');
}

/// "<a>-<b>": two parts joined by a dash.
pub open spec fn dash_join(a: Seq<char>, b: Seq<char>) -> Seq<char> {
    a + "-"@ + b
}

/// Appends `s` to `acc` after a dash.
fn push_dashed(acc: &mut String, s: &str)
    ensures
        final(acc)@ == dash_join(old(acc)@, s@),
{
    acc.append("-");
    acc.append(s);
}

/// Generates the key of the score table that a share with these fields feeds.
pub fn dict_key_gen(mode: &String, coin_id: i32, algo: &String, party_pass: &String) -> (key: String)
    ensures
        key@ == score_table_key(mode@, coin_id as int, algo@, party_pass@),
{
    let coin = i64_to_string(coin_id as i64);
    if str_eq(mode.as_str(), "normal") || str_eq(mode.as_str(), "") {
        let mut key = String::from_str("N:");
        key.append(coin.as_str());
        push_dashed(&mut key, algo.as_str());
        key
    } else if str_eq(mode.as_str(), "party") {
        let mut key = String::from_str("P:");
        key.append(coin.as_str());
        push_dashed(&mut key, algo.as_str());
        push_dashed(&mut key, party_pass.as_str());
        key
    } else {
        String::new()
    }
}

/// The score-table key of a share by its decoded mode and algorithm:
/// normal shares go to "N:<coin>-<ALGO>", party shares to
/// "P:<coin>-<ALGO>-<pass>", solo shares to no table.
pub open spec fn mode_score_key(
    mode: ShareModes,
    coin_id: int,
    algo: Algos,
    party_pass: Seq<char>,
) -> Seq<char> {
    match mode {
        ShareModes::NORMAL => normal_score_key(coin_id, algo_name(algo)),
        ShareModes::PARTY => party_score_key(coin_id, algo_name(algo), party_pass),
        ShareModes::SOLO => Seq::empty(),
    }
}

/// Score-table key from decoded mode and algorithm.
pub fn mode_dict_key(mode: &ShareModes, coin_id: i16, algo: &Algos, party_pass: &String) -> (key: String)
    ensures
        key@ == mode_score_key(*mode, coin_id as int, *algo, party_pass@),
{
    let coin = i64_to_string(coin_id as i64);
    match mode {
        ShareModes::NORMAL => {
            let mut key = String::from_str("N:");
            key.append(coin.as_str());
            push_dashed(&mut key, algo.name());
            key
        },
        ShareModes::PARTY => {
            let mut key = String::from_str("P:");
            key.append(coin.as_str());
            push_dashed(&mut key, algo.name());
            push_dashed(&mut key, party_pass.as_str());
            key
        },
        ShareModes::SOLO => String::new(),
    }
}

/// Key of a per coin-and-algorithm share queue: "<coin>-<algo>".
pub fn keygen(coin_id: i16, algo: &String) -> (key: String)
    ensures
        key@ == dash_join(dec_text(coin_id as int), algo@),
{
    let mut key = i64_to_string(coin_id as i64);
    push_dashed(&mut key, algo.as_str());
    key
}

/// Key of a worker in a hashrate table: "<coin>-<ALGO>-<user>-<worker name>".
pub open spec fn worker_key(coin_id: int, algo: Algos, user_id: int, worker_name: Seq<char>) -> Seq<char> {
    dash_join(dash_join(dash_join(dec_text(coin_id), algo_name(algo)), dec_text(user_id)), worker_name)
}

/// Generates the hashrate-table key of a worker.
pub fn generate_key(coin_id: i16, algo: Algos, user_id: i32, worker_name: &String) -> (key: String)
    ensures
        key@ == worker_key(coin_id as int, algo, user_id as int, worker_name@),
{
    let mut key = i64_to_string(coin_id as i64);
    push_dashed(&mut key, algo.name());
    let user = i64_to_string(user_id as i64);
    push_dashed(&mut key, user.as_str());
    push_dashed(&mut key, worker_name.as_str());
    key
}

/// Key of a user within a coin: "<coin>-<user name>"; used for scores,
/// earnings and the account index alike.
pub fn user_key(coin_id: i32, user_name: &String) -> (key: String)
    ensures
        key@ == dash_join(dec_text(coin_id as int), user_name@),
{
    let mut key = i64_to_string(coin_id as i64);
    push_dashed(&mut key, user_name.as_str());
    key
}

/// Subject for an environment where production uses the bare subject and
/// every other environment prefixes its own name: "<env>.<base>".
pub open spec fn env_subject_text(env: Seq<char>, base: Seq<char>) -> Seq<char> {
    if env == "prod"@ {
        base
    } else {
        env + "."@ + base
    }
}

/// Subject for an environment where only "dev" is prefixed: "dev.<base>".
pub open spec fn dev_subject_text(env: Seq<char>, base: Seq<char>) -> Seq<char> {
    if env == "dev"@ {
        "dev."@ + base
    } else {
        base
    }
}

/// The subject the hashrate service reads shares from: every share in
/// production, the shares of coin 2428 under "<env>." elsewhere.
pub open spec fn hashrate_share_subject_text(env: Seq<char>) -> Seq<char> {
    if env == "prod"@ {
        "shares.>"@
    } else {
        env + "."@ + "shares.2428"@
    }
}

/// The subject the hashrate service reads shares from.
pub fn hashrate_share_subject(env: &String) -> (subject: String)
    ensures
        subject@ == hashrate_share_subject_text(env@),
{
    if str_eq(env.as_str(), "prod") {
        String::from_str("shares.>")
    } else {
        let mut s = env.clone();
        s.append(".");
        s.append("shares.2428");
        s
    }
}

/// The subject a service listens on, by environment (production is unprefixed).
pub fn env_subject(env: &String, base: &str) -> (subject: String)
    ensures
        subject@ == env_subject_text(env@, base@),
{
    if str_eq(env.as_str(), "prod") {
        String::from_str(base)
    } else {
        let mut s = env.clone();
        s.append(".");
        s.append(base);
        s
    }
}

/// The subject a service listens on where only development is prefixed.
pub fn dev_subject(env: &String, base: &str) -> (subject: String)
    ensures
        subject@ == dev_subject_text(env@, base@),
{
    if str_eq(env.as_str(), "dev") {
        let mut s = String::from_str("dev.");
        s.append(base);
        s
    } else {
        String::from_str(base)
    }
}

} // verus!
