//! Planning the payout of a found block: the pool fee, whom the block pays,
//! and the account ids that earnings are booked to.

use vstd::prelude::*;
use crate::keys::{dash_join, dict_key_gen, score_table_key, user_key};
use crate::models::AccountRecord;
use vstd::string::StringExecFns;
use crate::text::{dec_text, i64_to_string, str_eq};

verus! {

/// The coin whose blocks the payout service settles.
pub const DPPLNS_COIN_ID: i32 = 2423;

/// Whether the payout service settles a block of this coin.
pub fn handles_block(coin_id: i32) -> (r: bool)
    ensures
        r == (coin_id == DPPLNS_COIN_ID),
{
    coin_id == DPPLNS_COIN_ID
}

/// The pool fee of a block, in thousandths of the block reward: by coin for
/// pool blocks, 3% for party and solo blocks.
pub open spec fn fee_permille(coin_id: int, mode: Seq<char>) -> int {
    if mode == "party"@ || mode == "solo"@ {
        30
    } else if coin_id == 2418 {
        40
    } else if coin_id == 2426 {
        120
    } else if coin_id == 2408 || coin_id == 2422 {
        15
    } else if coin_id == 2423 || coin_id == 2410 {
        20
    } else if coin_id == 2416 {
        22
    } else {
        10
    }
}

/// The fee of a pool block by its coin, in thousandths: 4% for EPIC (2418),
/// 12% for ATOM (2426), 1.5% for NIM (2408) and MWC (2422), 2% for KDA
/// (2423) and SIN (2410), 2.2% for ARW (2416), 1% for any other coin.
pub open spec fn pool_fee_permille(coin_id: int) -> int {
    if coin_id == 2418 {
        40
    } else if coin_id == 2426 {
        120
    } else if coin_id == 2408 || coin_id == 2422 {
        15
    } else if coin_id == 2423 || coin_id == 2410 {
        20
    } else if coin_id == 2416 {
        22
    } else {
        10
    }
}

/// Party and solo blocks pay a flat 3% whatever their coin, while any other
/// block pays its coin's pool fee; so a party block of a coin whose pool
/// fee is below 3% pays more than a pool block of that coin, and one above
/// 3% pays less.
pub proof fn law_party_and_solo_fee_is_flat(coin_id: int, mode: Seq<char>)
    ensures
        fee_permille(coin_id, "party"@) == 30,
        fee_permille(coin_id, "solo"@) == 30,
        mode != "party"@ && mode != "solo"@ ==> fee_permille(coin_id, mode) == pool_fee_permille(coin_id),
        fee_permille(2423, "party"@) == 30 && fee_permille(2423, "normal"@) == 20,
        fee_permille(2426, "party"@) == 30 && fee_permille(2426, "normal"@) == 120,
        pool_fee_permille(2418) == 40,
        pool_fee_permille(2426) == 120,
        pool_fee_permille(2408) == 15,
        pool_fee_permille(2422) == 15,
        pool_fee_permille(2423) == 20,
        pool_fee_permille(2410) == 20,
        pool_fee_permille(2416) == 22,
        coin_id != 2418 && coin_id != 2426 && coin_id != 2408 && coin_id != 2422 && coin_id != 2423
            && coin_id != 2410 && coin_id != 2416 ==> pool_fee_permille(coin_id) == 10,
{
    reveal_strlit("party");
    reveal_strlit("solo");
    reveal_strlit("normal");
    assert("normal"@ != "party"@) by {
        assert("normal"@[0] != "party"@[0]);
    }
    assert("normal"@ != "solo"@) by {
        assert("normal"@[0] != "solo"@[0]);
    }
}

/// The pool fee of a block, in thousandths of the block reward.
pub fn block_fee_permille(coin_id: i32, mode: &String) -> (f: u32)
    ensures
        f as int == fee_permille(coin_id as int, mode@),
        (mode@ == "party"@ || mode@ == "solo"@) ==> f == 30,
        !(mode@ == "party"@ || mode@ == "solo"@) ==> f as int == pool_fee_permille(coin_id as int),
{
    let by_coin: u32 = if coin_id == 2418 {
        40
    } else if coin_id == 2426 {
        120
    } else if coin_id == 2408 || coin_id == 2422 {
        15
    } else if coin_id == 2423 || coin_id == 2410 {
        20
    } else if coin_id == 2416 {
        22
    } else {
        10
    };
    if str_eq(mode.as_str(), "party") || str_eq(mode.as_str(), "solo") {
        30
    } else {
        by_coin
    }
}

/// What the payout service needs of a block, besides its reward.
pub struct PayoutBlock {
    pub id: i32,
    pub coin_id: i32,
    pub mode: String,
    pub algo: String,
    pub party_pass: Option<String>,
    pub user_name: Option<String>,
}

/// Whom a block pays.
pub enum PayoutPlan {
    /// A solo block pays its finder alone, booked under this user key.
    Solo { earning_key: String },
    /// Any other block is shared by the scores kept under this table key.
    Shared { table_key: String },
    /// A solo block that names no finder cannot be paid.
    MissingSoloUser,
}

/// The party password of a block, empty where it has none.
pub open spec fn party_pass_or_empty(p: Option<String>) -> Seq<char> {
    match p {
        Some(s) => s@,
        None => Seq::empty(),
    }
}

/// Decides whom a block pays: a solo block its finder (keyed
/// "<coin>-<user>"), any other block the holders of the score table of its
/// mode, coin, algorithm and party password.
pub fn plan_block_payout(block: &PayoutBlock) -> (plan: PayoutPlan)
    ensures
        block.mode@ == "solo"@ ==> match block.user_name {
            Some(u) => (plan matches PayoutPlan::Solo { earning_key } && earning_key@ == dash_join(
                dec_text(block.coin_id as int),
                u@,
            )),
            None => plan is MissingSoloUser,
        },
        block.mode@ != "solo"@ ==> (plan matches PayoutPlan::Shared { table_key } && table_key@
            == score_table_key(
            block.mode@,
            block.coin_id as int,
            block.algo@,
            party_pass_or_empty(block.party_pass),
        )),
{
    if str_eq(block.mode.as_str(), "solo") {
        match &block.user_name {
            Some(u) => PayoutPlan::Solo { earning_key: user_key(block.coin_id, u) },
            None => PayoutPlan::MissingSoloUser,
        }
    } else {
        let party_pass = match &block.party_pass {
            Some(p) => p.clone(),
            None => String::new(),
        };
        PayoutPlan::Shared {
            table_key: dict_key_gen(&block.mode, block.coin_id, &block.algo, &party_pass),
        }
    }
}

/// An index from "<coin>-<user name>" to account id, kept in a
/// `hashbrown::HashMap`.
#[verifier::external_body]
pub struct AccountIndex {
    map: hashbrown::HashMap<String, i32>,
}

/// The key-to-id pairs an index holds.
pub uninterp spec fn account_index_contents(index: AccountIndex) -> Map<Seq<char>, i32>;

/// The index that holds no pair.
pub open spec fn no_account_ids() -> Map<Seq<char>, i32> {
    Map::empty()
}

/// `hashbrown::HashMap::new`: the new map holds no pair.
#[verifier::external_body]
fn account_index_new() -> (fresh: AccountIndex)
    ensures
        account_index_contents(fresh) == no_account_ids(),
{
    AccountIndex { map: hashbrown::HashMap::new() }
}

/// `hashbrown::HashMap::insert`, on an index taken by value and handed back:
/// afterwards the key maps to the id, and every other key to what it mapped
/// to before.
#[verifier::external_body]
fn account_index_insert(index: AccountIndex, key: String, id: i32) -> (updated: AccountIndex)
    ensures
        account_index_contents(updated) == account_index_contents(index).insert(key@, id),
{
    let mut map = index.map;
    map.insert(key, id);
    AccountIndex { map }
}

/// `hashbrown::HashMap::get`: the id the key maps to, if any.
#[verifier::external_body]
fn account_index_get(index: &AccountIndex, key: &String) -> (id: Option<i32>)
    ensures
        id == (if account_index_contents(*index).dom().contains(key@) {
            Some(account_index_contents(*index)[key@])
        } else {
            None
        }),
{
    index.map.get(key).copied()
}

/// The account ids by "<coin>-<user name>", a later account replacing an
/// earlier one under the same key.
pub open spec fn account_ids(accounts: Seq<AccountRecord>) -> Map<Seq<char>, i32>
    decreases accounts.len(),
{
    if accounts.len() == 0 {
        Map::empty()
    } else {
        let a = accounts.last();
        account_ids(accounts.drop_last()).insert(dash_join(dec_text(a.coinid as int), a.username@), a.id)
    }
}

/// The id an earning is booked to: its account's, or -1 where there is none.
pub open spec fn booked_id(ids: Map<Seq<char>, i32>, key: Seq<char>) -> i32 {
    if ids.dom().contains(key) {
        ids[key]
    } else {
        -1i32
    }
}

/// Resolves the account id of each earning key ("<coin>-<user name>") against
/// the accounts, giving -1 for a key with no account.
pub fn resolve_account_ids(accounts: &Vec<AccountRecord>, earning_keys: &Vec<String>) -> (ids: Vec<i32>)
    ensures
        ids@.len() == earning_keys@.len(),
        forall|i: int|
            0 <= i < earning_keys@.len() ==> #[trigger] ids@[i] == booked_id(
                account_ids(accounts@),
                earning_keys@[i]@,
            ),
{
    let mut index = account_index_new();
    let n = accounts.len();
    let mut i: usize = 0;
    while i < n
        invariant
            n == accounts@.len(),
            i <= n,
            account_index_contents(index) == account_ids(accounts@.take(i as int)),
        decreases n - i,
    {
        let a = &accounts[i];
        let key = user_key(a.coinid, &a.username);
        index = account_index_insert(index, key, a.id);
        proof {
            assert(accounts@.take(i + 1).drop_last() =~= accounts@.take(i as int));
        }
        i = i + 1;
    }
    assert(accounts@.take(n as int) =~= accounts@);
    let mut ids: Vec<i32> = Vec::new();
    let m = earning_keys.len();
    let mut j: usize = 0;
    while j < m
        invariant
            m == earning_keys@.len(),
            j <= m,
            account_index_contents(index) == account_ids(accounts@),
            ids@.len() == j,
            forall|k: int|
                0 <= k < j ==> #[trigger] ids@[k] == booked_id(account_ids(accounts@), earning_keys@[k]@),
        decreases m - j,
    {
        let id = match account_index_get(&index, &earning_keys[j]) {
            Some(id) => id,
            None => -1,
        };
        ids.push(id);
        j = j + 1;
    }
    ids
}

/// The error of a pool or party block whose score table does not exist:
/// "Block Failed in dpplns, blockid: <id>".
pub open spec fn missing_table_text(block_id: int) -> Seq<char> {
    "Block Failed in dpplns, blockid: "@ + dec_text(block_id)
}

/// Checks the score table a shared block is paid from, given its size
/// (`None` where the table does not exist): a missing table fails the
/// block, a present one is paid. An empty table is not admitted: the
/// service stops on it.
pub fn check_score_table(block_id: i32, table_size: Option<usize>) -> (r: Result<usize, String>)
    requires
        table_size != Some(0usize),
    ensures
        match table_size {
            None => r matches Err(e) && e@ == missing_table_text(block_id as int),
            Some(n) => r == Ok::<usize, String>(n),
        },
{
    match table_size {
        Some(n) => Ok(n),
        None => {
            let mut e = String::from_str("Block Failed in dpplns, blockid: ");
            let id = i64_to_string(block_id as i64);
            e.append(id.as_str());
            proof {
                reveal_strlit("Block Failed in dpplns, blockid: ");
            }
            Err(e)
        },
    }
}

/// An earnings row of a block, without its amount: booked to an account
/// (or -1), unprocessed, with the block's coin, id, mode and party password.
pub struct EarningRecord {
    pub userid: i32,
    pub coinid: i32,
    pub blockid: i32,
    pub create_time: i32,
    pub status: i32,
    pub mode: String,
    pub algo: i16,
    pub stratum_id: i16,
    pub party_pass: Option<String>,
}

/// `r` is the earnings row of `block` booked to `userid` at `create_time`.
pub open spec fn is_earning_record(
    block_id: i32,
    coin_id: i32,
    mode: Seq<char>,
    party_pass: Option<String>,
    create_time: i32,
    userid: i32,
    r: EarningRecord,
) -> bool {
    &&& r.userid == userid
    &&& r.coinid == coin_id
    &&& r.blockid == block_id
    &&& r.create_time == create_time
    &&& r.status == 0
    &&& r.mode@ == mode
    &&& r.algo == 0
    &&& r.stratum_id == 0
    &&& r.party_pass == party_pass
}

/// The earnings rows of a block, one per account id in order.
pub fn earning_records(
    block_id: i32,
    coin_id: i32,
    mode: &String,
    party_pass: &Option<String>,
    create_time: i32,
    ids: &Vec<i32>,
) -> (rows: Vec<EarningRecord>)
    ensures
        rows@.len() == ids@.len(),
        forall|i: int|
            0 <= i < ids@.len() ==> is_earning_record(
                block_id,
                coin_id,
                mode@,
                *party_pass,
                create_time,
                ids@[i],
                #[trigger] rows@[i],
            ),
{
    let mut rows: Vec<EarningRecord> = Vec::new();
    let n = ids.len();
    let mut i: usize = 0;
    while i < n
        invariant
            n == ids@.len(),
            i <= n,
            rows@.len() == i,
            forall|j: int|
                0 <= j < i ==> is_earning_record(
                    block_id,
                    coin_id,
                    mode@,
                    *party_pass,
                    create_time,
                    ids@[j],
                    #[trigger] rows@[j],
                ),
        decreases n - i,
    {
        let pass = match party_pass {
            Some(p) => Some(p.clone()),
            None => None,
        };
        rows.push(
            EarningRecord {
                userid: ids[i],
                coinid: coin_id,
                blockid: block_id,
                create_time,
                status: 0,
                mode: mode.clone(),
                algo: 0,
                stratum_id: 0,
                party_pass: pass,
            },
        );
        i = i + 1;
    }
    rows
}

} // verus!
