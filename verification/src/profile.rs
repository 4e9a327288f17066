//! The learner's profile and the configuration records around it.
use vstd::prelude::*;

use crate::error::AppError;
use crate::session::models::opt_seq;
use crate::sync_protocol::PairInfoResponse;
use crate::text::{copy_str, lower_text, push_str, str_eq, to_lowercase};
use crate::vocabulary::copy_opt;

verus! {

/// Language-learner profile shared with the prompts and the server.
#[derive(Debug, Clone, PartialEq)]
pub struct UserProfile {
    pub native_language: String,
    pub target_language: String,
    pub age: Option<u32>,
    pub self_assessed_cefr: Option<String>,
}

/// A language pair of the configuration: its id and the learner's profile
/// for it.
#[derive(Debug, Clone, PartialEq)]
pub struct LanguagePair {
    pub id: String,
    pub profile: UserProfile,
}

/// How exercise hints are shown.
#[derive(Debug, Clone, Copy, PartialEq, Eq, Default, Structural)]
pub enum HintMode {
    #[default]
    Auto,
    OnDemand,
}

/// The learner's session preferences.
#[derive(Debug, Clone, PartialEq)]
pub struct UserPreferences {
    pub batch_size: u32,
    pub hint_mode: HintMode,
}

/// The default number of exercises per session.
pub fn default_batch_size() -> (r: u32)
    ensures
        r == 3,
{
    3
}

/// The default hint mode.
pub fn default_hint_mode() -> (r: HintMode)
    ensures
        r == HintMode::Auto,
{
    HintMode::Auto
}

impl Default for UserPreferences {
    fn default() -> (r: UserPreferences)
        ensures
            r.batch_size == 3,
            r.hint_mode == HintMode::Auto,
    {
        UserPreferences { batch_size: default_batch_size(), hint_mode: default_hint_mode() }
    }
}

/// Cloud sync settings. The access token is never stored here.
#[derive(Debug, Clone, Default, PartialEq)]
pub struct SyncConfig {
    pub server_url: Option<String>,
    pub account_email: Option<String>,
    pub device_id: Option<String>,
}

/// The id of a language pair: both language names lowercased, joined with
/// `-`.
pub fn pair_id(native: &str, target: &str) -> (r: String)
    ensures
        r@ == lower_text(native@) + "-"@ + lower_text(target@),
{
    let mut s = to_lowercase(native);
    push_str(&mut s, "-");
    let t = to_lowercase(target);
    push_str(&mut s, t.as_str());
    s
}

/// The pair of a profile, with its id derived from the profile's languages.
pub fn language_pair_for(profile: UserProfile) -> (r: LanguagePair)
    ensures
        r.id@ == lower_text(profile.native_language@) + "-"@ + lower_text(profile.target_language@),
        r.profile == profile,
{
    let id = pair_id(profile.native_language.as_str(), profile.target_language.as_str());
    LanguagePair { id, profile }
}

/// The ids of the pairs.
pub open spec fn pair_ids(pairs: Seq<LanguagePair>) -> Seq<Seq<char>> {
    Seq::new(pairs.len(), |i: int| pairs[i].id@)
}

/// The position of the first pair with id `id`, from position `i` on.
pub open spec fn first_pair_from(pairs: Seq<LanguagePair>, id: Seq<char>, i: int) -> Option<int>
    decreases pairs.len() - i,
{
    if i < 0 || i >= pairs.len() {
        None
    } else if pairs[i].id@ == id {
        Some(i)
    } else {
        first_pair_from(pairs, id, i + 1)
    }
}

fn first_pair(pairs: &[LanguagePair], id: &str) -> (r: Option<usize>)
    ensures
        r matches Some(i) ==> first_pair_from(pairs@, id@, 0) == Some(i as int) && i < pairs@.len(),
        r is None ==> first_pair_from(pairs@, id@, 0) is None && !pair_ids(pairs@).contains(id@),
{
    let mut i: usize = 0;
    while i < pairs.len()
        invariant
            i <= pairs@.len(),
            first_pair_from(pairs@, id@, 0) == first_pair_from(pairs@, id@, i as int),
            forall|j: int| 0 <= j < i ==> pairs@[j].id@ != id@,
        decreases pairs.len() - i,
    {
        if str_eq(pairs[i].id.as_str(), id) {
            return Some(i);
        }
        i = i + 1;
    }
    proof {
        if pair_ids(pairs@).contains(id@) {
            let j = choose|j: int| 0 <= j < pairs@.len() && pair_ids(pairs@)[j] == id@;
            assert(pairs@[j].id@ == id@);
        }
    }
    None
}

/// The pair with id `id`, the first one if there are several.
pub fn find_pair<'a>(pairs: &'a [LanguagePair], id: &str) -> (r: Option<&'a LanguagePair>)
    ensures
        r == match first_pair_from(pairs@, id@, 0) {
            Some(i) => Some(&pairs@[i]),
            None => None::<&LanguagePair>,
        },
{
    match first_pair(pairs, id) {
        Some(i) => Some(&pairs[i]),
        None => None,
    }
}

/// The profile of the active pair, or of the first pair when no pair has
/// the active id. There is always at least one pair.
pub fn active_profile<'a>(pairs: &'a [LanguagePair], active_pair: &str) -> (r: &'a UserProfile)
    requires
        pairs@.len() > 0,
    ensures
        *r == match first_pair_from(pairs@, active_pair@, 0) {
            Some(i) => pairs@[i].profile,
            None => pairs@[0].profile,
        },
{
    match first_pair(pairs, active_pair) {
        Some(i) => &pairs[i].profile,
        None => &pairs[0].profile,
    }
}

/// The position of the active pair: the first pair with the active id, or
/// the first pair when none has it. There is always at least one pair.
pub fn active_pair_index(pairs: &[LanguagePair], active_pair: &str) -> (r: usize)
    requires
        pairs@.len() > 0,
    ensures
        r < pairs@.len(),
        r == match first_pair_from(pairs@, active_pair@, 0) {
            Some(i) => i,
            None => 0,
        },
{
    match first_pair(pairs, active_pair) {
        Some(i) => i,
        None => 0,
    }
}

/// The message of the error for a pair that already exists.
pub open spec fn pair_exists_text(id: Seq<char>) -> Seq<char> {
    "Language pair "@ + id + " already exists"@
}

/// Adds the pair of `profile` unless a pair with its id exists; returns the
/// new pair's id.
pub fn add_pair(pairs: &mut Vec<LanguagePair>, profile: UserProfile) -> (r: Result<String, AppError>)
    ensures
        ({
            let id = lower_text(profile.native_language@) + "-"@ + lower_text(profile.target_language@);
            if pair_ids(old(pairs)@).contains(id) {
                &&& r matches Err(AppError::Config(m)) && m@ == pair_exists_text(id)
                &&& final(pairs)@ == old(pairs)@
            } else {
                &&& r matches Ok(s) && s@ == id
                &&& final(pairs)@.len() == old(pairs)@.len() + 1
                &&& final(pairs)@.take(old(pairs)@.len() as int) == old(pairs)@
                &&& final(pairs)@.last().id@ == id
                &&& final(pairs)@.last().profile == profile
            }
        }),
{
    let id = pair_id(profile.native_language.as_str(), profile.target_language.as_str());
    if first_pair(pairs.as_slice(), id.as_str()).is_some() {
        proof {
            let i = first_pair_from(pairs@, id@, 0)->0;
            lemma_first_pair_found(pairs@, id@, 0);
            assert(pair_ids(pairs@)[i] == id@);
        }
        let mut m = copy_str("Language pair ");
        push_str(&mut m, id.as_str());
        push_str(&mut m, " already exists");
        return Err(AppError::Config(m));
    }
    let result = copy_str(id.as_str());
    let ghost before = pairs@;
    pairs.push(LanguagePair { id, profile });
    assert(pairs@.take(before.len() as int) =~= before);
    Ok(result)
}

proof fn lemma_first_pair_found(pairs: Seq<LanguagePair>, id: Seq<char>, i: int)
    ensures
        first_pair_from(pairs, id, i) matches Some(j) ==> i <= j < pairs.len() && pairs[j].id@ == id,
    decreases pairs.len() - i,
{
    if 0 <= i < pairs.len() && pairs[i].id@ != id {
        lemma_first_pair_found(pairs, id, i + 1);
    }
}

/// The age of a server pair as the profile holds it: `None` when it does
/// not fit in a `u32`.
pub open spec fn remote_age(age: Option<i64>) -> Option<u32> {
    match age {
        Some(a) => if 0 <= a <= u32::MAX {
            Some(a as u32)
        } else {
            None
        },
        None => None,
    }
}

/// Whether `pair` is the local pair made from the server's `remote`.
pub open spec fn pair_from_remote(pair: LanguagePair, remote: PairInfoResponse) -> bool {
    &&& pair.id@ == remote.pair_id@
    &&& pair.profile.native_language@ == remote.native_lang@
    &&& pair.profile.target_language@ == remote.target_lang@
    &&& pair.profile.age == remote_age(remote.age)
    &&& opt_seq(pair.profile.self_assessed_cefr) == opt_seq(remote.self_assessed_cefr)
}

/// The positions in `remote`, from `i` on, of the pairs that merging adds
/// when the pairs with ids `known` exist: those whose id is neither known
/// nor added before.
pub open spec fn merged_from(known: Seq<Seq<char>>, remote: Seq<PairInfoResponse>, i: int) -> Seq<
    int,
>
    decreases remote.len() - i,
{
    if i < 0 || i >= remote.len() {
        Seq::empty()
    } else if known.contains(remote[i].pair_id@) {
        merged_from(known, remote, i + 1)
    } else {
        seq![i] + merged_from(known.push(remote[i].pair_id@), remote, i + 1)
    }
}

/// The ids known after merging `remote` from position `i` on.
pub open spec fn known_after(known: Seq<Seq<char>>, remote: Seq<PairInfoResponse>, i: int) -> Seq<
    Seq<char>,
>
    decreases remote.len() - i,
{
    if i < 0 || i >= remote.len() {
        known
    } else if known.contains(remote[i].pair_id@) {
        known_after(known, remote, i + 1)
    } else {
        known_after(known.push(remote[i].pair_id@), remote, i + 1)
    }
}

fn make_pair(remote: &PairInfoResponse) -> (r: LanguagePair)
    ensures
        pair_from_remote(r, *remote),
{
    let age: Option<u32> = match remote.age {
        Some(a) => if 0 <= a && a <= u32::MAX as i64 {
            Some(a as u32)
        } else {
            None
        },
        None => None,
    };
    LanguagePair {
        id: copy_str(remote.pair_id.as_str()),
        profile: UserProfile {
            native_language: copy_str(remote.native_lang.as_str()),
            target_language: copy_str(remote.target_lang.as_str()),
            age,
            self_assessed_cefr: copy_opt(&remote.self_assessed_cefr),
        },
    }
}

/// Merges the pairs known to the server (created on the web or another
/// device) into the local ones and returns the ids of the pairs added, in
/// server order. Existing pairs are left untouched.
pub fn merge_remote_pairs(pairs: &mut Vec<LanguagePair>, remote: &[PairInfoResponse]) -> (r: Vec<
    String,
>)
    ensures
        ({
            let added = merged_from(pair_ids(old(pairs)@), remote@, 0);
            &&& r@.len() == added.len()
            &&& final(pairs)@.len() == old(pairs)@.len() + added.len()
            &&& final(pairs)@.take(old(pairs)@.len() as int) == old(pairs)@
            &&& forall|k: int|
                0 <= k < added.len() ==> {
                    &&& 0 <= added[k] < remote@.len()
                    &&& (#[trigger] r@[k])@ == remote@[added[k]].pair_id@
                    &&& pair_from_remote(final(pairs)@[old(pairs)@.len() + k], remote@[added[k]])
                }
            &&& pair_ids(final(pairs)@) == known_after(pair_ids(old(pairs)@), remote@, 0)
        }),
{
    let ghost start = pairs@;
    let ghost all = merged_from(pair_ids(start), remote@, 0);
    let mut added: Vec<String> = Vec::new();
    let ghost mut done: Seq<int> = Seq::empty();
    let mut i: usize = 0;
    while i < remote.len()
        invariant
            i <= remote@.len(),
            all == merged_from(pair_ids(start), remote@, 0),
            all == done + merged_from(pair_ids(pairs@), remote@, i as int),
            known_after(pair_ids(start), remote@, 0) == known_after(pair_ids(pairs@), remote@, i as int),
            added@.len() == done.len(),
            pairs@.len() == start.len() + done.len(),
            pairs@.take(start.len() as int) == start,
            forall|k: int| 0 <= k < done.len() ==> 0 <= #[trigger] done[k] < i,
            forall|k: int|
                0 <= k < done.len() ==> (#[trigger] added@[k])@ == remote@[done[k]].pair_id@,
            forall|k: int|
                0 <= k < done.len() ==> pair_from_remote(
                    pairs@[start.len() + k],
                    remote@[#[trigger] done[k]],
                ),
        decreases remote.len() - i,
    {
        let r = &remote[i];
        if first_pair(pairs.as_slice(), r.pair_id.as_str()).is_none() {
            let ghost before = pairs@;
            let ghost before_added = added@;
            let pair = make_pair(r);
            pairs.push(pair);
            added.push(copy_str(r.pair_id.as_str()));
            proof {
                let new_done = done.push(i as int);
                assert forall|k: int| 0 <= k < new_done.len() implies {
                    &&& 0 <= #[trigger] new_done[k] < i + 1
                    &&& added@[k]@ == remote@[new_done[k]].pair_id@
                    &&& pair_from_remote(pairs@[start.len() + k], remote@[new_done[k]])
                } by {
                    if k < done.len() {
                        assert(added@[k] == before_added[k]);
                        assert(pairs@[start.len() + k] == before[start.len() + k]);
                        assert(new_done[k] == done[k]);
                    } else {
                        assert(pairs@[start.len() + k] == pair);
                    }
                }
                assert(pair_ids(pairs@) =~= pair_ids(before).push(remote@[i as int].pair_id@));
                assert(all =~= new_done + merged_from(pair_ids(pairs@), remote@, i + 1));
                assert(pairs@.take(start.len() as int) =~= before.take(start.len() as int));
                done = new_done;
            }
        } else {
            proof {
                let j = first_pair_from(pairs@, remote@[i as int].pair_id@, 0)->0;
                lemma_first_pair_found(pairs@, remote@[i as int].pair_id@, 0);
                assert(pair_ids(pairs@)[j] == remote@[i as int].pair_id@);
            }
        }
        i = i + 1;
    }
    proof {
        assert(merged_from(pair_ids(pairs@), remote@, i as int) =~= Seq::<int>::empty());
        assert(all =~= done);
        assert(known_after(pair_ids(pairs@), remote@, i as int) == pair_ids(pairs@));
    }
    added
}

/// Every server id is known once the server's pairs were merged.
pub proof fn lemma_known_after_covers(known: Seq<Seq<char>>, remote: Seq<PairInfoResponse>, i: int)
    requires
        0 <= i,
    ensures
        forall|x: Seq<char>| known.contains(x) ==> known_after(known, remote, i).contains(x),
        forall|j: int| i <= j < remote.len() ==> known_after(known, remote, i).contains(
            #[trigger] remote[j].pair_id@,
        ),
    decreases remote.len() - i,
{
    if i < remote.len() {
        let id = remote[i].pair_id@;
        if known.contains(id) {
            lemma_known_after_covers(known, remote, i + 1);
            assert(known_after(known, remote, i).contains(id));
        } else {
            let next = known.push(id);
            lemma_known_after_covers(next, remote, i + 1);
            assert forall|x: Seq<char>| known.contains(x) implies next.contains(x) by {
                let q = choose|q: int| 0 <= q < known.len() && known[q] == x;
                assert(next[q] == x);
            }
            assert(next[known.len() as int] == id);
            assert(next.contains(id));
            assert(known_after(known, remote, i).contains(id));
        }
    }
}

proof fn lemma_nothing_to_merge(known: Seq<Seq<char>>, remote: Seq<PairInfoResponse>, i: int)
    requires
        0 <= i,
        forall|j: int| i <= j < remote.len() ==> known.contains(#[trigger] remote[j].pair_id@),
    ensures
        merged_from(known, remote, i) == Seq::<int>::empty(),
    decreases remote.len() - i,
{
    if i < remote.len() {
        assert(known.contains(remote[i].pair_id@));
        lemma_nothing_to_merge(known, remote, i + 1);
    }
}

/// Merging is idempotent: merging the same server pairs a second time adds
/// nothing.
pub proof fn lemma_merge_remote_pairs_idempotent(known: Seq<Seq<char>>, remote: Seq<PairInfoResponse>)
    ensures
        merged_from(known_after(known, remote, 0), remote, 0) == Seq::<int>::empty(),
{
    lemma_known_after_covers(known, remote, 0);
    lemma_nothing_to_merge(known_after(known, remote, 0), remote, 0);
}

/// The production sync server.
pub const DEFAULT_SYNC_SERVER_URL: &'static str = "https://api.open-course.eu";

/// The environment variable that overrides the sync server.
pub const SYNC_SERVER_URL_ENV: &'static str = "OPEN_COURSE_SYNC_URL";

/// The sync server base URL: the value of `SYNC_SERVER_URL_ENV` when it is
/// set and non-empty, else the configured URL, else the production default.
pub fn resolve_sync_server_url(env_url: Option<&str>, sync: Option<&SyncConfig>) -> (r: String)
    ensures
        r@ == match env_url {
            Some(u) if u@.len() > 0 => u@,
            _ => match sync {
                Some(c) => match c.server_url {
                    Some(u) => u@,
                    None => DEFAULT_SYNC_SERVER_URL@,
                },
                None => DEFAULT_SYNC_SERVER_URL@,
            },
        },
{
    if let Some(u) = env_url {
        if !u.is_empty() {
            return copy_str(u);
        }
    }
    if let Some(c) = sync {
        if let Some(u) = &c.server_url {
            return copy_str(u.as_str());
        }
    }
    copy_str(DEFAULT_SYNC_SERVER_URL)
}

/// Where the data lives: the data directory's name under its parent.
pub const DATA_DIR_NAME: &'static str = ".open-course-cli";

/// The name of the configuration file in the data directory.
pub const CONFIG_FILE_NAME: &'static str = "config.json";

/// The path components, under a directory, of the data directory itself.
pub fn data_dir_components() -> (r: Vec<&'static str>)
    ensures
        r@.len() == 1,
        r@[0]@ == DATA_DIR_NAME@,
{
    vec![DATA_DIR_NAME]
}

/// The path components, under a directory, of its configuration file: the
/// data directory, then `config.json`.
pub fn config_path_components() -> (r: Vec<&'static str>)
    ensures
        r@.len() == 2,
        r@[0]@ == DATA_DIR_NAME@,
        r@[1]@ == CONFIG_FILE_NAME@,
{
    vec![DATA_DIR_NAME, CONFIG_FILE_NAME]
}

/// The path components, under a directory, of a language pair's database:
/// the data directory, `pairs`, the pair's id, `db`.
pub fn pair_db_components(pair_id: &str) -> (r: Vec<&str>)
    ensures
        r@.len() == 4,
        r@[0]@ == DATA_DIR_NAME@,
        r@[1]@ == "pairs"@,
        r@[2]@ == pair_id@,
        r@[3]@ == "db"@,
{
    vec![DATA_DIR_NAME, "pairs", pair_id, "db"]
}

/// Which directory holds the data, and whether a legacy local data
/// directory moves there first.
#[derive(Debug, Clone, Copy, PartialEq, Eq, Structural)]
pub enum DataDirPlan {
    /// The home directory is unknown: the current directory.
    Current,
    /// The home directory, as it is.
    Home,
    /// The home directory, after the current directory's data has moved
    /// there: the home has no configuration yet and the current directory
    /// has one.
    MigrateToHome,
}

/// The data directory is the home directory wherever the program starts;
/// the current directory only when the home is unknown. A configuration
/// found only in the current directory (an install from before the global
/// layout) moves to the home first.
pub fn data_dir_plan(home_known: bool, cwd_is_home: bool, home_has_config: bool, cwd_has_config: bool) -> (r: DataDirPlan)
    ensures
        !home_known ==> r == DataDirPlan::Current,
        home_known && (cwd_is_home || home_has_config || !cwd_has_config) ==> r == DataDirPlan::Home,
        home_known && !cwd_is_home && !home_has_config && cwd_has_config ==> r == DataDirPlan::MigrateToHome,
{
    if !home_known {
        DataDirPlan::Current
    } else if cwd_is_home {
        DataDirPlan::Home
    } else if !home_has_config && cwd_has_config {
        DataDirPlan::MigrateToHome
    } else {
        DataDirPlan::Home
    }
}

} // verus!
