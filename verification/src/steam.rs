use vstd::prelude::*;

use std::collections::HashMap;

use crate::gameinfo::{GameCache, GameView, known_games};
use crate::text::{concat2, i32_to_decimal, int_decimal, parse_u64, parse_u64_spec};

verus! {

broadcast use vstd::std_specs::hash::group_hash_axioms;

/// What one poll reports of one app: the app id and the build id of its
/// public branch, both as the text the version service sent.
pub struct BuildReport {
    pub app_key: String,
    pub build_id: String,
}

/// Recording `build` as the latest build of `id`: the new table, and whether
/// this is an update (a different, non-zero build had been recorded before).
pub open spec fn update_step(builds: Map<u64, u64>, id: u64, build: u64) -> (Map<u64, u64>, bool) {
    (
        builds.insert(id, build),
        builds.contains_key(id) && builds[id] != 0 && builds[id] != build,
    )
}

/// The number that a report's text stands for (reports hold numbers only).
pub open spec fn report_number(t: Seq<char>) -> u64 {
    parse_u64_spec(t)->Some_0
}

pub open spec fn report_well_formed(r: BuildReport) -> bool {
    &&& parse_u64_spec(r.app_key@) is Some
    &&& parse_u64_spec(r.build_id@) is Some
}

/// The build table after the reports are recorded one after another.
pub open spec fn apply_reports(builds: Map<u64, u64>, reps: Seq<BuildReport>) -> Map<u64, u64>
    decreases reps.len(),
{
    if reps.len() == 0 {
        builds
    } else {
        let last = reps.last();
        update_step(
            apply_reports(builds, reps.drop_last()),
            report_number(last.app_key@),
            report_number(last.build_id@),
        ).0
    }
}

/// Whether report `i` is an update, given the reports recorded before it.
pub open spec fn report_is_update(builds: Map<u64, u64>, reps: Seq<BuildReport>, i: int) -> bool {
    update_step(
        apply_reports(builds, reps.take(i)),
        report_number(reps[i].app_key@),
        report_number(reps[i].build_id@),
    ).1
}

/// Keeps the latest known build of each polled game and says when one changed.
pub struct GameVersionManager {
    cache: GameCache,
    apps: HashMap<u64, u64>,
}

impl GameVersionManager {
    /// The games whose versions are polled.
    pub closed spec fn games(&self) -> Seq<GameView> {
        self.cache@
    }

    /// The latest build recorded for each app id.
    pub closed spec fn builds(&self) -> Map<u64, u64> {
        self.apps@
    }

    /// A manager for the table of supported games, with no build recorded.
    pub fn new() -> (r: Self)
        ensures
            r.games() == known_games(),
            r.builds() == Map::<u64, u64>::empty(),
    {
        GameVersionManager { cache: GameCache::new(), apps: HashMap::new() }
    }

    /// The app ids to poll, in the order of the table.
    pub fn get_apps(&self) -> (r: Vec<i32>)
        ensures
            r@ == self.games().map_values(|g: GameView| g.appid),
    {
        self.cache.get_ids()
    }

    /// Records `new_number` as the latest build of `id`; true when the game
    /// has updated, that is when a different, non-zero build was recorded before.
    pub fn check_update(&mut self, id: u64, new_number: u64) -> (r: bool)
        ensures
            final(self).games() == old(self).games(),
            (final(self).builds(), r) == update_step(old(self).builds(), id, new_number),
    {
        if let Some(old_num) = self.apps.insert(id, new_number) {
            if old_num != 0 && old_num != new_number {
                return true;
            }
        }
        false
    }

    /// Records each report in turn; entry `i` of the result says whether
    /// report `i` announced an update.
    pub fn record_reports(&mut self, reports: &Vec<BuildReport>) -> (r: Vec<bool>)
        requires
            forall|i: int| 0 <= i < reports@.len() ==> report_well_formed(#[trigger] reports@[i]),
        ensures
            final(self).games() == old(self).games(),
            final(self).builds() == apply_reports(old(self).builds(), reports@),
            r@.len() == reports@.len(),
            forall|i: int|
                0 <= i < reports@.len() ==> r@[i] == report_is_update(
                    old(self).builds(),
                    reports@,
                    i,
                ),
    {
        let ghost b0 = self.builds();
        let mut r: Vec<bool> = Vec::new();
        let mut i: usize = 0;
        assert(reports@.take(0) =~= Seq::<BuildReport>::empty());
        while i < reports.len()
            invariant
                i <= reports@.len(),
                forall|k: int| 0 <= k < reports@.len() ==> report_well_formed(#[trigger] reports@[k]),
                self.games() == old(self).games(),
                b0 == old(self).builds(),
                self.builds() == apply_reports(b0, reports@.take(i as int)),
                r@.len() == i,
                forall|k: int| 0 <= k < i ==> r@[k] == report_is_update(b0, reports@, k),
            decreases reports@.len() - i,
        {
            let rep = &reports[i];
            assert(report_well_formed(reports@[i as int]));
            let id = match parse_u64(rep.app_key.as_str()) {
                Some(v) => v,
                None => 0,
            };
            let build = match parse_u64(rep.build_id.as_str()) {
                Some(v) => v,
                None => 0,
            };
            let updated = self.check_update(id, build);
            proof {
                let t = reports@.take(i + 1);
                assert(t.drop_last() =~= reports@.take(i as int));
                assert(t.last() == reports@[i as int]);
            }
            r.push(updated);
            i = i + 1;
        }
        assert(reports@.take(i as int) =~= reports@);
        r
    }
}

/// The app ids as comma-separated decimal numbers.
pub open spec fn joined_ids(ids: Seq<i32>) -> Seq<char>
    decreases ids.len(),
{
    if ids.len() == 0 {
        Seq::empty()
    } else if ids.len() == 1 {
        int_decimal(ids[0] as int)
    } else {
        joined_ids(ids.drop_last()) + seq![','] + int_decimal(ids.last() as int)
    }
}

/// The address of the local version service, asked about the given app ids.
pub open spec fn query_url_spec(ids: Seq<i32>) -> Seq<char> {
    "http://127.0.0.1:23455/info?apps="@ + joined_ids(ids)
}

/// The version-service address that asks about `ids`.
pub fn apps_query_url(ids: &Vec<i32>) -> (r: String)
    ensures
        r@ == query_url_spec(ids@),
{
    let mut joined = String::new();
    let mut i: usize = 0;
    while i < ids.len()
        invariant
            i <= ids@.len(),
            joined@ == joined_ids(ids@.take(i as int)),
        decreases ids@.len() - i,
    {
        let d = i32_to_decimal(ids[i]);
        let ghost t = ids@.take(i + 1);
        proof {
            reveal_strlit(",");
        }
        if i > 0 {
            joined.append(",");
        }
        joined.append(d.as_str());
        proof {
            assert(t.drop_last() =~= ids@.take(i as int));
            if i == 0 {
                assert(joined@ =~= joined_ids(t));
            } else {
                assert(joined@ =~= joined_ids(t));
            }
        }
        i = i + 1;
    }
    assert(ids@.take(i as int) =~= ids@);
    concat2("http://127.0.0.1:23455/info?apps=", joined.as_str())
}


/// The first build ever reported for a game is never an update.
pub proof fn law_first_report_is_not_update(builds: Map<u64, u64>, id: u64, build: u64)
    requires
        !builds.contains_key(id),
    ensures
        !update_step(builds, id, build).1,
{
}

/// Reporting the same build twice in a row announces at most one update:
/// the second report is never one.
pub proof fn law_repeated_report_is_not_update(builds: Map<u64, u64>, id: u64, build: u64)
    ensures
        !update_step(update_step(builds, id, build).0, id, build).1,
{
}

/// An update is announced exactly when the recorded build was non-zero and
/// differs from the reported one; afterwards the reported build is recorded.
pub proof fn law_update_iff_build_changed(builds: Map<u64, u64>, id: u64, build: u64)
    ensures
        update_step(builds, id, build).1 <==> (builds.contains_key(id) && builds[id] != 0
            && builds[id] != build),
        update_step(builds, id, build).0[id] == build,
        forall|k: u64| k != id ==> (update_step(builds, id, build).0.contains_key(k) <==> builds.contains_key(k)),
        forall|k: u64| k != id && builds.contains_key(k) ==> update_step(builds, id, build).0[k] == builds[k],
{
}

} // verus!
