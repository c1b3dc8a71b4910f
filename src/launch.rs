use vstd::prelude::*;
use crate::config::AppConfig;
use crate::conditions::{Snapshot, eligible, check_app_conditions};
use crate::registry::{all_managed, mark_managed};

verus! {

/// `app` is launched by a tick in `s`: it is managed, not launched yet in
/// this run, and all its conditions hold.
pub open spec fn due(app: AppConfig, s: Snapshot) -> bool {
    app.is_managed && !app.launched && eligible(app, s)
}

/// The record after a tick in `s`: a due application is marked launched;
/// any other is left as it was (a launched one stays launched).
pub open spec fn after_tick(app: AppConfig, s: Snapshot) -> AppConfig {
    if due(app, s) {
        AppConfig { launched: true, ..app }
    } else {
        app
    }
}

/// The registry after a tick in `s`.
pub open spec fn tick_apps(apps: Seq<AppConfig>, s: Snapshot) -> Seq<AppConfig> {
    Seq::new(apps.len(), |i: int| after_tick(apps[i], s))
}

/// Positions of the applications a tick in `s` launches, in increasing order.
pub open spec fn due_indices(apps: Seq<AppConfig>, s: Snapshot) -> Seq<int>
    decreases apps.len(),
{
    if apps.len() == 0 {
        Seq::empty()
    } else {
        let rest = due_indices(apps.drop_last(), s);
        if due(apps.last(), s) {
            rest.push(apps.len() - 1)
        } else {
            rest
        }
    }
}

pub open spec fn as_ints(v: Seq<usize>) -> Seq<int> {
    Seq::new(v.len(), |i: int| v[i] as int)
}

/// One interactive tick: every managed application that has not been
/// launched in this run and whose conditions hold in `snapshot` is marked
/// launched. The result lists their positions in launch order; the caller
/// starts them. A launch is attempted at most once per run, whatever the
/// outcome of the start.
pub fn perform_launch_checks(managed_apps: &mut Vec<AppConfig>, snapshot: &Snapshot) -> (launch: Vec<usize>)
    ensures
        final(managed_apps)@ == tick_apps(old(managed_apps)@, *snapshot),
        as_ints(launch@) == due_indices(old(managed_apps)@, *snapshot),
{
    let ghost start = managed_apps@;
    let mut launch: Vec<usize> = Vec::new();
    let mut i: usize = 0;
    while i < managed_apps.len()
        invariant
            managed_apps@.len() == start.len(),
            i <= start.len(),
            forall|k: int| 0 <= k < i ==> managed_apps@[k] == after_tick(start[k], *snapshot),
            forall|k: int| i <= k < start.len() ==> managed_apps@[k] == start[k],
            as_ints(launch@) == due_indices(start.subrange(0, i as int), *snapshot),
        decreases start.len() - i,
    {
        proof {
            assert(start.subrange(0, i + 1).drop_last() =~= start.subrange(0, i as int));
        }
        let app = &managed_apps[i];
        if app.is_managed && !app.launched {
            let status = check_app_conditions(app, snapshot);
            if status.is_eligible() {
                let mut next = app.clone();
                next.launched = true;
                managed_apps.set(i, next);
                launch.push(i);
                assert(as_ints(launch@) =~= as_ints(launch@.drop_last()).push(i as int));
            }
        }
        i = i + 1;
    }
    proof {
        assert(start.subrange(0, start.len() as int) =~= start);
        assert(managed_apps@ =~= tick_apps(start, *snapshot));
    }
    launch
}

/// A second tick on an unchanged snapshot launches nothing and changes nothing.
pub proof fn lemma_tick_idempotent(apps: Seq<AppConfig>, s: Snapshot)
    ensures
        due_indices(tick_apps(apps, s), s) == Seq::<int>::empty(),
        tick_apps(tick_apps(apps, s), s) == tick_apps(apps, s),
{
    lemma_no_due_after_tick(apps, s);
    assert(tick_apps(tick_apps(apps, s), s) =~= tick_apps(apps, s));
}

proof fn lemma_no_due_after_tick(apps: Seq<AppConfig>, s: Snapshot)
    ensures
        due_indices(tick_apps(apps, s), s) == Seq::<int>::empty(),
    decreases apps.len(),
{
    if apps.len() > 0 {
        lemma_no_due_after_tick(apps.drop_last(), s);
        assert(tick_apps(apps, s).drop_last() =~= tick_apps(apps.drop_last(), s));
    }
}

/// Launching is latched: a record that is launched before a tick is still
/// launched after it, and any record the tick leaves unlaunched was not due.
pub proof fn lemma_launch_latched(apps: Seq<AppConfig>, s: Snapshot, i: int)
    requires
        0 <= i < apps.len(),
    ensures
        apps[i].launched ==> tick_apps(apps, s)[i] == apps[i],
        tick_apps(apps, s)[i].launched <==> (apps[i].launched || due(apps[i], s)),
{
}

proof fn lemma_due_indices_bounds(apps: Seq<AppConfig>, s: Snapshot)
    ensures
        forall|k: int|
            0 <= k < due_indices(apps, s).len() ==> 0 <= #[trigger] due_indices(apps, s)[k]
                < apps.len() && due(apps[due_indices(apps, s)[k]], s),
    decreases apps.len(),
{
    if apps.len() > 0 {
        let d = apps.drop_last();
        lemma_due_indices_bounds(d, s);
        let r = due_indices(apps, s);
        assert forall|k: int| 0 <= k < r.len() implies 0 <= #[trigger] r[k] < apps.len() && due(
            apps[r[k]],
            s,
        ) by {
            if k < due_indices(d, s).len() {
                assert(r[k] == due_indices(d, s)[k]);
                assert(apps[r[k]] == d[r[k]]);
            }
        }
    }
}

/// The names of the records of `apps` at positions `idx`, in that order.
pub open spec fn names_at(apps: Seq<AppConfig>, idx: Seq<int>) -> Seq<String> {
    Seq::new(idx.len(), |k: int| apps[idx[k]].name)
}

/// Every record has been launched in this run.
pub open spec fn all_launched(apps: Seq<AppConfig>) -> bool {
    forall|i: int| 0 <= i < apps.len() ==> #[trigger] apps[i].launched
}

/// A background run over the managed registry: it ticks until every
/// application has been launched, and keeps the names of the launched
/// applications in launch order for the closing notification.
pub struct HiddenRun {
    pub apps: Vec<AppConfig>,
    pub launched_names: Vec<String>,
}

impl HiddenRun {
    /// Starts a run over the records of the persisted managed config.
    pub fn new(apps: Vec<AppConfig>) -> (r: Self)
        ensures
            r.apps@ == all_managed(apps@),
            r.launched_names@ == Seq::<String>::empty(),
    {
        let mut apps = apps;
        mark_managed(&mut apps);
        HiddenRun { apps, launched_names: Vec::new() }
    }

    /// One tick of the run against `snapshot`: launches what is due (see
    /// `perform_launch_checks`) and records the launched names. Returns the
    /// positions the caller starts, in launch order.
    pub fn tick(&mut self, snapshot: &Snapshot) -> (launch: Vec<usize>)
        ensures
            final(self).apps@ == tick_apps(old(self).apps@, *snapshot),
            as_ints(launch@) == due_indices(old(self).apps@, *snapshot),
            final(self).launched_names@ == old(self).launched_names@ + names_at(
                old(self).apps@,
                due_indices(old(self).apps@, *snapshot),
            ),
    {
        let ghost start = self.apps@;
        let ghost names0 = self.launched_names@;
        let launch = perform_launch_checks(&mut self.apps, snapshot);
        proof {
            lemma_due_indices_bounds(start, *snapshot);
        }
        let ghost idx = due_indices(start, *snapshot);
        let mut k: usize = 0;
        while k < launch.len()
            invariant
                self.apps@ == tick_apps(start, *snapshot),
                as_ints(launch@) == idx,
                idx == due_indices(start, *snapshot),
                k <= launch@.len(),
                forall|q: int| 0 <= q < idx.len() ==> 0 <= #[trigger] idx[q] < start.len(),
                self.launched_names@ == names0 + names_at(start, idx.subrange(0, k as int)),
            decreases launch.len() - k,
        {
            let at = launch[k];
            assert(idx[k as int] == at as int);
            let name = self.apps[at].name.clone();
            self.launched_names.push(name);
            assert(names0 + names_at(start, idx.subrange(0, k + 1)) =~= (names0 + names_at(
                start,
                idx.subrange(0, k as int),
            )).push(start[at as int].name));
            k = k + 1;
        }
        assert(idx.subrange(0, launch@.len() as int) =~= idx);
        launch
    }

    /// Whether every application of the run has been launched.
    pub fn is_finished(&self) -> (r: bool)
        ensures
            r == all_launched(self.apps@),
    {
        let mut i: usize = 0;
        while i < self.apps.len()
            invariant
                i <= self.apps@.len(),
                forall|k: int| 0 <= k < i ==> #[trigger] self.apps@[k].launched,
            decreases self.apps.len() - i,
        {
            if !self.apps[i].launched {
                return false;
            }
            i = i + 1;
        }
        true
    }
}

} // verus!
