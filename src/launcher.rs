use vstd::prelude::*;
use crate::config::{AppConfig, Conditions, same_conditions};
use crate::os::PartitionInfo;
use crate::registry::{has_name, merged, merge, contains_name};

verus! {

/// The working registry of an interactive session, with the partitions the
/// operator can pick from.
pub struct ConditionalLauncherApp {
    pub apps: Vec<AppConfig>,
    pub available_partitions: Vec<PartitionInfo>,
}

/// What to do about this tool's own autostart entry after a save.
pub enum SelfRegistration {
    /// No application is managed: remove the entry.
    Remove,
    /// Register the entry, described by the number of managed applications.
    Add(usize),
}

/// What a save writes: the managed records, and the tool's own autostart
/// entry.
pub struct SavePlan {
    pub apps: Vec<AppConfig>,
    pub registration: SelfRegistration,
}

/// What an edit of an application's conditions calls for.
pub enum ConditionChange {
    /// The conditions did not change.
    Unchanged,
    /// A managed application keeps conditions: save the registry.
    Save,
    /// An unmanaged application gained a condition: promote it.
    Manage,
    /// A managed application lost every condition: demote it.
    Unmanage,
}

/// The managed records of `s`, in order.
pub open spec fn managed_subset(s: Seq<AppConfig>) -> Seq<AppConfig>
    decreases s.len(),
{
    if s.len() == 0 {
        Seq::empty()
    } else if s.last().is_managed {
        managed_subset(s.drop_last()).push(s.last())
    } else {
        managed_subset(s.drop_last())
    }
}

/// The records of `s` that are managed or still present in `fresh`, in order.
pub open spec fn still_listed(s: Seq<AppConfig>, fresh: Seq<AppConfig>) -> Seq<AppConfig>
    decreases s.len(),
{
    if s.len() == 0 {
        Seq::empty()
    } else if s.last().is_managed || has_name(fresh, s.last().name@) {
        still_listed(s.drop_last(), fresh).push(s.last())
    } else {
        still_listed(s.drop_last(), fresh)
    }
}

/// `s` with the record at `i` moved into (`managed`) or out of the managed
/// registry.
pub open spec fn with_managed(s: Seq<AppConfig>, i: int, managed: bool) -> Seq<AppConfig> {
    s.update(i, AppConfig { is_managed: managed, ..s[i] })
}

/// Conditions declare something to wait for.
pub open spec fn has_condition(c: Conditions) -> bool {
    c.internet || c.partition_mounted is Some
}

pub open spec fn change_for(app: AppConfig, before: Conditions) -> ConditionChange {
    if same_conditions(app.conditions, before) {
        ConditionChange::Unchanged
    } else if app.is_managed {
        if has_condition(app.conditions) {
            ConditionChange::Save
        } else {
            ConditionChange::Unmanage
        }
    } else if has_condition(app.conditions) {
        ConditionChange::Manage
    } else {
        ConditionChange::Unchanged
    }
}

/// Decides what follows an edit of `app`'s conditions, whose value before
/// the edit was `before`.
pub fn conditions_change(app: &AppConfig, before: &Conditions) -> (r: ConditionChange)
    ensures
        r == change_for(*app, *before),
{
    if app.conditions == *before {
        return ConditionChange::Unchanged;
    }
    let should_be_managed = app.conditions.internet || app.conditions.partition_mounted.is_some();
    if app.is_managed {
        if should_be_managed {
            ConditionChange::Save
        } else {
            ConditionChange::Unmanage
        }
    } else if should_be_managed {
        ConditionChange::Manage
    } else {
        ConditionChange::Unchanged
    }
}

impl ConditionalLauncherApp {
    pub fn new(apps: Vec<AppConfig>, available_partitions: Vec<PartitionInfo>) -> (r: Self)
        ensures
            r.apps == apps,
            r.available_partitions == available_partitions,
    {
        ConditionalLauncherApp { apps, available_partitions }
    }

    /// Reconciles the registry with a fresh listing of the OS autostart
    /// source: unmanaged records that left it are dropped, new entries are
    /// added unmanaged, managed records stay, and the result is in name order.
    pub fn refresh_autostart_list(&mut self, fresh: Vec<AppConfig>)
        ensures
            final(self).apps@ == merged(still_listed(old(self).apps@, fresh@), fresh@),
            final(self).available_partitions == old(self).available_partitions,
    {
        let mut kept: Vec<AppConfig> = Vec::new();
        let mut i: usize = 0;
        while i < self.apps.len()
            invariant
                i <= self.apps@.len(),
                self.apps == old(self).apps,
                self.available_partitions == old(self).available_partitions,
                kept@ == still_listed(self.apps@.subrange(0, i as int), fresh@),
            decreases self.apps.len() - i,
        {
            proof {
                assert(self.apps@.subrange(0, i + 1).drop_last() =~= self.apps@.subrange(
                    0,
                    i as int,
                ));
            }
            let app = &self.apps[i];
            if app.is_managed || contains_name(&fresh, &app.name) {
                kept.push(app.clone());
            }
            i = i + 1;
        }
        proof {
            assert(self.apps@.subrange(0, self.apps@.len() as int) =~= self.apps@);
        }
        self.apps = merge(kept, fresh);
    }

    /// The records a save persists: the managed ones, in registry order.
    pub fn managed_apps(&self) -> (r: Vec<AppConfig>)
        ensures
            r@ == managed_subset(self.apps@),
    {
        let mut out: Vec<AppConfig> = Vec::new();
        let mut i: usize = 0;
        while i < self.apps.len()
            invariant
                i <= self.apps@.len(),
                out@ == managed_subset(self.apps@.subrange(0, i as int)),
            decreases self.apps.len() - i,
        {
            proof {
                assert(self.apps@.subrange(0, i + 1).drop_last() =~= self.apps@.subrange(
                    0,
                    i as int,
                ));
            }
            if self.apps[i].is_managed {
                out.push(self.apps[i].clone());
            }
            i = i + 1;
        }
        proof {
            assert(self.apps@.subrange(0, self.apps@.len() as int) =~= self.apps@);
        }
        out
    }

    /// What saving the registry writes: the managed records, and this tool's
    /// own autostart entry, removed when nothing is managed and otherwise
    /// described by the number of managed records.
    pub fn save_config(&self) -> (r: SavePlan)
        ensures
            r.apps@ == managed_subset(self.apps@),
            r.registration == (if managed_subset(self.apps@).len() == 0 {
                SelfRegistration::Remove
            } else {
                SelfRegistration::Add(managed_subset(self.apps@).len() as usize)
            }),
    {
        let apps = self.managed_apps();
        let count = apps.len();
        let registration = if count == 0 {
            SelfRegistration::Remove
        } else {
            SelfRegistration::Add(count)
        };
        SavePlan { apps, registration }
    }

    /// Promotes the record at `i` into the managed registry once the OS has
    /// confirmed that its native autostart entry was set aside. Without that
    /// confirmation nothing changes. Returns whether the promotion applied.
    pub fn manage(&mut self, i: usize, confirmed: bool) -> (applied: bool)
        requires
            i < old(self).apps@.len(),
        ensures
            applied == confirmed,
            final(self).apps@ == (if confirmed {
                with_managed(old(self).apps@, i as int, true)
            } else {
                old(self).apps@
            }),
            final(self).available_partitions == old(self).available_partitions,
    {
        self.set_managed(i, true, confirmed)
    }

    /// Demotes the record at `i` out of the managed registry once the OS has
    /// confirmed that its native autostart entry was restored. Without that
    /// confirmation nothing changes. Returns whether the demotion applied.
    pub fn unmanage(&mut self, i: usize, confirmed: bool) -> (applied: bool)
        requires
            i < old(self).apps@.len(),
        ensures
            applied == confirmed,
            final(self).apps@ == (if confirmed {
                with_managed(old(self).apps@, i as int, false)
            } else {
                old(self).apps@
            }),
            final(self).available_partitions == old(self).available_partitions,
    {
        self.set_managed(i, false, confirmed)
    }

    fn set_managed(&mut self, i: usize, managed: bool, confirmed: bool) -> (applied: bool)
        requires
            i < old(self).apps@.len(),
        ensures
            applied == confirmed,
            final(self).apps@ == (if confirmed {
                with_managed(old(self).apps@, i as int, managed)
            } else {
                old(self).apps@
            }),
            final(self).available_partitions == old(self).available_partitions,
    {
        if !confirmed {
            return false;
        }
        let mut entry = self.apps[i].clone();
        entry.is_managed = managed;
        self.apps.set(i, entry);
        assert(self.apps@ =~= with_managed(old(self).apps@, i as int, managed));
        true
    }
}

/// Where the OS autostart entry of `app` stands: at its original path while
/// unmanaged, set aside while managed; none for a record the tool created.
pub open spec fn native_entry(app: AppConfig) -> Option<Seq<char>> {
    match app.original_path {
        None => None,
        Some(p) => Some(
            if app.is_managed {
                p@ + ".disabled"@
            } else {
                p@
            },
        ),
    }
}

/// Promoting an unmanaged record and then demoting it, both confirmed by the
/// OS, gives back the registry it started from: the record is unmanaged
/// again and its autostart entry stands where it stood.
pub proof fn lemma_promote_demote_round_trip(s: Seq<AppConfig>, i: int)
    requires
        0 <= i < s.len(),
        !s[i].is_managed,
    ensures
        with_managed(with_managed(s, i, true), i, false) == s,
        with_managed(s, i, true)[i].is_managed,
        native_entry(with_managed(with_managed(s, i, true), i, false)[i]) == native_entry(s[i]),
{
    assert(with_managed(with_managed(s, i, true), i, false) =~= s);
}

} // verus!
