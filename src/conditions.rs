use vstd::prelude::*;
use crate::config::{AppConfig, Conditions};

verus! {

/// The environment as seen by one orchestration tick: whether the network is
/// reachable and which mount points are present. One snapshot judges every
/// application of a tick.
pub struct Snapshot {
    pub reachable: bool,
    pub mount_points: Vec<String>,
}

/// Per-condition verdict for one application.
pub struct ConditionStatus {
    pub internet_ok: bool,
    pub partition_ok: bool,
}

/// `p` is, letter for letter, one of the mount points.
pub open spec fn mounted(mount_points: Seq<String>, p: Seq<char>) -> bool {
    exists|i: int| 0 <= i < mount_points.len() && #[trigger] mount_points[i]@ == p
}

/// The verdict of `c` against an environment.
pub open spec fn evaluate(c: Conditions, reachable: bool, mount_points: Seq<String>) -> ConditionStatus {
    ConditionStatus {
        internet_ok: !c.internet || reachable,
        partition_ok: match c.partition_mounted {
            None => true,
            Some(p) => mounted(mount_points, p@),
        },
    }
}

impl ConditionStatus {
    /// Every declared condition holds.
    pub open spec fn all_ok(self) -> bool {
        self.internet_ok && self.partition_ok
    }

    pub fn is_eligible(&self) -> (r: bool)
        ensures
            r == self.all_ok(),
    {
        self.internet_ok && self.partition_ok
    }
}

/// An application may be launched now: all its conditions hold in `s`.
pub open spec fn eligible(app: AppConfig, s: Snapshot) -> bool {
    evaluate(app.conditions, s.reachable, s.mount_points@).all_ok()
}

/// Whether `path` is exactly one of `mount_points` (no prefix matching).
pub fn is_partition_mounted(path: &String, mount_points: &Vec<String>) -> (r: bool)
    ensures
        r == mounted(mount_points@, path@),
{
    let mut i: usize = 0;
    while i < mount_points.len()
        invariant
            i <= mount_points.len(),
            forall|k: int| 0 <= k < i ==> mount_points@[k]@ != path@,
        decreases mount_points.len() - i,
    {
        if mount_points[i] == *path {
            return true;
        }
        i = i + 1;
    }
    false
}

/// Evaluates the conditions of `app` against `snapshot`.
pub fn check_app_conditions(app: &AppConfig, snapshot: &Snapshot) -> (r: ConditionStatus)
    ensures
        r == evaluate(app.conditions, snapshot.reachable, snapshot.mount_points@),
{
    let partition_ok = match &app.conditions.partition_mounted {
        None => true,
        Some(p) => is_partition_mounted(p, &snapshot.mount_points),
    };
    let internet_ok = !app.conditions.internet || snapshot.reachable;
    ConditionStatus { internet_ok, partition_ok }
}

/// An application that does not ask for the network passes the network
/// check, whether or not the network is reachable.
pub proof fn lemma_internet_not_required(c: Conditions, reachable: bool, mount_points: Seq<String>)
    requires
        !c.internet,
    ensures
        evaluate(c, reachable, mount_points).internet_ok,
{
}

/// An application that asks for mount point `p` passes the partition check
/// exactly when `p` itself, compared letter for letter, is mounted.
pub proof fn lemma_partition_exact(c: Conditions, reachable: bool, mount_points: Seq<String>)
    requires
        c.partition_mounted is Some,
    ensures
        evaluate(c, reachable, mount_points).partition_ok <==> exists|i: int|
            0 <= i < mount_points.len() && mount_points[i]@ == c.partition_mounted->0@,
{
}

} // verus!
