use vstd::prelude::*;
use crate::config::{AppConfig, Conditions, clone_text, path_text, path_from_text, path_to_text};
use crate::os::PartitionInfo;

verus! {

/// Conditions as a front end shows them: no mount point is empty text.
pub struct ConditionsView {
    pub internet: bool,
    pub partition_mounted: String,
}

/// One application as a front end shows and edits it.
pub struct AppView {
    pub name: String,
    pub is_managed: bool,
    pub conditions: ConditionsView,
    /// Icon identifier; the front end resolves it to an image.
    pub icon: Option<String>,
}

/// A partition as a front end lists it.
pub struct PartitionView {
    pub mount_point: String,
    pub fs_type: String,
    pub size: String,
}

/// A request to move the record at `index` into (`manage`) or out of the
/// managed registry.
pub struct Toggle {
    pub index: usize,
    pub manage: bool,
}

/// The conditions a front end's view stands for.
pub open spec fn conditions_of_view(v: ConditionsView) -> Conditions {
    Conditions {
        internet: v.internet,
        partition_mounted: if v.partition_mounted@.len() == 0 {
            None
        } else {
            Some(v.partition_mounted)
        },
    }
}

/// The front-end view of a record.
pub fn to_slint_app(app: &AppConfig) -> (r: AppView)
    ensures
        r.name == app.name,
        r.is_managed == app.is_managed,
        r.conditions.internet == app.conditions.internet,
        r.conditions.partition_mounted@ == path_text(app.conditions.partition_mounted),
        r.icon == app.icon,
{
    AppView {
        name: app.name.clone(),
        is_managed: app.is_managed,
        conditions: ConditionsView {
            internet: app.conditions.internet,
            partition_mounted: path_to_text(&app.conditions.partition_mounted),
        },
        icon: clone_text(&app.icon),
    }
}

/// The front-end view of a partition.
pub fn to_slint_partition(p: &PartitionInfo) -> (r: PartitionView)
    ensures
        r.mount_point == p.mount_point,
        r.fs_type == p.fs_type,
        r.size == p.size,
{
    PartitionView {
        mount_point: p.mount_point.clone(),
        fs_type: p.fs_type.clone(),
        size: p.size.clone(),
    }
}

/// The conditions that a view stands for; empty mount text is no mount.
pub fn conditions_from_view(v: &ConditionsView) -> (r: Conditions)
    ensures
        r == conditions_of_view(*v),
{
    Conditions { internet: v.internet, partition_mounted: path_from_text(v.partition_mounted.clone()) }
}

/// The first view of `views` named `n`.
pub open spec fn find_view(views: Seq<AppView>, n: Seq<char>) -> Option<AppView>
    decreases views.len(),
{
    if views.len() == 0 {
        None
    } else if views[0].name@ == n {
        Some(views[0])
    } else {
        find_view(views.drop_first(), n)
    }
}

/// A record after the edits of `views`: a record that has a view takes the
/// view's conditions.
pub open spec fn edited(app: AppConfig, views: Seq<AppView>) -> AppConfig {
    match find_view(views, app.name@) {
        None => app,
        Some(v) => AppConfig { conditions: conditions_of_view(v.conditions), ..app },
    }
}

/// The toggles the views ask for on the first `n` records of `apps`: one for
/// each record whose view's managed flag differs from the record's, in order.
pub open spec fn toggles_for(apps: Seq<AppConfig>, views: Seq<AppView>, n: int) -> Seq<Toggle>
    decreases n,
{
    if n <= 0 {
        Seq::empty()
    } else {
        let rest = toggles_for(apps, views, n - 1);
        match find_view(views, apps[n - 1].name@) {
            Some(v) => if v.is_managed != apps[n - 1].is_managed {
                rest.push(Toggle { index: (n - 1) as usize, manage: v.is_managed })
            } else {
                rest
            },
            None => rest,
        }
    }
}

/// Position of the first view of `views` named `name`, if any.
pub fn find_view_index(views: &Vec<AppView>, name: &String) -> (r: Option<usize>)
    ensures
        match r {
            None => find_view(views@, name@) is None,
            Some(k) => k < views@.len() && find_view(views@, name@) == Some(views@[k as int]),
        },
{
    let mut i: usize = 0;
    assert(views@.skip(0) =~= views@);
    while i < views.len()
        invariant
            i <= views@.len(),
            find_view(views@, name@) == find_view(views@.skip(i as int), name@),
        decreases views.len() - i,
    {
        proof {
            assert(views@.skip(i as int).drop_first() =~= views@.skip(i + 1));
        }
        if views[i].name == *name {
            return Some(i);
        }
        i = i + 1;
    }
    None
}

/// Takes the edits of a front end back into the registry: each record that
/// has a view gets the view's conditions. Moving records into or out of the
/// managed registry needs the OS, so those are returned as toggles, in
/// registry order, for the caller to confirm and apply.
pub fn apply_view_edits(apps: &mut Vec<AppConfig>, views: &Vec<AppView>) -> (toggles: Vec<Toggle>)
    ensures
        final(apps)@.len() == old(apps)@.len(),
        forall|i: int|
            0 <= i < old(apps)@.len() ==> #[trigger] final(apps)@[i] == edited(
                old(apps)@[i],
                views@,
            ),
        toggles@ == toggles_for(old(apps)@, views@, old(apps)@.len() as int),
{
    let ghost start = apps@;
    let mut toggles: Vec<Toggle> = Vec::new();
    let mut i: usize = 0;
    while i < apps.len()
        invariant
            apps@.len() == start.len(),
            i <= start.len(),
            forall|k: int| 0 <= k < i ==> #[trigger] apps@[k] == edited(start[k], views@),
            forall|k: int| i <= k < start.len() ==> #[trigger] apps@[k] == start[k],
            toggles@ == toggles_for(start, views@, i as int),
        decreases start.len() - i,
    {
        match find_view_index(views, &apps[i].name) {
            None => {},
            Some(k) => {
                let view = &views[k];
                let mut entry = apps[i].clone();
                entry.conditions = conditions_from_view(&view.conditions);
                if view.is_managed != entry.is_managed {
                    toggles.push(Toggle { index: i, manage: view.is_managed });
                }
                apps.set(i, entry);
            },
        }
        i = i + 1;
    }
    toggles
}

} // verus!
