use vstd::prelude::*;

verus! {

/// Launch preconditions of one application.
pub struct Conditions {
    /// The application waits for network reachability.
    pub internet: bool,
    /// The application waits until this mount point is present.
    pub partition_mounted: Option<String>,
}

/// One application record, managed or discovered in the OS autostart source.
///
/// Paths are held as text: `original_path` is the handle back to the OS
/// autostart entry the record came from, `working_dir` the directory the
/// command runs in.
pub struct AppConfig {
    pub name: String,
    pub command: String,
    pub conditions: Conditions,
    pub original_path: Option<String>,
    pub icon: Option<String>,
    pub working_dir: Option<String>,
    /// Transient: set once this run has launched the application.
    pub launched: bool,
    /// Transient: set while the record belongs to the managed registry.
    pub is_managed: bool,
}

/// The persisted document: the managed registry.
pub struct Config {
    pub apps: Vec<AppConfig>,
}

/// Two sets of conditions ask for the same things.
pub open spec fn same_conditions(a: Conditions, b: Conditions) -> bool {
    a.internet == b.internet && match (a.partition_mounted, b.partition_mounted) {
        (Some(x), Some(y)) => x@ == y@,
        (None, None) => true,
        _ => false,
    }
}

/// A copy of an optional text.
pub(crate) fn clone_text(s: &Option<String>) -> (r: Option<String>)
    ensures
        r == *s,
{
    match s {
        Some(t) => Some(t.clone()),
        None => None,
    }
}

impl Clone for Conditions {
    fn clone(&self) -> (r: Self)
        ensures
            r == *self,
    {
        Conditions { internet: self.internet, partition_mounted: clone_text(&self.partition_mounted) }
    }
}

impl PartialEq for Conditions {
    fn eq(&self, other: &Conditions) -> (r: bool) {
        let same_mount = match (&self.partition_mounted, &other.partition_mounted) {
            (Some(a), Some(b)) => *a == *b,
            (None, None) => true,
            _ => false,
        };
        self.internet == other.internet && same_mount
    }
}

impl vstd::std_specs::cmp::PartialEqSpecImpl for Conditions {
    open spec fn obeys_eq_spec() -> bool {
        true
    }

    open spec fn eq_spec(&self, other: &Conditions) -> bool {
        same_conditions(*self, *other)
    }
}

impl Clone for AppConfig {
    fn clone(&self) -> (r: Self)
        ensures
            r == *self,
    {
        AppConfig {
            name: self.name.clone(),
            command: self.command.clone(),
            conditions: self.conditions.clone(),
            original_path: clone_text(&self.original_path),
            icon: clone_text(&self.icon),
            working_dir: clone_text(&self.working_dir),
            launched: self.launched,
            is_managed: self.is_managed,
        }
    }
}

/// The stored text of an optional path: the path itself, or empty text.
pub open spec fn path_text(p: Option<String>) -> Seq<char> {
    match p {
        Some(x) => x@,
        None => Seq::empty(),
    }
}

/// The stored text of an optional path; an absent path is stored as empty
/// text.
pub fn path_to_text(p: &Option<String>) -> (r: String)
    ensures
        r@ == path_text(*p),
{
    match p {
        Some(x) => x.clone(),
        None => String::new(),
    }
}

/// The optional path that stored text stands for: empty text is no path.
pub fn path_from_text(s: String) -> (r: Option<String>)
    ensures
        r == (if s@.len() == 0 {
            None
        } else {
            Some(s)
        }),
{
    if s.as_str().is_empty() {
        None
    } else {
        Some(s)
    }
}

impl Default for Conditions {
    /// No condition: launch at once.
    fn default() -> (r: Self)
        ensures
            r == (Conditions { internet: false, partition_mounted: None }),
    {
        Conditions { internet: false, partition_mounted: None }
    }
}

impl AppConfig {
    /// A record for an entry found in the OS autostart source at `original_path`:
    /// no conditions, unmanaged, not launched.
    pub fn discovered(
        name: String,
        command: String,
        icon: Option<String>,
        working_dir: Option<String>,
        original_path: String,
    ) -> (r: AppConfig)
        ensures
            r == (AppConfig {
                name,
                command,
                conditions: Conditions { internet: false, partition_mounted: None },
                original_path: Some(original_path),
                icon,
                working_dir,
                launched: false,
                is_managed: false,
            }),
    {
        AppConfig {
            name,
            command,
            conditions: Conditions::default(),
            original_path: Some(original_path),
            icon,
            working_dir,
            launched: false,
            is_managed: false,
        }
    }
}

} // verus!
