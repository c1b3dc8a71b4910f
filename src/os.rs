use vstd::prelude::*;

verus! {

/// A mounted filesystem the operator can pick as a launch condition.
pub struct PartitionInfo {
    pub mount_point: String,
    pub fs_type: String,
    /// Display text of the capacity.
    pub size: String,
}

/// `p` is a prefix of `s`.
pub open spec fn starts_with(s: Seq<char>, p: Seq<char>) -> bool {
    p.len() <= s.len() && s.subrange(0, p.len() as int) == p
}

/// Whether `s` begins with `p`.
pub fn has_prefix(s: &str, p: &str) -> (r: bool)
    ensures
        r == starts_with(s@, p@),
{
    let ls = s.unicode_len();
    let lp = p.unicode_len();
    if lp > ls {
        return false;
    }
    let mut i: usize = 0;
    while i < lp
        invariant
            lp <= ls,
            ls == s@.len(),
            lp == p@.len(),
            i <= lp,
            forall|k: int| 0 <= k < i ==> s@[k] == p@[k],
        decreases lp - i,
    {
        if s.get_char(i) != p.get_char(i) {
            assert(s@.subrange(0, lp as int)[i as int] != p@[i as int]);
            return false;
        }
        i = i + 1;
    }
    assert(s@.subrange(0, lp as int) =~= p@);
    true
}

/// A mount worth offering as a condition: an absolute mount point on a
/// filesystem that is not a virtual or temporary one.
pub open spec fn listed_partition(mount_point: Seq<char>, fs_type: Seq<char>) -> bool {
    &&& starts_with(mount_point, "/"@)
    &&& !starts_with(fs_type, "squashfs"@)
    &&& !starts_with(fs_type, "overlay"@)
    &&& !starts_with(fs_type, "tmpfs"@)
    &&& !starts_with(fs_type, "devtmpfs"@)
    &&& !starts_with(fs_type, "fuse."@)
}

/// Whether a mount with this mount point and filesystem type is offered as
/// a partition condition.
pub fn is_listed_partition(mount_point: &String, fs_type: &String) -> (r: bool)
    ensures
        r == listed_partition(mount_point@, fs_type@),
{
    let fs = fs_type.as_str();
    has_prefix(mount_point.as_str(), "/") && !has_prefix(fs, "squashfs") && !has_prefix(
        fs,
        "overlay",
    ) && !has_prefix(fs, "tmpfs") && !has_prefix(fs, "devtmpfs") && !has_prefix(fs, "fuse.")
}

/// Where an OS autostart entry is set aside while its application is managed.
pub fn disabled_path(path: &String) -> (r: String)
    ensures
        r@ == path@ + ".disabled"@,
{
    let mut r = path.clone();
    r.append(".disabled");
    r
}

/// `p` is a suffix of `s`.
pub open spec fn ends_with(s: Seq<char>, p: Seq<char>) -> bool {
    p.len() <= s.len() && s.subrange(s.len() - p.len(), s.len() as int) == p
}

/// Whether `s` ends with `p`.
pub fn has_suffix(s: &str, p: &str) -> (r: bool)
    ensures
        r == ends_with(s@, p@),
{
    let ls = s.unicode_len();
    let lp = p.unicode_len();
    if lp > ls {
        return false;
    }
    let off = ls - lp;
    let mut i: usize = 0;
    while i < lp
        invariant
            lp <= ls,
            off == ls - lp,
            ls == s@.len(),
            lp == p@.len(),
            i <= lp,
            forall|k: int| 0 <= k < i ==> s@[off + k] == p@[k],
        decreases lp - i,
    {
        if s.get_char(off + i) != p.get_char(i) {
            assert(s@.subrange(off as int, ls as int)[i as int] != p@[i as int]);
            return false;
        }
        i = i + 1;
    }
    assert(s@.subrange(off as int, ls as int) =~= p@);
    true
}

/// File name of this tool's own autostart entry.
pub fn self_entry_file() -> (r: String)
    ensures
        r@ == "conditional-launcher.desktop"@,
{
    String::from_str("conditional-launcher.desktop")
}

/// A file of the autostart directory that holds an application's entry: its
/// extension (what follows a final dot that does not start the name) is
/// `desktop`, and it is not this tool's own entry.
pub open spec fn autostart_entry_file(file_name: Seq<char>) -> bool {
    &&& ends_with(file_name, ".desktop"@)
    &&& file_name.len() > ".desktop"@.len()
    &&& file_name != "conditional-launcher.desktop"@
}

/// Whether the autostart directory's file `file_name` is an application
/// entry to list.
pub fn is_autostart_entry_file(file_name: &String) -> (r: bool)
    ensures
        r == autostart_entry_file(file_name@),
{
    proof {
        reveal_strlit(".desktop");
    }
    let own = self_entry_file();
    let name = file_name.as_str();
    has_suffix(name, ".desktop") && name.unicode_len() > 8 && !(*file_name == own)
}

} // verus!
