//! The device catalog: the block devices that `lsblk` reports, without the virtual
//! ones that cannot be wiped, and their removability.

use vstd::prelude::*;
use crate::text::{has_prefix, is_space, is_space_char, starts_with, str_eq, trim, trim_end, trim_start};

verus! {

/// One block device as the catalog reports it.
#[derive(Debug, Clone)]
pub struct DeviceInfo {
    pub path: String,
    pub size: String,
    pub device_type: String,
    pub mountpoint: String,
    pub model: String,
    pub is_partition: bool,
    pub is_removable: bool,
}

/// The mathematical value of a [`DeviceInfo`].
pub struct DeviceView {
    pub path: Seq<char>,
    pub size: Seq<char>,
    pub device_type: Seq<char>,
    pub mountpoint: Seq<char>,
    pub model: Seq<char>,
    pub is_partition: bool,
    pub is_removable: bool,
}

impl View for DeviceInfo {
    type V = DeviceView;

    open spec fn view(&self) -> DeviceView {
        DeviceView {
            path: self.path@,
            size: self.size@,
            device_type: self.device_type@,
            mountpoint: self.mountpoint@,
            model: self.model@,
            is_partition: self.is_partition,
            is_removable: self.is_removable,
        }
    }
}

impl DeviceInfo {
    /// A copy of this device with the given removability.
    pub fn with_removable(&self, is_removable: bool) -> (r: DeviceInfo)
        ensures
            r@ == (DeviceView { is_removable, ..self@ }),
    {
        DeviceInfo {
            path: self.path.clone(),
            size: self.size.clone(),
            device_type: self.device_type.clone(),
            mountpoint: self.mountpoint.clone(),
            model: self.model.clone(),
            is_partition: self.is_partition,
            is_removable,
        }
    }
}

/// The text split at line breaks; a final line break ends the last line rather than
/// starting an empty one.
pub open spec fn lines_of(s: Seq<char>) -> Seq<Seq<char>> {
    let p = line_scan(s);
    if p.1.len() == 0 {
        p.0
    } else {
        p.0.push(p.1)
    }
}

/// The finished lines of `s` and the unfinished one.
pub open spec fn line_scan(s: Seq<char>) -> (Seq<Seq<char>>, Seq<char>)
    decreases s.len(),
{
    if s.len() == 0 {
        (Seq::empty(), Seq::empty())
    } else {
        let p = line_scan(s.drop_last());
        if s.last() == '\n' {
            (p.0.push(p.1), Seq::empty())
        } else {
            (p.0, p.1.push(s.last()))
        }
    }
}

/// The non-empty runs of non-white-space characters of `s`, in order.
pub open spec fn words_of(s: Seq<char>) -> Seq<Seq<char>> {
    let p = word_scan(s);
    if p.1.len() == 0 {
        p.0
    } else {
        p.0.push(p.1)
    }
}

/// The finished words of `s` and the unfinished one.
pub open spec fn word_scan(s: Seq<char>) -> (Seq<Seq<char>>, Seq<char>)
    decreases s.len(),
{
    if s.len() == 0 {
        (Seq::empty(), Seq::empty())
    } else {
        let p = word_scan(s.drop_last());
        if is_space(s.last()) {
            if p.1.len() > 0 {
                (p.0.push(p.1), Seq::empty())
            } else {
                (p.0, Seq::empty())
            }
        } else {
            (p.0, p.1.push(s.last()))
        }
    }
}

/// The words joined by single blanks.
pub open spec fn join_words(w: Seq<Seq<char>>) -> Seq<char>
    decreases w.len(),
{
    if w.len() == 0 {
        Seq::empty()
    } else if w.len() == 1 {
        w[0]
    } else {
        join_words(w.drop_last()) + seq![' '] + w.last()
    }
}

/// The box-drawing characters with which `lsblk --tree` indents partitions.
pub open spec fn is_tree_mark(c: char) -> bool {
    c == '├' || c == '└' || c == '│' || c == '─'
}

/// `s` without its leading tree marks.
pub open spec fn strip_tree(s: Seq<char>) -> Seq<char>
    decreases s.len(),
{
    if s.len() > 0 && is_tree_mark(s[0]) {
        strip_tree(s.skip(1))
    } else {
        s
    }
}

/// Loop devices, RAM disks and optical drives cannot be meaningfully wiped.
pub open spec fn is_virtual_name(name: Seq<char>) -> bool {
    has_prefix(name, "loop"@) || has_prefix(name, "ram"@) || has_prefix(name, "sr"@)
}

pub open spec fn is_ascii_digit(c: char) -> bool {
    '0' <= c <= '9'
}

/// The kernel's block name of a device: its name without a trailing partition number.
pub open spec fn base_name(name: Seq<char>) -> Seq<char>
    decreases name.len(),
{
    if name.len() > 0 && is_ascii_digit(name.last()) {
        base_name(name.drop_last())
    } else {
        name
    }
}

/// The naming convention used when the hot-plug attribute cannot be read: SCSI disks
/// other than the first are taken to be removable.
pub open spec fn removable_by_name(base: Seq<char>) -> bool {
    has_prefix(base, "sd"@) && !has_prefix(base, "sda"@)
}

/// Removability from the hot-plug attribute's content when it could be read, else from the name.
pub open spec fn removable_of(name: Seq<char>, attribute: Option<Seq<char>>) -> bool {
    match attribute {
        Some(content) => trim_end(trim_start(content)) == seq!['1'],
        None => removable_by_name(base_name(name)),
    }
}

/// The device that one line of `lsblk -n -o NAME,SIZE,TYPE,MOUNTPOINT,MODEL --tree`
/// describes, given its words; none for a short line or a virtual device.
pub open spec fn device_of_words(w: Seq<Seq<char>>) -> Option<DeviceView> {
    if w.len() < 3 {
        None
    } else {
        let name = strip_tree(w[0]);
        if is_virtual_name(name) {
            None
        } else {
            Some(
                DeviceView {
                    path: "/dev/"@ + name,
                    size: w[1],
                    device_type: w[2],
                    mountpoint: if w.len() > 3 {
                        w[3]
                    } else {
                        Seq::empty()
                    },
                    model: if w.len() > 4 {
                        join_words(w.skip(4))
                    } else {
                        "Unknown"@
                    },
                    is_partition: w[2] == "part"@,
                    is_removable: removable_by_name(base_name(name)),
                },
            )
        }
    }
}

/// The devices that the lines of `lsblk` output describe, in order.
pub open spec fn devices_of_lines(lines: Seq<Seq<char>>) -> Seq<DeviceView>
    decreases lines.len(),
{
    if lines.len() == 0 {
        Seq::empty()
    } else {
        let rest = devices_of_lines(lines.drop_last());
        match device_of_words(words_of(lines.last())) {
            Some(d) => rest.push(d),
            None => rest,
        }
    }
}

/// The lines of `s`.
pub fn text_lines(s: &str) -> (r: Vec<String>)
    ensures
        r.deep_view() == lines_of(s@),
{
    let n = s.unicode_len();
    let mut r: Vec<String> = Vec::new();
    let mut start: usize = 0;
    let mut i: usize = 0;
    assert(s@.subrange(0, 0) =~= Seq::<char>::empty());
    while i < n
        invariant
            n == s@.len(),
            start <= i <= n,
            line_scan(s@.subrange(0, i as int)) == (r.deep_view(), s@.subrange(start as int, i as int)),
        decreases n - i,
    {
        let c = s.get_char(i);
        let ghost prev = r.deep_view();
        assert(s@.subrange(0, i + 1).drop_last() =~= s@.subrange(0, i as int));
        if c == '\n' {
            let line = String::from_str(s.substring_char(start, i));
            r.push(line);
            assert(r.deep_view() =~= prev.push(s@.subrange(start as int, i as int)));
            start = i + 1;
        } else {
            assert(s@.subrange(start as int, i + 1) =~= s@.subrange(start as int, i as int).push(c));
        }
        i = i + 1;
        assert(s@.subrange(start as int, i as int).len() == 0 ==> s@.subrange(start as int, i as int)
            =~= Seq::<char>::empty());
    }
    assert(s@.subrange(0, n as int) =~= s@);
    if start < n {
        let ghost prev = r.deep_view();
        r.push(String::from_str(s.substring_char(start, n)));
        assert(r.deep_view() =~= prev.push(s@.subrange(start as int, n as int)));
    }
    r
}

/// The words of `s`.
pub fn text_words(s: &str) -> (r: Vec<String>)
    ensures
        r.deep_view() == words_of(s@),
{
    let n = s.unicode_len();
    let mut r: Vec<String> = Vec::new();
    let mut start: usize = 0;
    let mut i: usize = 0;
    assert(s@.subrange(0, 0) =~= Seq::<char>::empty());
    while i < n
        invariant
            n == s@.len(),
            start <= i <= n,
            word_scan(s@.subrange(0, i as int)) == (r.deep_view(), s@.subrange(start as int, i as int)),
        decreases n - i,
    {
        let c = s.get_char(i);
        let ghost prev = r.deep_view();
        assert(s@.subrange(0, i + 1).drop_last() =~= s@.subrange(0, i as int));
        if is_space_char(c) {
            if start < i {
                let word = String::from_str(s.substring_char(start, i));
                r.push(word);
                assert(r.deep_view() =~= prev.push(s@.subrange(start as int, i as int)));
            }
            start = i + 1;
        } else {
            assert(s@.subrange(start as int, i + 1) =~= s@.subrange(start as int, i as int).push(c));
        }
        i = i + 1;
        assert(s@.subrange(start as int, i as int).len() == 0 ==> s@.subrange(start as int, i as int)
            =~= Seq::<char>::empty());
    }
    assert(s@.subrange(0, n as int) =~= s@);
    if start < n {
        let ghost prev = r.deep_view();
        r.push(String::from_str(s.substring_char(start, n)));
        assert(r.deep_view() =~= prev.push(s@.subrange(start as int, n as int)));
    }
    r
}

/// `s` without its leading tree marks.
pub fn strip_tree_marks(s: &str) -> (r: &str)
    ensures
        r@ == strip_tree(s@),
{
    let n = s.unicode_len();
    let mut k: usize = 0;
    assert(s@.skip(0) =~= s@);
    while k < n && is_tree_mark_char(s.get_char(k))
        invariant
            n == s@.len(),
            k <= n,
            strip_tree(s@) == strip_tree(s@.skip(k as int)),
        decreases n - k,
    {
        assert(s@.skip(k as int).skip(1) =~= s@.skip(k + 1));
        k = k + 1;
    }
    assert(s@.skip(k as int) =~= s@.subrange(k as int, n as int));
    s.substring_char(k, n)
}

pub fn is_tree_mark_char(c: char) -> (r: bool)
    ensures
        r == is_tree_mark(c),
{
    c == '├' || c == '└' || c == '│' || c == '─'
}

/// The kernel's block name of device `name`: the name without a trailing partition number.
pub fn sysfs_block_name(name: &str) -> (r: &str)
    ensures
        r@ == base_name(name@),
{
    let mut end: usize = name.unicode_len();
    assert(name@.subrange(0, end as int) =~= name@);
    while end > 0 && is_ascii_digit_char(name.get_char(end - 1))
        invariant
            end <= name@.len(),
            base_name(name@) == base_name(name@.subrange(0, end as int)),
        decreases end,
    {
        assert(name@.subrange(0, end as int).drop_last() =~= name@.subrange(0, end - 1));
        end = end - 1;
    }
    name.substring_char(0, end)
}

pub fn is_ascii_digit_char(c: char) -> (r: bool)
    ensures
        r == is_ascii_digit(c),
{
    '0' <= c && c <= '9'
}

/// Whether device `name` is removable: from the content of its hot-plug attribute when it
/// could be read, else from the naming convention.
pub fn is_removable_device(name: &str, attribute: Option<&str>) -> (r: bool)
    ensures
        r == removable_of(name@, match attribute {
            Some(a) => Some(a@),
            None => None,
        }),
{
    match attribute {
        Some(content) => {
            let t = trim(content);
            proof {
                reveal_strlit("1");
                assert("1"@ =~= seq!['1']);
            }
            str_eq(t, "1")
        },
        None => {
            let base = sysfs_block_name(name);
            starts_with(base, "sd") && !starts_with(base, "sda")
        },
    }
}

/// The words of `w` from index `from` on, joined by single blanks.
fn join_from(w: &Vec<String>, from: usize) -> (r: String)
    requires
        from < w.len(),
    ensures
        r@ == join_words(w.deep_view().skip(from as int)),
{
    let ghost dv = w.deep_view();
    let mut r = w[from].clone();
    let mut j: usize = from + 1;
    assert(dv.subrange(from as int, j as int) =~= seq![dv[from as int]]);
    while j < w.len()
        invariant
            dv == w.deep_view(),
            from < j <= w.len(),
            r@ == join_words(dv.subrange(from as int, j as int)),
        decreases w.len() - j,
    {
        assert(dv.subrange(from as int, j + 1).drop_last() =~= dv.subrange(from as int, j as int));
        r.append(" ");
        r.append(w[j].as_str());
        proof {
            reveal_strlit(" ");
        }
        j = j + 1;
    }
    assert(dv.subrange(from as int, w.len() as int) =~= dv.skip(from as int));
    r
}

/// The device that one line of `lsblk` output describes, given the line's words.
pub fn parse_device_words(w: &Vec<String>) -> (r: Option<DeviceInfo>)
    ensures
        match r {
            Some(d) => device_of_words(w.deep_view()) == Some(d@),
            None => device_of_words(w.deep_view()) is None,
        },
{
    let ghost dv = w.deep_view();
    if w.len() < 3 {
        return None;
    }
    assert(dv[0] == w@[0]@ && dv[1] == w@[1]@ && dv[2] == w@[2]@);
    let name = strip_tree_marks(w[0].as_str());
    if starts_with(name, "loop") || starts_with(name, "ram") || starts_with(name, "sr") {
        return None;
    }
    let mountpoint = if w.len() > 3 {
        assert(dv[3] == w@[3]@);
        w[3].clone()
    } else {
        String::new()
    };
    let model = if w.len() > 4 {
        join_from(w, 4)
    } else {
        String::from_str("Unknown")
    };
    let base = sysfs_block_name(name);
    let is_removable = starts_with(base, "sd") && !starts_with(base, "sda");
    let d = DeviceInfo {
        path: String::from_str("/dev/").concat(name),
        size: w[1].clone(),
        device_type: w[2].clone(),
        mountpoint,
        model,
        is_partition: str_eq(w[2].as_str(), "part"),
        is_removable,
    };
    Some(d)
}

/// The devices that `lsblk -n -o NAME,SIZE,TYPE,MOUNTPOINT,MODEL --tree` printed, in order,
/// without short lines and virtual devices. Removability comes from the naming convention
/// here; [`apply_removable_attributes`] refines it with what the system reports.
pub fn parse_block_devices(output: &str) -> (r: Vec<DeviceInfo>)
    ensures
        r@.map_values(|d: DeviceInfo| d@) == devices_of_lines(lines_of(output@)),
{
    let lines = text_lines(output);
    let ghost ls = lines.deep_view();
    let mut r: Vec<DeviceInfo> = Vec::new();
    let mut i: usize = 0;
    assert(ls.subrange(0, 0) =~= Seq::<Seq<char>>::empty());
    while i < lines.len()
        invariant
            ls == lines.deep_view(),
            i <= lines.len(),
            r@.map_values(|d: DeviceInfo| d@) == devices_of_lines(ls.subrange(0, i as int)),
        decreases lines.len() - i,
    {
        assert(ls.subrange(0, i + 1).drop_last() =~= ls.subrange(0, i as int));
        assert(ls[i as int] == lines@[i as int]@);
        let words = text_words(lines[i].as_str());
        let ghost prev = r@.map_values(|d: DeviceInfo| d@);
        match parse_device_words(&words) {
            Some(d) => {
                r.push(d);
                assert(r@.map_values(|d: DeviceInfo| d@) =~= prev.push(d@));
            },
            None => {},
        }
        i = i + 1;
    }
    assert(ls.subrange(0, lines.len() as int) =~= ls);
    r
}

/// The device name under `/dev/` of a catalog path.
pub open spec fn device_name_of(path: Seq<char>) -> Seq<char> {
    if has_prefix(path, "/dev/"@) {
        path.skip(5)
    } else {
        path
    }
}

/// The device name under `/dev/` of a catalog path.
pub fn device_name(path: &str) -> (r: &str)
    ensures
        r@ == device_name_of(path@),
{
    proof {
        reveal_strlit("/dev/");
    }
    if starts_with(path, "/dev/") {
        path.substring_char(5, path.unicode_len())
    } else {
        path
    }
}

/// Sets the removability of each device from the content of its hot-plug attribute,
/// `attributes[i]` for `devices[i]` (none where it could not be read).
pub fn apply_removable_attributes(devices: &mut Vec<DeviceInfo>, attributes: &Vec<Option<String>>)
    requires
        old(devices)@.len() == attributes@.len(),
    ensures
        final(devices)@.len() == old(devices)@.len(),
        forall|i: int|
            0 <= i < final(devices)@.len() ==> {
                let before = #[trigger] old(devices)@[i]@;
                let after = final(devices)@[i]@;
                &&& after.path == before.path
                &&& after.size == before.size
                &&& after.device_type == before.device_type
                &&& after.mountpoint == before.mountpoint
                &&& after.model == before.model
                &&& after.is_partition == before.is_partition
                &&& after.is_removable == removable_of(
                    device_name_of(before.path),
                    match attributes@[i] {
                        Some(a) => Some(a@),
                        None => None,
                    },
                )
            },
{
    let mut i: usize = 0;
    while i < devices.len()
        invariant
            devices@.len() == old(devices)@.len(),
            devices@.len() == attributes@.len(),
            i <= devices@.len(),
            forall|j: int| i <= j < devices@.len() ==> #[trigger] devices@[j] == old(devices)@[j],
            forall|j: int|
                0 <= j < i ==> {
                    let before = #[trigger] old(devices)@[j]@;
                    let after = devices@[j]@;
                    &&& after.path == before.path
                    &&& after.size == before.size
                    &&& after.device_type == before.device_type
                    &&& after.mountpoint == before.mountpoint
                    &&& after.model == before.model
                    &&& after.is_partition == before.is_partition
                    &&& after.is_removable == removable_of(
                        device_name_of(before.path),
                        match attributes@[j] {
                            Some(a) => Some(a@),
                            None => None,
                        },
                    )
                },
        decreases devices@.len() - i,
    {
        let removable = {
            let name = device_name(devices[i].path.as_str());
            match &attributes[i] {
                Some(a) => is_removable_device(name, Some(a.as_str())),
                None => is_removable_device(name, None),
            }
        };
        let d = devices[i].with_removable(removable);
        devices.set(i, d);
        i = i + 1;
    }
}

/// A drive as the selection screen shows it.
#[derive(Clone, Debug)]
pub struct DriveInfo {
    pub path: String,
    pub name: String,
    pub size_gb: u64,
    pub mount_point: String,
}

/// The mathematical value of a [`DriveInfo`].
pub struct DriveView {
    pub path: Seq<char>,
    pub name: Seq<char>,
    pub size_gb: nat,
    pub mount_point: Seq<char>,
}

impl View for DriveInfo {
    type V = DriveView;

    open spec fn view(&self) -> DriveView {
        DriveView {
            path: self.path@,
            name: self.name@,
            size_gb: self.size_gb as nat,
            mount_point: self.mount_point@,
        }
    }
}

/// The drives of the demonstration catalog.
pub open spec fn demo_drives() -> Seq<DriveView> {
    seq![
        DriveView { path: "/dev/sda"@, name: "Samsung SSD 970 EVO Plus"@, size_gb: 500, mount_point: "/"@ },
        DriveView { path: "/dev/sdb"@, name: "SanDisk Ultra USB 3.0"@, size_gb: 64, mount_point: "/mnt/usb"@ },
        DriveView { path: "/dev/sdc"@, name: "WD Blue HDD"@, size_gb: 1000, mount_point: "-"@ },
        DriveView { path: "/dev/nvme0n1"@, name: "Intel SSD 660p Series"@, size_gb: 256, mount_point: "-"@ },
    ]
}

fn drive(path: &str, name: &str, size_gb: u64, mount_point: &str) -> (r: DriveInfo)
    ensures
        r@ == (DriveView { path: path@, name: name@, size_gb: size_gb as nat, mount_point: mount_point@ }),
{
    DriveInfo {
        path: String::from_str(path),
        name: String::from_str(name),
        size_gb,
        mount_point: String::from_str(mount_point),
    }
}

/// The drives offered by the demonstration catalog; `-` marks a drive that is not mounted.
pub fn get_available_drives() -> (r: Vec<DriveInfo>)
    ensures
        r@.map_values(|d: DriveInfo| d@) == demo_drives(),
{
    let mut r: Vec<DriveInfo> = Vec::new();
    r.push(drive("/dev/sda", "Samsung SSD 970 EVO Plus", 500, "/"));
    r.push(drive("/dev/sdb", "SanDisk Ultra USB 3.0", 64, "/mnt/usb"));
    r.push(drive("/dev/sdc", "WD Blue HDD", 1000, "-"));
    r.push(drive("/dev/nvme0n1", "Intel SSD 660p Series", 256, "-"));
    assert(r@.map_values(|d: DriveInfo| d@) =~= demo_drives());
    r
}

} // verus!
