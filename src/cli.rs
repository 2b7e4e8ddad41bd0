//! Decisions of the command-line front end: its options, the confirmation phrase, the
//! menu of devices and the choice made in it.

use vstd::prelude::*;
use crate::device::{DeviceInfo, DeviceView};
use crate::text::{decimal_digits, decimal_text, str_eq, trim, trim_end, trim_start};

verus! {

/// The options given on the command line.
pub struct CliOptions {
    /// The device to wipe: the first argument after the program name, if any.
    pub device: Option<String>,
    /// Skip the confirmation (`--force` or `-f`).
    pub force: bool,
    /// Read the device back after the wipe (`--verify` or `-v`).
    pub verify: bool,
    /// Show the usage (`--help` or `-h`).
    pub help: bool,
}

/// Whether one of the arguments is `long` or `short`.
pub open spec fn has_flag(args: Seq<Seq<char>>, long: Seq<char>, short: Seq<char>) -> bool {
    exists|i: int| 0 <= i < args.len() && (#[trigger] args[i] == long || args[i] == short)
}

fn flag_given(args: &Vec<String>, long: &str, short: &str) -> (r: bool)
    ensures
        r == has_flag(args.deep_view(), long@, short@),
{
    let ghost dv = args.deep_view();
    let mut i: usize = 0;
    while i < args.len()
        invariant
            dv == args.deep_view(),
            i <= args@.len(),
            forall|j: int| 0 <= j < i ==> !(#[trigger] dv[j] == long@ || dv[j] == short@),
        decreases args@.len() - i,
    {
        assert(dv[i as int] == args@[i as int]@);
        if str_eq(args[i].as_str(), long) || str_eq(args[i].as_str(), short) {
            return true;
        }
        i = i + 1;
    }
    false
}

/// The options of the argument list `args`, program name first.
pub fn parse_args(args: &Vec<String>) -> (r: CliOptions)
    ensures
        match r.device {
            Some(d) => args@.len() > 1 && d@ == args@[1]@,
            None => args@.len() <= 1,
        },
        r.force == has_flag(args.deep_view(), "--force"@, "-f"@),
        r.verify == has_flag(args.deep_view(), "--verify"@, "-v"@),
        r.help == has_flag(args.deep_view(), "--help"@, "-h"@),
{
    let device = if args.len() > 1 {
        Some(args[1].clone())
    } else {
        None
    };
    CliOptions {
        device,
        force: flag_given(args, "--force", "-f"),
        verify: flag_given(args, "--verify", "-v"),
        help: flag_given(args, "--help", "-h"),
    }
}

/// The phrase an operator must type to confirm a wipe.
pub open spec fn confirmation_phrase() -> Seq<char> {
    "DESTROY ALL DATA"@
}

/// The phrase the graphical front end asks for: a shorter one in force mode.
pub open spec fn gui_confirmation_phrase(force: bool) -> Seq<char> {
    if force {
        "FORCE WIPE"@
    } else {
        confirmation_phrase()
    }
}

/// Whether the text typed in the graphical front end confirms the wipe.
pub fn is_gui_confirmation(input: &str, force: bool) -> (r: bool)
    ensures
        r == (trim_end(trim_start(input@)) == gui_confirmation_phrase(force)),
{
    if force {
        str_eq(trim(input), "FORCE WIPE")
    } else {
        str_eq(trim(input), "DESTROY ALL DATA")
    }
}

/// Whether a typed answer is yes: `y` in either case, without surrounding white space.
pub fn is_yes(answer: &str) -> (r: bool)
    ensures
        r == (trim_end(trim_start(answer@)) == seq!['y'] || trim_end(trim_start(answer@)) == seq!['Y']),
{
    let t = trim(answer);
    proof {
        reveal_strlit("y");
        reveal_strlit("Y");
        assert("y"@ =~= seq!['y']);
        assert("Y"@ =~= seq!['Y']);
    }
    str_eq(t, "y") || str_eq(t, "Y")
}

/// Whether the line the operator typed confirms the wipe.
pub fn is_wipe_confirmation(input: &str) -> (r: bool)
    ensures
        r == (trim_end(trim_start(input@)) == confirmation_phrase()),
{
    str_eq(trim(input), "DESTROY ALL DATA")
}

/// The value of a string of decimal digits.
pub open spec fn digits_value(s: Seq<char>) -> nat
    decreases s.len(),
{
    if s.len() == 0 {
        0
    } else {
        digits_value(s.drop_last()) * 10 + (s.last() as nat - '0' as nat) as nat
    }
}

pub open spec fn all_digits(s: Seq<char>) -> bool {
    forall|i: int| 0 <= i < s.len() ==> '0' <= #[trigger] s[i] <= '9'
}

/// The digits of a number as `usize` parsing reads them: after at most one leading `+`.
pub open spec fn unsigned_digits(t: Seq<char>) -> Seq<char> {
    if t.len() > 0 && t[0] == '+' {
        t.skip(1)
    } else {
        t
    }
}

/// The menu entry that a typed line selects among `count` entries numbered from 1: the
/// index of the entry, counted from 0. The line, without surrounding white space, must be
/// an unsigned decimal number, optionally signed `+`.
pub open spec fn selection_of(input: Seq<char>, count: nat) -> Option<nat> {
    let d = unsigned_digits(trim_end(trim_start(input)));
    if d.len() > 0 && all_digits(d) && 1 <= digits_value(d) <= count {
        Some((digits_value(d) - 1) as nat)
    } else {
        None
    }
}

/// The menu entry that the typed line `input` selects among `count` entries.
pub fn parse_selection(input: &str, count: usize) -> (r: Option<usize>)
    ensures
        match r {
            Some(i) => selection_of(input@, count as nat) == Some(i as nat),
            None => selection_of(input@, count as nat) is None,
        },
{
    let trimmed = trim(input);
    let t = if trimmed.unicode_len() > 0 && trimmed.get_char(0) == '+' {
        trimmed.substring_char(1, trimmed.unicode_len())
    } else {
        trimmed
    };
    assert(t@ == unsigned_digits(trim_end(trim_start(input@))));
    let n = t.unicode_len();
    if n == 0 {
        return None;
    }
    let mut value: usize = 0;
    let mut i: usize = 0;
    assert(t@.subrange(0, 0) =~= Seq::<char>::empty());
    while i < n
        invariant
            n == t@.len(),
            t@ == unsigned_digits(trim_end(trim_start(input@))),
            i <= n,
            value <= count,
            value == digits_value(t@.subrange(0, i as int)),
            all_digits(t@.subrange(0, i as int)),
        decreases n - i,
    {
        let c = t.get_char(i);
        let ghost prefix = t@.subrange(0, i + 1);
        assert(prefix.drop_last() =~= t@.subrange(0, i as int));
        if c < '0' || c > '9' {
            assert(!all_digits(t@)) by {
                assert(t@[i as int] == c);
                assert(!('0' <= t@[i as int] && t@[i as int] <= '9'));
            }
            return None;
        }
        let d = (c as u32 - '0' as u32) as usize;
        if d > count || value > (count - d) / 10 {
            proof {
                lemma_digits_value_grows(t@, (i + 1) as nat);
                assert(digits_value(prefix) > count) by (nonlinear_arith)
                    requires
                        d > count || value > (count - d) / 10,
                        digits_value(prefix) == value * 10 + d,
                        value >= 0,
                ;
            }
            return None;
        }
        assert(value * 10 + d <= count) by (nonlinear_arith)
            requires
                value <= (count - d) / 10,
                d <= count,
        ;
        value = value * 10 + d;
        i = i + 1;
    }
    assert(t@.subrange(0, n as int) =~= t@);
    if value == 0 {
        None
    } else {
        Some(value - 1)
    }
}

/// A longer run of digits is worth at least as much as its prefix.
proof fn lemma_digits_value_grows(s: Seq<char>, k: nat)
    requires
        k <= s.len(),
        all_digits(s.subrange(0, k as int)),
    ensures
        all_digits(s) ==> digits_value(s.subrange(0, k as int)) <= digits_value(s),
    decreases s.len() - k,
{
    if all_digits(s) && k < s.len() {
        let p = s.subrange(0, k as int);
        let q = s.subrange(0, k as int + 1);
        assert(q.drop_last() =~= p);
        assert(all_digits(q));
        lemma_digits_value_grows(s, k + 1);
        assert(s.subrange(0, s.len() as int) =~= s);
    } else if k == s.len() {
        assert(s.subrange(0, k as int) =~= s);
    }
}

/// Whether a model name is worth showing.
pub open spec fn shows_model(model: Seq<char>) -> bool {
    model.len() > 0 && model != "Unknown"@
}

/// Whether a mount point denotes a mounted device.
pub open spec fn shows_mount(mountpoint: Seq<char>) -> bool {
    mountpoint.len() > 0 && mountpoint != "-"@
}

/// The menu line of device `d` under `number`.
pub open spec fn menu_line(number: nat, d: DeviceView) -> Seq<char> {
    "  "@ + decimal_digits(number) + ". "@ + d.path + " ("@ + d.size + ") - "@ + d.device_type + " "@ + (if shows_model(
        d.model,
    ) {
        "- "@ + d.model
    } else {
        Seq::empty()
    }) + (if shows_mount(d.mountpoint) {
        " [Mounted: "@ + d.mountpoint + "]"@
    } else {
        Seq::empty()
    })
}

/// The menu line of `device` under `number`.
pub fn device_menu_line(number: u64, device: &DeviceInfo) -> (r: String)
    ensures
        r@ == menu_line(number as nat, device@),
{
    let mut r = String::from_str("  ");
    r.append(decimal_text(number).as_str());
    r.append(". ");
    r.append(device.path.as_str());
    r.append(" (");
    r.append(device.size.as_str());
    r.append(") - ");
    r.append(device.device_type.as_str());
    r.append(" ");
    let ghost head = r@;
    if device.model.unicode_len() > 0 && !str_eq(device.model.as_str(), "Unknown") {
        r.append("- ");
        r.append(device.model.as_str());
    }
    let ghost mid = r@;
    if device.mountpoint.unicode_len() > 0 && !str_eq(device.mountpoint.as_str(), "-") {
        r.append(" [Mounted: ");
        r.append(device.mountpoint.as_str());
        r.append("]");
    }
    proof {
        let m = if shows_model(device.model@) {
            "- "@ + device.model@
        } else {
            Seq::empty()
        };
        let k = if shows_mount(device.mountpoint@) {
            " [Mounted: "@ + device.mountpoint@ + "]"@
        } else {
            Seq::empty()
        };
        assert(mid =~= head + m);
        assert(r@ =~= mid + k);
        assert(r@ =~= menu_line(number as nat, device@));
    }
    r
}

/// Whether the selected device is mounted and the operator must be warned first.
pub fn needs_mount_warning(device: &DeviceInfo) -> (r: bool)
    ensures
        r == shows_mount(device.mountpoint@),
{
    device.mountpoint.unicode_len() > 0 && !str_eq(device.mountpoint.as_str(), "-")
}

} // verus!
