//! Machine readings: what the kernel's text files say, reduced to numbers and
//! words, and the toolchain probe.
use vstd::prelude::*;

use crate::text::after_last_backslash;
use crate::text::ascii_lower;
use crate::text::after_last_backslash_of;
use crate::text::after_last_separator;
use crate::text::after_last_separator_of;
use crate::text::after_last_slash;
use crate::text::after_last_slash_of;
use crate::text::chars_of;
use crate::text::contains;
use crate::text::decimal;
use crate::text::is_digit;
use crate::text::is_ws;
use crate::text::lines;
use crate::text::lines_of;
use crate::text::lower;
use crate::text::opt_view;
use crate::text::parse_u64;
use crate::text::parse_u64_spec;
use crate::text::push_decimal;
use crate::text::span;
use crate::text::split_whitespace;
use crate::text::starts_with;
use crate::text::str_contains;
use crate::text::str_eq;
use crate::text::strip_prefixes;
use crate::text::strip_prefixes_of;
use crate::text::strip_suffixes;
use crate::text::strip_suffixes_of;
use crate::text::lowercase_of;
use crate::text::tokens;
use crate::text::trim;
use crate::text::trim_char;
use crate::text::trim_char_of;
use crate::text::trim_str;
use crate::text::views;

verus! {

/// A sum that did not fit in the integer type that holds it.
#[derive(Debug, Clone, Copy, PartialEq, Eq, Structural)]
pub struct Overflow;

/// The tokens of `toks` that read as `u64`, in order.
pub open spec fn numbers_in(toks: Seq<Seq<char>>) -> Seq<u64>
    decreases toks.len(),
{
    if toks.len() == 0 {
        Seq::<u64>::empty()
    } else {
        let prev = numbers_in(toks.drop_last());
        match parse_u64_spec(toks.last()) {
            Some(n) => prev.push(n),
            None => prev,
        }
    }
}

/// The sum of `s`.
pub open spec fn sum(s: Seq<u64>) -> nat
    decreases s.len(),
{
    if s.len() == 0 {
        0
    } else {
        sum(s.drop_last()) + s.last() as nat
    }
}

/// The numbers after the `cpu` label on the first line of `/proc/stat`, or
/// nothing when that line is missing or is not the `cpu ` line.
pub open spec fn stat_fields(content: Seq<char>) -> Option<Seq<u64>> {
    let ls = lines(content);
    if ls.len() == 0 || !"cpu "@.is_prefix_of(ls[0]) {
        None
    } else {
        Some(numbers_in(tokens(ls[0]).drop_first()))
    }
}

/// Idle and total time of the `cpu` line: fields 4 and 5 (idle, iowait;
/// the latter 0 when absent) and the sum of all fields. Nothing with fewer
/// than four fields, an overflow when the sum does not fit.
pub open spec fn stat_times(content: Seq<char>) -> Result<Option<(u64, u64)>, Overflow> {
    match stat_fields(content) {
        None => Ok(None),
        Some(f) => if f.len() < 4 {
            Ok(None)
        } else if sum(f) > u64::MAX {
            Err(Overflow)
        } else {
            let iowait: nat = if f.len() > 4 {
                f[4] as nat
            } else {
                0
            };
            Ok(Some(((f[3] + iowait) as u64, sum(f) as u64)))
        },
    }
}

/// The sum is at least any element added to the sum before it.
pub proof fn lemma_sum_ge(s: Seq<u64>, i: int)
    requires
        0 <= i < s.len(),
    ensures
        sum(s) >= s[i] + sum(s.take(i)),
        sum(s) >= sum(s.take(i)),
    decreases s.len(),
{
    if i < s.len() - 1 {
        lemma_sum_ge(s.drop_last(), i);
        assert(s.drop_last().take(i) =~= s.take(i));
    } else {
        assert(s.drop_last() =~= s.take(i));
    }
}

/// The sum of a prefix is at most the sum.
pub proof fn lemma_sum_prefix_le(s: Seq<u64>, i: int)
    requires
        0 <= i <= s.len(),
    ensures
        sum(s.take(i)) <= sum(s),
    decreases s.len() - i,
{
    if i < s.len() {
        lemma_sum_prefix_le(s, i + 1);
        assert(s.take(i + 1).drop_last() =~= s.take(i));
    } else {
        assert(s.take(i) =~= s);
    }
}

fn numbers_of(toks: &Vec<String>, from: usize) -> (r: Vec<u64>)
    requires
        from <= toks.len(),
    ensures
        r@ == numbers_in(views(toks@).skip(from as int)),
{
    let mut out: Vec<u64> = Vec::new();
    let mut i = from;
    let ghost all = views(toks@).skip(from as int);
    assert(all.take(0) =~= Seq::<Seq<char>>::empty());
    while i < toks.len()
        invariant
            from <= i <= toks.len(),
            all == views(toks@).skip(from as int),
            out@ == numbers_in(all.take(i - from)),
        decreases toks.len() - i,
    {
        let n = parse_u64(toks[i].as_str());
        proof {
            assert(all.take(i - from + 1).drop_last() =~= all.take(i - from));
            assert(all.take(i - from + 1).last() == toks@[i as int]@);
        }
        match n {
            Some(v) => out.push(v),
            None => {},
        }
        i += 1;
    }
    assert(all.take(i - from) =~= all);
    out
}

/// Reads idle and total CPU time from the contents of `/proc/stat`.
pub fn stat_cpu_times(content: &str) -> (r: Result<Option<(u64, u64)>, Overflow>)
    ensures
        r == stat_times(content@),
{
    let ls = lines_of(content);
    if ls.len() == 0 {
        return Ok(None);
    }
    assert(views(ls@)[0] == ls@[0]@);
    if !starts_with(ls[0].as_str(), "cpu ") {
        return Ok(None);
    }
    let toks = split_whitespace(ls[0].as_str());
    proof {
        let l = ls@[0]@;
        reveal_strlit("cpu ");
        assert(l[0] == "cpu "@[0]);
        assert(span(l, |c: char| is_ws(c)) == 0);
        assert(l.skip(0) =~= l);
    }
    assert(views(toks@).skip(1) =~= tokens(ls@[0]@).drop_first());
    let f = numbers_of(&toks, 1);
    if f.len() < 4 {
        return Ok(None);
    }
    assert(stat_fields(content@) == Some(f@));
    let mut total: u64 = 0;
    let mut i: usize = 0;
    while i < f.len()
        invariant
            i <= f.len(),
            f.len() >= 4,
            stat_fields(content@) == Some(f@),
            total == sum(f@.take(i as int)),
        decreases f.len() - i,
    {
        assert(f@.take(i + 1).drop_last() =~= f@.take(i as int));
        assert(f@.take(i + 1).last() == f@[i as int]);
        if total > u64::MAX - f[i] {
            proof {
                lemma_sum_prefix_le(f@, i + 1);
            }
            return Err(Overflow);
        }
        total = total + f[i];
        i += 1;
    }
    assert(f@.take(i as int) =~= f@);
    proof {
        lemma_sum_ge(f@, 3);
        if f.len() > 4 {
            lemma_sum_ge(f@, 4);
            assert(f@.take(4)[3] == f@[3]);
            lemma_sum_ge(f@.take(4), 3);
            assert(f@.take(4).take(3) =~= f@.take(3));
        }
    }
    let iowait: u64 = if f.len() > 4 {
        f[4]
    } else {
        0
    };
    Ok(Some((f[3] + iowait, total)))
}

/// CPU use between two readings of (idle, total): the busy and total time
/// that passed, each difference floored at zero; nothing when no time passed.
pub open spec fn cpu_deltas_of(first: (u64, u64), second: (u64, u64)) -> Option<(u64, u64)> {
    let total_delta = if second.1 >= first.1 { (second.1 - first.1) as u64 } else { 0u64 };
    let idle_delta = if second.0 >= first.0 { (second.0 - first.0) as u64 } else { 0u64 };
    if total_delta == 0 {
        None
    } else {
        Some((if total_delta >= idle_delta { (total_delta - idle_delta) as u64 } else { 0u64 }, total_delta))
    }
}

/// Busy and total time between two `/proc/stat` readings of (idle, total).
pub fn cpu_deltas(first: (u64, u64), second: (u64, u64)) -> (r: Option<(u64, u64)>)
    ensures
        r == cpu_deltas_of(first, second),
        r matches Some((used, total)) ==> used <= total && total > 0,
{
    let total_delta = second.1.saturating_sub(first.1);
    let idle_delta = second.0.saturating_sub(first.0);
    if total_delta == 0 {
        return None;
    }
    let used_delta = total_delta.saturating_sub(idle_delta);
    Some((used_delta, total_delta))
}

/// The second whitespace-separated field of a line, read as `u64`.
pub open spec fn second_number(line: Seq<char>) -> Option<u64> {
    let t = tokens(line);
    if t.len() > 1 {
        parse_u64_spec(t[1])
    } else {
        None
    }
}

/// Scanning `/proc/meminfo` line by line for `MemTotal:` and `MemAvailable:`
/// (a later line of the same kind replaces an earlier one), stopping once both
/// have a value.
pub open spec fn mem_scan(ls: Seq<Seq<char>>) -> (Option<u64>, Option<u64>)
    decreases ls.len(),
{
    if ls.len() == 0 {
        (None, None)
    } else {
        let (t, a) = mem_scan(ls.drop_last());
        let l = ls.last();
        if t is Some && a is Some {
            (t, a)
        } else if "MemTotal:"@.is_prefix_of(l) {
            (second_number(l), a)
        } else if "MemAvailable:"@.is_prefix_of(l) {
            (t, second_number(l))
        } else {
            (t, a)
        }
    }
}

/// Used and total memory in KiB: total less available (floored at zero),
/// and the total; nothing unless both were found and the total is not zero.
pub open spec fn mem_usage_of(content: Seq<char>) -> Option<(u64, u64)> {
    match mem_scan(lines(content)) {
        (Some(t), Some(a)) => if t > 0 {
            Some((if t >= a { (t - a) as u64 } else { 0u64 }, t))
        } else {
            None
        },
        _ => None,
    }
}

proof fn lemma_mem_scan_settled(ls: Seq<Seq<char>>, i: int)
    requires
        0 <= i <= ls.len(),
        mem_scan(ls.take(i)).0 is Some,
        mem_scan(ls.take(i)).1 is Some,
    ensures
        mem_scan(ls) == mem_scan(ls.take(i)),
    decreases ls.len() - i,
{
    if i < ls.len() {
        assert(ls.take(i + 1).drop_last() =~= ls.take(i));
        lemma_mem_scan_settled(ls, i + 1);
    } else {
        assert(ls.take(i) =~= ls);
    }
}

fn second_number_of(line: &str) -> (r: Option<u64>)
    ensures
        r == second_number(line@),
{
    let t = split_whitespace(line);
    if t.len() > 1 {
        assert(views(t@)[1] == t@[1]@);
        parse_u64(t[1].as_str())
    } else {
        None
    }
}

/// Used and total memory, in KiB, from the contents of `/proc/meminfo`.
pub fn meminfo_usage(content: &str) -> (r: Option<(u64, u64)>)
    ensures
        r == mem_usage_of(content@),
        r matches Some((used, total)) ==> used <= total && total > 0,
{
    let ls = lines_of(content);
    let ghost all = views(ls@);
    let mut total: Option<u64> = None;
    let mut avail: Option<u64> = None;
    let mut i: usize = 0;
    assert(all.take(0) =~= Seq::<Seq<char>>::empty());
    while i < ls.len() && !(total.is_some() && avail.is_some())
        invariant
            i <= ls.len(),
            all == views(ls@),
            (total, avail) == mem_scan(all.take(i as int)),
        decreases ls.len() - i,
    {
        let l = ls[i].as_str();
        proof {
            assert(all.take(i + 1).drop_last() =~= all.take(i as int));
            assert(all.take(i + 1).last() == l@);
        }
        if starts_with(l, "MemTotal:") {
            total = second_number_of(l);
        } else if starts_with(l, "MemAvailable:") {
            avail = second_number_of(l);
        }
        i += 1;
    }
    proof {
        if i == ls.len() {
            assert(all.take(i as int) =~= all);
        } else {
            lemma_mem_scan_settled(all, i as int);
        }
    }
    match (total, avail) {
        (Some(t), Some(a)) => if t > 0 {
            Some((t.saturating_sub(a), t))
        } else {
            None
        },
        _ => None,
    }
}

/// Used and total bytes of a file system from `statvfs`'s block count, free
/// block count and fragment size; nothing when the total is zero, an
/// overflow when either product does not fit.
pub open spec fn disk_usage_of(blocks: u64, free: u64, frsize: u64) -> Result<Option<(u64, u64)>, Overflow> {
    if blocks * frsize > u64::MAX || free * frsize > u64::MAX {
        Err(Overflow)
    } else {
        let total = blocks * frsize;
        let free_bytes = free * frsize;
        if total == 0 {
            Ok(None)
        } else {
            Ok(Some((if total >= free_bytes { (total - free_bytes) as u64 } else { 0u64 }, total as u64)))
        }
    }
}

/// Used and total bytes of a file system, from `statvfs` counts.
pub fn disk_usage(blocks: u64, free: u64, frsize: u64) -> (r: Result<Option<(u64, u64)>, Overflow>)
    ensures
        r == disk_usage_of(blocks, free, frsize),
        r matches Ok(Some((used, total))) ==> used <= total && total > 0,
{
    let total = match blocks.checked_mul(frsize) {
        Some(t) => t,
        None => return Err(Overflow),
    };
    let free_bytes = match free.checked_mul(frsize) {
        Some(f) => f,
        None => return Err(Overflow),
    };
    if total == 0 {
        return Ok(None);
    }
    Ok(Some((total.saturating_sub(free_bytes), total)))
}

/// A mounted disk as seen from the working directory: whether its mount point
/// is an ancestor of it, the mount point's length, and total and available
/// bytes.
pub struct DiskInfo {
    pub contains_cwd: bool,
    pub mount_len: usize,
    pub total: u64,
    pub available: u64,
}

/// The disk whose mount point holds the working directory and is longest
/// (the last such of equal length).
pub open spec fn best_mount(s: Seq<DiskInfo>) -> Option<int>
    decreases s.len(),
{
    if s.len() == 0 {
        None
    } else {
        let prev = best_mount(s.drop_last());
        let d = s.last();
        if d.contains_cwd && (prev is None || d.mount_len >= s[prev->0].mount_len) {
            Some(s.len() - 1)
        } else {
            prev
        }
    }
}

/// The first of the largest disks.
pub open spec fn largest_disk(s: Seq<DiskInfo>) -> Option<int>
    decreases s.len(),
{
    if s.len() == 0 {
        None
    } else {
        let prev = largest_disk(s.drop_last());
        if prev is None || s.last().total > s[prev->0].total {
            Some(s.len() - 1)
        } else {
            prev
        }
    }
}

/// Used (total less available, floored at zero) and total bytes of a disk;
/// nothing when its total is zero.
pub open spec fn usage_of_disk(d: DiskInfo) -> Option<(u64, u64)> {
    if d.total == 0 {
        None
    } else {
        Some((if d.total >= d.available { (d.total - d.available) as u64 } else { 0u64 }, d.total))
    }
}

/// The disk that a reading is about: the one mounted deepest above the
/// working directory, else the largest; nothing without disks.
pub open spec fn chosen_disk_usage(s: Seq<DiskInfo>) -> Option<(u64, u64)> {
    if s.len() == 0 {
        None
    } else {
        match best_mount(s) {
            Some(i) => usage_of_disk(s[i]),
            None => usage_of_disk(s[largest_disk(s)->0]),
        }
    }
}

fn usage_of(d: &DiskInfo) -> (r: Option<(u64, u64)>)
    ensures
        r == usage_of_disk(*d),
{
    if d.total == 0 {
        None
    } else {
        Some((d.total.saturating_sub(d.available), d.total))
    }
}

/// Used and total bytes of the disk that holds the working directory, among
/// the mounted disks.
pub fn select_disk_usage(disks: &Vec<DiskInfo>) -> (r: Option<(u64, u64)>)
    ensures
        r == chosen_disk_usage(disks@),
{
    if disks.len() == 0 {
        return None;
    }
    let mut best: Option<usize> = None;
    let mut largest: usize = 0;
    let mut i: usize = 0;
    while i < disks.len()
        invariant
            i <= disks.len(),
            disks.len() > 0,
            best_mount(disks@.take(i as int)) == match best {
                Some(b) => Some(b as int),
                None => None::<int>,
            },
            i > 0 ==> largest_disk(disks@.take(i as int)) == Some(largest as int),
            i == 0 ==> largest == 0,
            best matches Some(b) ==> b < i,
            largest < disks.len(),
            i > 0 ==> largest < i,
        decreases disks.len() - i,
    {
        let ghost pre = disks@.take(i as int);
        let ghost post = disks@.take(i + 1);
        proof {
            assert(post.drop_last() =~= pre);
            assert(post.last() == disks@[i as int]);
            if let Some(b) = best {
                assert(post[b as int] == disks@[b as int]);
            }
            if i > 0 {
                assert(post[largest as int] == disks@[largest as int]);
            }
        }
        let d = &disks[i];
        if d.contains_cwd {
            match best {
                None => {
                    best = Some(i);
                },
                Some(b) => {
                    if d.mount_len >= disks[b].mount_len {
                        best = Some(i);
                    }
                },
            }
        }
        if i == 0 || d.total > disks[largest].total {
            largest = i;
        }
        i += 1;
    }
    assert(disks@.take(i as int) =~= disks@);
    match best {
        Some(b) => usage_of(&disks[b]),
        None => usage_of(&disks[largest]),
    }
}

/// Uptime as the card shows it: days, hours and minutes, leaving out leading
/// zero units (minutes are always shown).
pub open spec fn uptime_text(secs: u64) -> Seq<char> {
    let days = secs / 86400;
    let rem = secs % 86400;
    let hours = rem / 3600;
    let mins = (rem % 3600) / 60;
    if days > 0 {
        decimal(days as nat) + "d "@ + decimal(hours as nat) + "h "@ + decimal(mins as nat) + "m"@
    } else if hours > 0 {
        decimal(hours as nat) + "h "@ + decimal(mins as nat) + "m"@
    } else {
        decimal(mins as nat) + "m"@
    }
}

/// Formats a number of seconds of uptime.
pub fn format_uptime(total_secs: u64) -> (r: String)
    ensures
        r@ == uptime_text(total_secs),
{
    let days = total_secs / 86400;
    let rem = total_secs % 86400;
    let hours = rem / 3600;
    let mins = (rem % 3600) / 60;
    let mut out = String::new();
    if days > 0 {
        push_decimal(&mut out, days);
        out.append("d ");
        push_decimal(&mut out, hours);
        out.append("h ");
        push_decimal(&mut out, mins);
        out.append("m");
    } else if hours > 0 {
        push_decimal(&mut out, hours);
        out.append("h ");
        push_decimal(&mut out, mins);
        out.append("m");
    } else {
        push_decimal(&mut out, mins);
        out.append("m");
    }
    out
}

/// Index of the first line that begins with `p`.
pub open spec fn first_with_prefix(ls: Seq<Seq<char>>, p: Seq<char>) -> Option<int>
    decreases ls.len(),
{
    if ls.len() == 0 {
        None
    } else if p.is_prefix_of(ls[0]) {
        Some(0)
    } else {
        match first_with_prefix(ls.drop_first(), p) {
            Some(i) => Some(i + 1),
            None => None,
        }
    }
}

/// The value of a `KEY=value` line: the key removed (as often as it repeats),
/// surrounding double quotes removed, lowercased.
pub open spec fn release_value(line: Seq<char>, key: Seq<char>) -> Seq<char> {
    lower(trim_char(strip_prefixes(line, key), '"'))
}

/// The operating system's name from `/etc/os-release`: the first
/// `PRETTY_NAME=` line, else the first `NAME=` line.
pub open spec fn release_name(content: Seq<char>) -> Option<Seq<char>> {
    let ls = lines(content);
    match first_with_prefix(ls, "PRETTY_NAME="@) {
        Some(i) => Some(release_value(ls[i], "PRETTY_NAME="@)),
        None => match first_with_prefix(ls, "NAME="@) {
            Some(i) => Some(release_value(ls[i], "NAME="@)),
            None => None,
        },
    }
}

proof fn lemma_first_with_prefix(ls: Seq<Seq<char>>, p: Seq<char>, i: int)
    requires
        0 <= i <= ls.len(),
        forall|j: int| 0 <= j < i ==> !p.is_prefix_of(#[trigger] ls[j]),
    ensures
        i < ls.len() && p.is_prefix_of(ls[i]) ==> first_with_prefix(ls, p) == Some(i),
        i == ls.len() ==> first_with_prefix(ls, p) is None,
    decreases i,
{
    if i > 0 {
        let t = ls.drop_first();
        assert forall|j: int| 0 <= j < i - 1 implies !p.is_prefix_of(#[trigger] t[j]) by {
            assert(t[j] == ls[j + 1]);
        }
        lemma_first_with_prefix(t, p, i - 1);
        if i < ls.len() {
            assert(t[i - 1] == ls[i]);
        }
    }
}

fn find_line_with_prefix(ls: &Vec<String>, p: &str) -> (r: Option<usize>)
    ensures
        match r {
            Some(i) => i < ls.len() && first_with_prefix(views(ls@), p@) == Some(i as int),
            None => first_with_prefix(views(ls@), p@) is None,
        },
{
    let mut i: usize = 0;
    while i < ls.len()
        invariant
            i <= ls.len(),
            forall|j: int| 0 <= j < i ==> !p@.is_prefix_of(#[trigger] views(ls@)[j]),
        decreases ls.len() - i,
    {
        if starts_with(ls[i].as_str(), p) {
            proof {
                lemma_first_with_prefix(views(ls@), p@, i as int);
            }
            return Some(i);
        }
        i += 1;
    }
    proof {
        lemma_first_with_prefix(views(ls@), p@, i as int);
    }
    None
}

fn release_value_of(line: &str, key: &str) -> (r: String)
    ensures
        r@ == release_value(line@, key@),
{
    let stripped = strip_prefixes_of(line, key);
    let unquoted = trim_char_of(stripped.as_str(), '"');
    lowercase_of(unquoted.as_str())
}

/// The operating system's name from the contents of `/etc/os-release`.
pub fn os_release_name(content: &str) -> (r: Option<String>)
    ensures
        match r {
            Some(n) => release_name(content@) == Some(n@),
            None => release_name(content@) is None,
        },
{
    let ls = lines_of(content);
    match find_line_with_prefix(&ls, "PRETTY_NAME=") {
        Some(i) => Some(release_value_of(ls[i].as_str(), "PRETTY_NAME=")),
        None => match find_line_with_prefix(&ls, "NAME=") {
            Some(i) => Some(release_value_of(ls[i].as_str(), "NAME=")),
            None => None,
        },
    }
}

/// Whether `s` holds something besides whitespace.
pub open spec fn not_blank(s: Seq<char>) -> bool {
    trim(s).len() > 0
}

fn not_blank_of(s: &str) -> (r: bool)
    ensures
        r == not_blank(s@),
{
    let t = trim_str(s);
    !t.as_str().is_empty()
}

/// The operating system's name on Linux: from `/etc/os-release` when it can
/// be read and names it, else the long OS version the system reports (when
/// not blank), else the compile-time OS name; lowercased.
pub open spec fn linux_os_name(release: Option<Seq<char>>, long_version: Option<Seq<char>>, os: Seq<char>) -> Seq<char> {
    match (match release {
        Some(c) => release_name(c),
        None => None,
    }) {
        Some(n) => n,
        None => match long_version {
            Some(l) => if not_blank(l) {
                lower(l)
            } else {
                lower(os)
            },
            None => lower(os),
        },
    }
}

/// The operating system's name on Linux, from the contents of
/// `/etc/os-release` (if it could be read), the system's long OS version (if
/// known) and the compile-time OS name.
pub fn os_name_linux(release: Option<String>, long_version: Option<String>, os: &str) -> (r: String)
    ensures
        r@ == linux_os_name(opt_view(release), opt_view(long_version), os@),
{
    if let Some(content) = &release {
        if let Some(n) = os_release_name(content.as_str()) {
            return n;
        }
    }
    if let Some(l) = &long_version {
        if not_blank_of(l.as_str()) {
            return lowercase_of(l.as_str());
        }
    }
    lowercase_of(os)
}

/// The operating system's name elsewhere: the long OS version (when not
/// blank), else the system name with its version (when that is not blank) or
/// alone (when not blank), else the compile-time OS name; lowercased.
pub open spec fn other_os_name(
    long_version: Option<Seq<char>>,
    name: Option<Seq<char>>,
    version: Option<Seq<char>>,
    os: Seq<char>,
) -> Seq<char> {
    if long_version matches Some(l) && not_blank(l) {
        lower(long_version->0)
    } else if name matches Some(n) && version matches Some(v) && not_blank(v) {
        lower(name->0 + " "@ + version->0)
    } else if name matches Some(n) && not_blank(n) {
        lower(name->0)
    } else {
        lower(os)
    }
}

/// The operating system's name where there is no `/etc/os-release`, from what
/// the system reports: long OS version, name and version.
pub fn os_name_other(
    long_version: Option<String>,
    name: Option<String>,
    version: Option<String>,
    os: &str,
) -> (r: String)
    ensures
        r@ == other_os_name(opt_view(long_version), opt_view(name), opt_view(version), os@),
{
    if let Some(l) = &long_version {
        if not_blank_of(l.as_str()) {
            return lowercase_of(l.as_str());
        }
    }
    if let Some(n) = &name {
        if let Some(v) = &version {
            if not_blank_of(v.as_str()) {
                let joined = n.clone().concat(" ").concat(v.as_str());
                return lowercase_of(joined.as_str());
            }
        }
        if not_blank_of(n.as_str()) {
            return lowercase_of(n.as_str());
        }
    }
    lowercase_of(os)
}

/// The Nerd Font glyph for an operating system name (matching the first of
/// arch/cachy, ubuntu, fedora, debian, nix, darwin/mac, windows; a penguin
/// otherwise).
pub open spec fn os_icon_of(os: Seq<char>) -> Seq<char> {
    if contains(os, "cachy"@) || contains(os, "arch"@) {
        "\u{f303}"@
    } else if contains(os, "ubuntu"@) {
        "\u{f31b}"@
    } else if contains(os, "fedora"@) {
        "\u{f30a}"@
    } else if contains(os, "debian"@) {
        "\u{f306}"@
    } else if contains(os, "nix"@) {
        "\u{f313}"@
    } else if contains(os, "darwin"@) || contains(os, "mac"@) {
        "\u{f179}"@
    } else if contains(os, "windows"@) {
        "\u{f17a}"@
    } else {
        "\u{e712}"@
    }
}

/// The distribution glyph for a (lowercased) operating system name.
pub fn os_icon(os: &str) -> (r: &'static str)
    ensures
        r@ == os_icon_of(os@),
{
    if str_contains(os, "cachy") || str_contains(os, "arch") {
        "\u{f303}"
    } else if str_contains(os, "ubuntu") {
        "\u{f31b}"
    } else if str_contains(os, "fedora") {
        "\u{f30a}"
    } else if str_contains(os, "debian") {
        "\u{f306}"
    } else if str_contains(os, "nix") {
        "\u{f313}"
    } else if str_contains(os, "darwin") || str_contains(os, "mac") {
        "\u{f179}"
    } else if str_contains(os, "windows") {
        "\u{f17a}"
    } else {
        "\u{e712}"
    }
}

/// The login shell's name on Unix: what follows the last `/` of `SHELL`, or a
/// dash when it is unset; lowercased.
pub open spec fn unix_shell_name(shell: Option<Seq<char>>) -> Seq<char> {
    lower(
        match shell {
            Some(s) => after_last_slash(s),
            None => "\u{2014}"@,
        },
    )
}

/// The terminal's name on Unix: `TERM_PROGRAM` when not blank, else
/// `TERMINAL`, else `TERM`, else a dash; lowercased.
pub open spec fn unix_terminal_name(
    term_program: Option<Seq<char>>,
    terminal: Option<Seq<char>>,
    term: Option<Seq<char>>,
) -> Seq<char> {
    lower(
        if term_program matches Some(p) && not_blank(p) {
            term_program->0
        } else if terminal is Some {
            terminal->0
        } else if term is Some {
            term->0
        } else {
            "\u{2014}"@
        },
    )
}

/// Login shell and terminal on Unix, from the values of `SHELL`,
/// `TERM_PROGRAM`, `TERMINAL` and `TERM` (each present when set to Unicode).
pub fn shell_info_unix(
    shell: Option<String>,
    term_program: Option<String>,
    terminal: Option<String>,
    term: Option<String>,
) -> (r: (String, String))
    ensures
        r.0@ == unix_shell_name(opt_view(shell)),
        r.1@ == unix_terminal_name(opt_view(term_program), opt_view(terminal), opt_view(term)),
{
    let shell_name = match &shell {
        Some(s) => after_last_slash_of(s.as_str()),
        None => String::from_str("\u{2014}"),
    };
    let term_name = match pick_term_program(&term_program) {
        Some(p) => p,
        None => match terminal {
            Some(t) => t,
            None => match term {
                Some(t) => t,
                None => String::from_str("\u{2014}"),
            },
        },
    };
    (lowercase_of(shell_name.as_str()), lowercase_of(term_name.as_str()))
}

fn pick_term_program(term_program: &Option<String>) -> (r: Option<String>)
    ensures
        match r {
            Some(p) => term_program matches Some(t) && not_blank(t@) && p@ == t@,
            None => !(term_program matches Some(t) && not_blank(t@)),
        },
{
    match term_program {
        Some(p) => if not_blank_of(p.as_str()) {
            Some(p.clone())
        } else {
            None
        },
        None => None,
    }
}

/// A Windows program name: what follows the last `/` or `\\`, with every
/// trailing `.exe` removed.
pub open spec fn windows_shell_from_path(s: Seq<char>) -> Seq<char> {
    strip_suffixes(after_last_separator(s), ".exe"@)
}

/// The login shell's name on Windows: from `SHELL` when that gives a name that
/// is not blank, else from `ComSpec` (after its last `\\`, `.exe` removed),
/// else a dash; lowercased.
pub open spec fn windows_shell_name(shell: Option<Seq<char>>, comspec: Option<Seq<char>>) -> Seq<char> {
    lower(
        if shell matches Some(s) && not_blank(windows_shell_from_path(s)) {
            windows_shell_from_path(shell->0)
        } else if comspec is Some {
            strip_suffixes(after_last_backslash(comspec->0), ".exe"@)
        } else {
            "\u{2014}"@
        },
    )
}

/// The terminal's name on Windows: `TERM_PROGRAM` when not blank, else
/// `windows terminal` when `WT_SESSION` is not blank, else `TERMINAL`, else
/// `TERM`, else a dash; lowercased.
pub open spec fn windows_terminal_name(
    term_program: Option<Seq<char>>,
    wt_session: Option<Seq<char>>,
    terminal: Option<Seq<char>>,
    term: Option<Seq<char>>,
) -> Seq<char> {
    if wt_session matches Some(w) && not_blank(w) && !(term_program matches Some(p) && not_blank(
        p,
    )) {
        lower("windows terminal"@)
    } else {
        unix_terminal_name(term_program, terminal, term)
    }
}

/// Login shell and terminal on Windows, from the values of `SHELL`, `ComSpec`,
/// `TERM_PROGRAM`, `WT_SESSION`, `TERMINAL` and `TERM`.
pub fn shell_info_windows(
    shell: Option<String>,
    comspec: Option<String>,
    term_program: Option<String>,
    wt_session: Option<String>,
    terminal: Option<String>,
    term: Option<String>,
) -> (r: (String, String))
    ensures
        r.0@ == windows_shell_name(opt_view(shell), opt_view(comspec)),
        r.1@ == windows_terminal_name(
            opt_view(term_program),
            opt_view(wt_session),
            opt_view(terminal),
            opt_view(term),
        ),
{
    let from_shell = match &shell {
        Some(s) => {
            let base = after_last_separator_of(s.as_str());
            let name = strip_suffixes_of(base.as_str(), ".exe");
            if not_blank_of(name.as_str()) {
                Some(name)
            } else {
                None
            }
        },
        None => None,
    };
    let shell_name = match from_shell {
        Some(n) => n,
        None => match &comspec {
            Some(c) => {
                let base = after_last_backslash_of(c.as_str());
                strip_suffixes_of(base.as_str(), ".exe")
            },
            None => String::from_str("\u{2014}"),
        },
    };
    let term_name = match pick_term_program(&term_program) {
        Some(p) => p,
        None => {
            let wt = match &wt_session {
                Some(w) => not_blank_of(w.as_str()),
                None => false,
            };
            if wt {
                String::from_str("windows terminal")
            } else {
                match terminal {
                    Some(t) => t,
                    None => match term {
                        Some(t) => t,
                        None => String::from_str("\u{2014}"),
                    },
                }
            }
        },
    };
    (lowercase_of(shell_name.as_str()), lowercase_of(term_name.as_str()))
}

/// An ASCII digit or a dot.
pub open spec fn digit_or_dot(c: char) -> bool {
    is_digit(c) || c == '.'
}

/// Not an ASCII digit.
pub open spec fn not_digit(c: char) -> bool {
    !is_digit(c)
}

/// The leading run of digits and dots of `s`.
pub open spec fn version_prefix(s: Seq<char>) -> Seq<char> {
    s.take(span(s, |c: char| digit_or_dot(c)) as int)
}

/// `rustc --version` output reduced to `rustc` and the numeric part of the
/// second word (e.g. `rustc 1.85.0`); nothing when that part is empty.
pub open spec fn rustc_version_of(stdout: Seq<char>) -> Option<Seq<char>> {
    let w = tokens(stdout);
    if w.len() >= 2 && version_prefix(w[1]).len() > 0 {
        Some("rustc "@ + lower(version_prefix(w[1])))
    } else {
        None
    }
}

/// The leading run of digits and dots of `s`.
pub fn version_prefix_of(s: &str) -> (r: String)
    ensures
        r@ == version_prefix(s@),
{
    let v = chars_of(s);
    let mut i: usize = 0;
    while i < v.len() && (('0' <= v[i] && v[i] <= '9') || v[i] == '.')
        invariant
            i <= v.len(),
            forall|j: int| 0 <= j < i ==> digit_or_dot(#[trigger] v@[j]),
        decreases v.len() - i,
    {
        i += 1;
    }
    proof {
        crate::text::lemma_span_is(v@, |c: char| digit_or_dot(c), i as int);
        assert(v@.subrange(0, i as int) =~= v@.take(i as int));
    }
    crate::text::substring(&v, 0, i)
}

/// The compiler version from the output of `rustc --version`.
pub fn rustc_version_from(stdout: &str) -> (r: Option<String>)
    ensures
        opt_view(r) == rustc_version_of(stdout@),
{
    let words = split_whitespace(stdout);
    if words.len() >= 2 {
        assert(views(words@)[1] == words@[1]@);
        let ver = version_prefix_of(words[1].as_str());
        if !ver.as_str().is_empty() {
            let low = lowercase_of(ver.as_str());
            return Some(String::from_str("rustc ").concat(low.as_str()));
        }
    }
    None
}

/// `str::eq_ignore_ascii_case`.
pub open spec fn eq_ignore_ascii_case(a: Seq<char>, b: Seq<char>) -> bool {
    a.len() == b.len() && forall|i: int| 0 <= i < a.len() ==> ascii_lower(#[trigger] a[i])
        == ascii_lower(b[i])
}

fn ascii_lower_of(c: char) -> (r: char)
    ensures
        r == ascii_lower(c),
{
    if 'A' <= c && c <= 'Z' {
        ((c as u32) + 32) as u8 as char
    } else {
        c
    }
}

fn eq_ignore_ascii_case_of(a: &str, b: &str) -> (r: bool)
    ensures
        r == eq_ignore_ascii_case(a@, b@),
{
    let x = chars_of(a);
    let y = chars_of(b);
    if x.len() != y.len() {
        return false;
    }
    let mut i: usize = 0;
    while i < x.len()
        invariant
            i <= x.len() == y.len(),
            x@ == a@,
            y@ == b@,
            forall|j: int| 0 <= j < i ==> ascii_lower(#[trigger] x@[j]) == ascii_lower(y@[j]),
        decreases x.len() - i,
    {
        if ascii_lower_of(x[i]) != ascii_lower_of(y[i]) {
            return false;
        }
        i += 1;
    }
    true
}

/// A token read as a version: leading non-digits removed, then the run of
/// digits and dots that follows.
pub open spec fn version_candidate(tok: Seq<char>) -> Seq<char> {
    version_prefix(tok.skip(span(tok, |c: char| not_digit(c)) as int))
}

/// A token that gives a version: not the word `version` (in any ASCII case),
/// and its candidate holds a dot and begins with a digit.
pub open spec fn gives_version(tok: Seq<char>) -> bool {
    let v = version_candidate(tok);
    &&& !eq_ignore_ascii_case(tok, "version"@)
    &&& v.contains('.')
    &&& v.len() > 0 && is_digit(v[0])
}

/// The first version-looking token of a line, as `version_candidate` reads it.
pub open spec fn first_version_in(toks: Seq<Seq<char>>) -> Option<Seq<char>>
    decreases toks.len(),
{
    if toks.len() == 0 {
        None
    } else if gives_version(toks[0]) {
        Some(version_candidate(toks[0]))
    } else {
        first_version_in(toks.drop_first())
    }
}

proof fn lemma_first_version_in(toks: Seq<Seq<char>>, i: int)
    requires
        0 <= i <= toks.len(),
        forall|j: int| 0 <= j < i ==> !gives_version(#[trigger] toks[j]),
    ensures
        first_version_in(toks) == first_version_in(toks.skip(i)),
    decreases i,
{
    if i > 0 {
        let t = toks.drop_first();
        assert forall|j: int| 0 <= j < i - 1 implies !gives_version(#[trigger] t[j]) by {
            assert(t[j] == toks[j + 1]);
        }
        lemma_first_version_in(t, i - 1);
        assert(t.skip(i - 1) =~= toks.skip(i));
    } else {
        assert(toks.skip(0) =~= toks);
    }
}

fn version_candidate_of(tok: &str) -> (r: String)
    ensures
        r@ == version_candidate(tok@),
{
    let v = chars_of(tok);
    let mut a: usize = 0;
    while a < v.len() && !('0' <= v[a] && v[a] <= '9')
        invariant
            a <= v.len(),
            forall|j: int| 0 <= j < a ==> not_digit(#[trigger] v@[j]),
        decreases v.len() - a,
    {
        a += 1;
    }
    let mut b = a;
    while b < v.len() && (('0' <= v[b] && v[b] <= '9') || v[b] == '.')
        invariant
            a <= b <= v.len(),
            forall|j: int| a <= j < b ==> digit_or_dot(#[trigger] v@[j]),
        decreases v.len() - b,
    {
        b += 1;
    }
    proof {
        crate::text::lemma_span_is(v@, |c: char| not_digit(c), a as int);
        let t = v@.skip(a as int);
        assert forall|j: int| 0 <= j < b - a implies digit_or_dot(#[trigger] t[j]) by {
            assert(t[j] == v@[a + j]);
        }
        if b < v.len() {
            assert(t[b - a] == v@[b as int]);
        }
        crate::text::lemma_span_is(t, |c: char| digit_or_dot(c), b - a);
        assert(t.take(b - a) =~= v@.subrange(a as int, b as int));
    }
    crate::text::substring(&v, a, b)
}

fn has_dot(v: &Vec<char>) -> (r: bool)
    ensures
        r == v@.contains('.'),
{
    let mut i: usize = 0;
    while i < v.len()
        invariant
            i <= v.len(),
            forall|j: int| 0 <= j < i ==> v@[j] != '.',
        decreases v.len() - i,
    {
        if v[i] == '.' {
            assert(v@[i as int] == '.');
            return true;
        }
        i += 1;
    }
    false
}

/// The first whitespace-separated token of `line` that reads as a version:
/// leading non-digits stripped (`v1.2`, `go1.22.1`), then digits and dots up
/// to the first other character (`5.2.21(1)-release` gives `5.2.21`), at
/// least one dot; a token `version` is skipped.
pub fn first_version_token(line: &str) -> (r: Option<String>)
    ensures
        opt_view(r) == first_version_in(tokens(line@)),
{
    let toks = split_whitespace(line);
    let mut i: usize = 0;
    while i < toks.len()
        invariant
            i <= toks.len(),
            views(toks@) == tokens(line@),
            forall|j: int| 0 <= j < i ==> !gives_version(#[trigger] views(toks@)[j]),
        decreases toks.len() - i,
    {
        let tok = toks[i].as_str();
        assert(views(toks@)[i as int] == tok@);
        if !eq_ignore_ascii_case_of(tok, "version") {
            let cand = version_candidate_of(tok);
            let cv = chars_of(cand.as_str());
            if has_dot(&cv) && cv.len() > 0 && '0' <= cv[0] && cv[0] <= '9' {
                proof {
                    lemma_first_version_in(views(toks@), i as int);
                    assert(views(toks@).skip(i as int)[0] == tok@);
                }
                return Some(cand);
            }
        }
        i += 1;
    }
    proof {
        lemma_first_version_in(views(toks@), i as int);
    }
    None
}

/// A version token begins with a digit, holds a dot, and is made of digits
/// and dots only.
pub proof fn law_version_token_shape(toks: Seq<Seq<char>>)
    ensures
        first_version_in(toks) matches Some(v) ==> {
            &&& v.len() > 0
            &&& is_digit(v[0])
            &&& v.contains('.')
            &&& forall|i: int| 0 <= i < v.len() ==> digit_or_dot(#[trigger] v[i])
        },
    decreases toks.len(),
{
    if toks.len() > 0 {
        if gives_version(toks[0]) {
            let t = toks[0];
            let s = t.skip(span(t, |c: char| not_digit(c)) as int);
            crate::text::lemma_span_bounds(s, |c: char| digit_or_dot(c));
            let v = version_prefix(s);
            assert forall|i: int| 0 <= i < v.len() implies digit_or_dot(#[trigger] v[i]) by {
                assert(v[i] == s[i]);
                assert((|c: char| digit_or_dot(c))(s[i]));
            }
        } else {
            law_version_token_shape(toks.drop_first());
        }
    }
}

/// The line a version probe reports: the first line of standard output, or
/// of standard error when standard output is empty, trimmed; nothing when
/// there is no line or it is blank.
pub open spec fn probe_line_of(stdout: Seq<char>, stderr: Seq<char>) -> Option<Seq<char>> {
    let text = if stdout.len() == 0 {
        stderr
    } else {
        stdout
    };
    let ls = lines(text);
    if ls.len() == 0 || trim(ls[0]).len() == 0 {
        None
    } else {
        Some(trim(ls[0]))
    }
}

/// The first line of a probe's output (standard output, else standard error),
/// trimmed; nothing when blank.
pub fn probe_line(stdout: &str, stderr: &str) -> (r: Option<String>)
    ensures
        opt_view(r) == probe_line_of(stdout@, stderr@),
{
    let text = if stdout.is_empty() {
        stderr
    } else {
        stdout
    };
    let ls = lines_of(text);
    if ls.len() == 0 {
        return None;
    }
    assert(views(ls@)[0] == ls@[0]@);
    let line = trim_str(ls[0].as_str());
    if line.as_str().is_empty() {
        None
    } else {
        Some(line)
    }
}

/// The first line of a text, trimmed (it may be empty); nothing without lines.
pub open spec fn first_line_of(text: Seq<char>) -> Option<Seq<char>> {
    let ls = lines(text);
    if ls.len() == 0 {
        None
    } else {
        Some(trim(ls[0]))
    }
}

/// The first line of `text`, trimmed.
pub fn first_line(text: &str) -> (r: Option<String>)
    ensures
        opt_view(r) == first_line_of(text@),
{
    let ls = lines_of(text);
    if ls.len() == 0 {
        return None;
    }
    assert(views(ls@)[0] == ls@[0]@);
    Some(trim_str(ls[0].as_str()))
}

/// How a probe's output is read: `FirstLine` needs success and takes the
/// first non-blank line of standard output (else standard error);
/// `StdoutLine` needs success and takes the first line of standard output;
/// `AnyStatusLine` takes the first line of standard output (else standard
/// error) whatever the exit status. Lines are trimmed.
#[derive(Debug, Clone, Copy, PartialEq, Eq, Structural)]
pub enum ProbeMode {
    FirstLine,
    StdoutLine,
    AnyStatusLine,
}

/// A command to run to learn a toolchain's version.
pub struct Probe {
    pub cmd: String,
    pub args: Vec<String>,
    pub mode: ProbeMode,
}

/// What became of a probe: its command could not be started (no process
/// ran), or it ran and reported no line (it failed or printed nothing), or
/// it reported a line.
pub enum ProbeOutcome {
    NotStarted,
    NoLine,
    Line(String),
}

/// A probe's outcome: `None` when no process ran, otherwise the line it
/// reported, if any.
pub open spec fn outcome_view(o: ProbeOutcome) -> Option<Option<Seq<char>>> {
    match o {
        ProbeOutcome::NotStarted => None,
        ProbeOutcome::NoLine => Some(None),
        ProbeOutcome::Line(l) => Some(Some(l@)),
    }
}

/// What to do next while finding a toolchain's version: run a probe and
/// report its outcome, or stop with the answer.
pub enum ToolchainStep {
    Run(Probe),
    Done(Option<String>),
}

/// Command, arguments and mode of a probe.
pub open spec fn probe_view(p: Probe) -> (Seq<char>, Seq<Seq<char>>, ProbeMode) {
    (p.cmd@, views(p.args@), p.mode)
}

/// The `--version` argument list.
pub open spec fn version_flag() -> Seq<Seq<char>> {
    seq!["--version"@]
}

/// A probe read by `FirstLine`.
pub open spec fn line_probe(cmd: Seq<char>, args: Seq<Seq<char>>) -> (Seq<char>, Seq<Seq<char>>, ProbeMode) {
    (cmd, args, ProbeMode::FirstLine)
}

/// The shell probe on Unix: the program named by `SHELL` after its last `/`,
/// asked for `--version`; none when that name is empty or `SHELL` is unset.
pub open spec fn unix_shell_plan(shell: Option<Seq<char>>) -> Seq<(Seq<char>, Seq<Seq<char>>, ProbeMode)> {
    match shell {
        Some(s) => if after_last_slash(s).len() > 0 {
            seq![line_probe(after_last_slash(s), version_flag())]
        } else {
            seq![]
        },
        None => seq![],
    }
}

/// The shell's path on Windows: `SHELL` when not blank, else `ComSpec`.
pub open spec fn windows_shell_path(shell: Option<Seq<char>>, comspec: Option<Seq<char>>) -> Option<Seq<char>> {
    if shell matches Some(s) && not_blank(s) {
        shell
    } else {
        comspec
    }
}

/// The shell program's file name on Windows.
pub open spec fn windows_shell_raw(shell: Option<Seq<char>>, comspec: Option<Seq<char>>) -> Seq<char> {
    after_last_separator(windows_shell_path(shell, comspec)->0)
}

/// The shell program's name on Windows: the file name without `.exe` (or `.EXE`).
pub open spec fn windows_shell_base(shell: Option<Seq<char>>, comspec: Option<Seq<char>>) -> Seq<char> {
    strip_suffixes(strip_suffixes(windows_shell_raw(shell, comspec), ".exe"@), ".EXE"@)
}

/// The shell probes on Windows: PowerShell is asked for
/// `$PSVersionTable.PSVersion`, `cmd` for `ver`, any other shell for
/// `--version` by its name and then by its file name.
pub open spec fn windows_shell_plan(shell: Option<Seq<char>>, comspec: Option<Seq<char>>) -> Seq<(Seq<char>, Seq<Seq<char>>, ProbeMode)> {
    let raw = windows_shell_raw(shell, comspec);
    let base = windows_shell_base(shell, comspec);
    let low = lower(base);
    if windows_shell_path(shell, comspec) is None || raw.len() == 0 || base.len() == 0 {
        seq![]
    } else if low == "powershell"@ || low == "powershell_ise"@ {
        seq![(raw, seq!["-NoProfile"@, "-Command"@, "$PSVersionTable.PSVersion.ToString()"@], ProbeMode::StdoutLine)]
    } else if low == "cmd"@ {
        seq![(raw, seq!["/c"@, "ver"@], ProbeMode::AnyStatusLine)]
    } else {
        seq![line_probe(base, version_flag()), line_probe(raw, version_flag())]
    }
}

/// The probes for a (lowercased) project language, in order: each later one
/// stands in for the earlier ones when they could not be started, and the
/// first that runs decides. Kotlin and unknown languages have none.
pub open spec fn toolchain_plan(
    key: Seq<char>,
    is_windows: bool,
    shell: Option<Seq<char>>,
    comspec: Option<Seq<char>>,
) -> Seq<(Seq<char>, Seq<Seq<char>>, ProbeMode)> {
    if key == "kotlin"@ {
        seq![]
    } else if key == "shell"@ {
        if is_windows {
            windows_shell_plan(shell, comspec)
        } else {
            unix_shell_plan(shell)
        }
    } else if key == "rust"@ {
        seq![line_probe("rustc"@, version_flag())]
    } else if key == "python"@ {
        seq![line_probe("python3"@, version_flag()), line_probe("python"@, version_flag())]
    } else if key == "go"@ {
        seq![line_probe("go"@, seq!["version"@])]
    } else if key == "javascript"@ || key == "typescript"@ || key == "react"@ {
        seq![line_probe("node"@, version_flag())]
    } else if key == "c"@ {
        seq![
            line_probe("cc"@, version_flag()),
            line_probe("gcc"@, version_flag()),
            line_probe("clang"@, version_flag()),
            line_probe("cl"@, version_flag()),
        ]
    } else if key == "c++"@ {
        seq![
            line_probe("c++"@, version_flag()),
            line_probe("g++"@, version_flag()),
            line_probe("clang++"@, version_flag()),
            line_probe("cl"@, version_flag()),
        ]
    } else if key == "java"@ {
        seq![line_probe("java"@, version_flag())]
    } else if key == "swift"@ {
        seq![line_probe("swift"@, version_flag())]
    } else if key == "ruby"@ {
        seq![line_probe("ruby"@, version_flag())]
    } else if key == "php"@ {
        seq![line_probe("php"@, version_flag())]
    } else if key == "zig"@ {
        seq![line_probe("zig"@, seq!["version"@])]
    } else if key == "lua"@ {
        seq![line_probe("lua"@, seq!["-v"@])]
    } else if key == "haskell"@ {
        seq![line_probe("ghc"@, version_flag())]
    } else {
        seq![]
    }
}

/// The name shown before the version: the shell's name for shell projects,
/// the tool's name for most languages, and for C, C++ and Java the vendor the
/// reported line names (clang, OpenJDK).
pub open spec fn toolchain_label(
    key: Seq<char>,
    is_windows: bool,
    shell: Option<Seq<char>>,
    comspec: Option<Seq<char>>,
    line: Seq<char>,
) -> Seq<char> {
    if key == "shell"@ {
        if is_windows {
            lower(windows_shell_base(shell, comspec))
        } else {
            lower(after_last_slash(shell->0))
        }
    } else if key == "rust"@ {
        "rustc"@
    } else if key == "python"@ {
        "python"@
    } else if key == "go"@ {
        "go"@
    } else if key == "javascript"@ || key == "typescript"@ || key == "react"@ {
        "node"@
    } else if key == "c"@ {
        if contains(lower(line), "clang"@) {
            "clang"@
        } else {
            "cc"@
        }
    } else if key == "c++"@ {
        if contains(lower(line), "clang"@) {
            "clang++"@
        } else {
            "c++"@
        }
    } else if key == "java"@ {
        if contains(lower(line), "openjdk"@) {
            "openjdk"@
        } else {
            "java"@
        }
    } else if key == "swift"@ {
        "swift"@
    } else if key == "ruby"@ {
        "ruby"@
    } else if key == "php"@ {
        "php"@
    } else if key == "zig"@ {
        "zig"@
    } else if key == "lua"@ {
        "lua"@
    } else {
        "ghc"@
    }
}

/// The outcome of the first probe that ran, among the answers so far.
pub open spec fn first_answer(answers: Seq<Option<Option<Seq<char>>>>) -> Option<Option<Seq<char>>>
    decreases answers.len(),
{
    if answers.len() == 0 {
        None
    } else if answers[0] is Some {
        answers[0]
    } else {
        first_answer(answers.drop_first())
    }
}

/// The answers that belong to probes of the plan (later ones are ignored).
pub open spec fn within(answers: Seq<Option<Option<Seq<char>>>>, n: nat) -> Seq<Option<Option<Seq<char>>>> {
    if answers.len() <= n {
        answers
    } else {
        answers.take(n as int)
    }
}

/// The next probe to run for a (lowercased) language key, given the
/// outcomes of the earlier probes: the next one of the plan while none of
/// them could be started; none once one ran (so at most one process runs)
/// or all were tried.
pub open spec fn next_probe(
    key: Seq<char>,
    is_windows: bool,
    shell: Option<Seq<char>>,
    comspec: Option<Seq<char>>,
    answers: Seq<Option<Option<Seq<char>>>>,
) -> Option<(Seq<char>, Seq<Seq<char>>, ProbeMode)> {
    let plan = toolchain_plan(key, is_windows, shell, comspec);
    if first_answer(within(answers, plan.len())) is None && answers.len() < plan.len() {
        Some(plan[answers.len() as int])
    } else {
        None
    }
}

/// The toolchain shown for a (lowercased) language key once probing stops:
/// the label and the first version token of the line the probe that ran
/// reported, or nothing when no probe ran, it reported no line, or the line
/// holds no version.
pub open spec fn toolchain_answer(
    key: Seq<char>,
    is_windows: bool,
    shell: Option<Seq<char>>,
    comspec: Option<Seq<char>>,
    answers: Seq<Option<Option<Seq<char>>>>,
) -> Option<Seq<char>> {
    let plan = toolchain_plan(key, is_windows, shell, comspec);
    match first_answer(within(answers, plan.len())) {
        Some(Some(line)) => match first_version_in(tokens(line)) {
            Some(v) => Some(toolchain_label(key, is_windows, shell, comspec, line) + " "@ + v),
            None => None,
        },
        _ => None,
    }
}

/// The outcome of each probe.
pub open spec fn answer_views(answers: Seq<ProbeOutcome>) -> Seq<Option<Option<Seq<char>>>> {
    answers.map_values(|a: ProbeOutcome| outcome_view(a))
}

/// `r` is the step for a (lowercased) language key and the answers so far.
pub open spec fn step_for(
    r: ToolchainStep,
    key: Seq<char>,
    is_windows: bool,
    shell: Option<Seq<char>>,
    comspec: Option<Seq<char>>,
    answers: Seq<Option<Option<Seq<char>>>>,
) -> bool {
    match r {
        ToolchainStep::Run(p) => next_probe(key, is_windows, shell, comspec, answers) == Some(
            probe_view(p),
        ),
        ToolchainStep::Done(o) => next_probe(key, is_windows, shell, comspec, answers) is None
            && opt_view(o) == toolchain_answer(key, is_windows, shell, comspec, answers),
    }
}

fn strings_of(items: &[&str]) -> (r: Vec<String>)
    ensures
        views(r@) == items@.map_values(|t: &str| t@),
{
    let mut v: Vec<String> = Vec::new();
    let mut i: usize = 0;
    while i < items.len()
        invariant
            i <= items.len(),
            views(v@) == items@.take(i as int).map_values(|t: &str| t@),
        decreases items.len() - i,
    {
        let ghost before = v@;
        v.push(String::from_str(items[i]));
        proof {
            assert(views(v@) =~= views(before).push(items@[i as int]@));
            assert(items@.take(i + 1).map_values(|t: &str| t@) =~= items@.take(i as int).map_values(
                |t: &str| t@,
            ).push(items@[i as int]@));
        }
        i += 1;
    }
    assert(items@.take(i as int) =~= items@);
    v
}

fn line_probe_of(cmd: &str, arg: &str) -> (r: Probe)
    ensures
        probe_view(r) == line_probe(cmd@, seq![arg@]),
{
    let items: [&str; 1] = [arg];
    let args = strings_of(&items);
    assert(views(args@) =~= seq![arg@]);
    Probe { cmd: String::from_str(cmd), args, mode: ProbeMode::FirstLine }
}

fn plan_of(key: &str, is_windows: bool, shell: &Option<String>, comspec: &Option<String>) -> (r: Vec<Probe>)
    ensures
        r@.map_values(|p: Probe| probe_view(p)) == toolchain_plan(key@, is_windows, opt_view(*shell), opt_view(*comspec)),
{
    let mut v: Vec<Probe> = Vec::new();
    if str_eq(key, "kotlin") {
    } else if str_eq(key, "shell") {
        if is_windows {
            let path = match shell {
                Some(s) => if not_blank_of(s.as_str()) {
                    Some(s.clone())
                } else {
                    comspec.clone()
                },
                None => comspec.clone(),
            };
            assert(opt_view(path) == windows_shell_path(opt_view(*shell), opt_view(*comspec)));
            if let Some(p) = path {
                let raw = after_last_separator_of(p.as_str());
                let base0 = strip_suffixes_of(raw.as_str(), ".exe");
                let base = strip_suffixes_of(base0.as_str(), ".EXE");
                if !raw.as_str().is_empty() && !base.as_str().is_empty() {
                    let low = lowercase_of(base.as_str());
                    if str_eq(low.as_str(), "powershell") || str_eq(low.as_str(), "powershell_ise") {
                        let items: [&str; 3] = ["-NoProfile", "-Command", "$PSVersionTable.PSVersion.ToString()"];
                        let args = strings_of(&items);
                        assert(views(args@) =~= seq!["-NoProfile"@, "-Command"@, "$PSVersionTable.PSVersion.ToString()"@]);
                        v.push(Probe {
                            cmd: raw,
                            args,
                            mode: ProbeMode::StdoutLine,
                        });
                    } else if str_eq(low.as_str(), "cmd") {
                        let items: [&str; 2] = ["/c", "ver"];
                        let args = strings_of(&items);
                        assert(views(args@) =~= seq!["/c"@, "ver"@]);
                        v.push(Probe { cmd: raw, args, mode: ProbeMode::AnyStatusLine });
                    } else {
                        v.push(line_probe_of(base.as_str(), "--version"));
                        v.push(line_probe_of(raw.as_str(), "--version"));
                    }
                }
            }
        } else {
            if let Some(s) = shell {
                let base = after_last_slash_of(s.as_str());
                if !base.as_str().is_empty() {
                    v.push(line_probe_of(base.as_str(), "--version"));
                }
            }
        }
    } else if str_eq(key, "rust") {
        v.push(line_probe_of("rustc", "--version"));
    } else if str_eq(key, "python") {
        v.push(line_probe_of("python3", "--version"));
        v.push(line_probe_of("python", "--version"));
    } else if str_eq(key, "go") {
        v.push(line_probe_of("go", "version"));
    } else if str_eq(key, "javascript") || str_eq(key, "typescript") || str_eq(key, "react") {
        v.push(line_probe_of("node", "--version"));
    } else if str_eq(key, "c") {
        v.push(line_probe_of("cc", "--version"));
        v.push(line_probe_of("gcc", "--version"));
        v.push(line_probe_of("clang", "--version"));
        v.push(line_probe_of("cl", "--version"));
    } else if str_eq(key, "c++") {
        v.push(line_probe_of("c++", "--version"));
        v.push(line_probe_of("g++", "--version"));
        v.push(line_probe_of("clang++", "--version"));
        v.push(line_probe_of("cl", "--version"));
    } else if str_eq(key, "java") {
        v.push(line_probe_of("java", "--version"));
    } else if str_eq(key, "swift") {
        v.push(line_probe_of("swift", "--version"));
    } else if str_eq(key, "ruby") {
        v.push(line_probe_of("ruby", "--version"));
    } else if str_eq(key, "php") {
        v.push(line_probe_of("php", "--version"));
    } else if str_eq(key, "zig") {
        v.push(line_probe_of("zig", "version"));
    } else if str_eq(key, "lua") {
        v.push(line_probe_of("lua", "-v"));
    } else if str_eq(key, "haskell") {
        v.push(line_probe_of("ghc", "--version"));
    }
    proof {
        assert(v@.map_values(|p: Probe| probe_view(p)) =~= toolchain_plan(
            key@,
            is_windows,
            opt_view(*shell),
            opt_view(*comspec),
        ));
    }
    v
}

fn label_of(key: &str, is_windows: bool, shell: &Option<String>, comspec: &Option<String>, line: &str) -> (r: String)
    requires
        toolchain_plan(key@, is_windows, opt_view(*shell), opt_view(*comspec)).len() > 0,
    ensures
        r@ == toolchain_label(key@, is_windows, opt_view(*shell), opt_view(*comspec), line@),
{
    if str_eq(key, "shell") {
        if is_windows {
            let path = match shell {
                Some(s) => if not_blank_of(s.as_str()) {
                    Some(s.clone())
                } else {
                    comspec.clone()
                },
                None => comspec.clone(),
            };
            assert(opt_view(path) == windows_shell_path(opt_view(*shell), opt_view(*comspec)));
            let p = match path {
                Some(p) => p,
                None => return String::new(),
            };
            let raw = after_last_separator_of(p.as_str());
            let base0 = strip_suffixes_of(raw.as_str(), ".exe");
            let base = strip_suffixes_of(base0.as_str(), ".EXE");
            return lowercase_of(base.as_str());
        } else {
            let s = match shell {
                Some(s) => s,
                None => return String::new(),
            };
            let base = after_last_slash_of(s.as_str());
            return lowercase_of(base.as_str());
        }
    }
    let low = lowercase_of(line);
    let name = if str_eq(key, "rust") {
        "rustc"
    } else if str_eq(key, "python") {
        "python"
    } else if str_eq(key, "go") {
        "go"
    } else if str_eq(key, "javascript") || str_eq(key, "typescript") || str_eq(key, "react") {
        "node"
    } else if str_eq(key, "c") {
        if str_contains(low.as_str(), "clang") {
            "clang"
        } else {
            "cc"
        }
    } else if str_eq(key, "c++") {
        if str_contains(low.as_str(), "clang") {
            "clang++"
        } else {
            "c++"
        }
    } else if str_eq(key, "java") {
        if str_contains(low.as_str(), "openjdk") {
            "openjdk"
        } else {
            "java"
        }
    } else if str_eq(key, "swift") {
        "swift"
    } else if str_eq(key, "ruby") {
        "ruby"
    } else if str_eq(key, "php") {
        "php"
    } else if str_eq(key, "zig") {
        "zig"
    } else if str_eq(key, "lua") {
        "lua"
    } else {
        "ghc"
    };
    String::from_str(name)
}

proof fn lemma_first_answer(answers: Seq<Option<Option<Seq<char>>>>, i: int)
    requires
        0 <= i <= answers.len(),
        forall|j: int| 0 <= j < i ==> #[trigger] answers[j] is None,
    ensures
        first_answer(answers) == first_answer(answers.skip(i)),
    decreases i,
{
    if i > 0 {
        let t = answers.drop_first();
        assert forall|j: int| 0 <= j < i - 1 implies #[trigger] t[j] is None by {
            assert(t[j] == answers[j + 1]);
        }
        lemma_first_answer(t, i - 1);
        assert(t.skip(i - 1) =~= answers.skip(i));
    } else {
        assert(answers.skip(0) =~= answers);
    }
}

/// One step of finding the version of a project language's toolchain: given
/// the outcomes of the probes tried so far, the next probe to try, or the
/// answer (such as `rustc 1.85.0`, `python 3.12.1`, `clang 17.0.6`). A later
/// probe of the plan is tried only while the earlier ones could not be
/// started, so at most one process runs for a language. The language is
/// taken lowercased. On Windows (`is_windows`) the shell is found through
/// `SHELL` or `ComSpec`; on Unix through `SHELL`.
pub fn toolchain_step(
    lang: &str,
    is_windows: bool,
    shell: &Option<String>,
    comspec: &Option<String>,
    answers: &Vec<ProbeOutcome>,
) -> (r: ToolchainStep)
    ensures
        step_for(r, lower(lang@), is_windows, opt_view(*shell), opt_view(*comspec), answer_views(answers@)),
        answers.len() >= 4 ==> r is Done,
        (exists|i: int| 0 <= i < answers.len() && !(#[trigger] answers@[i] is NotStarted)) ==> r is Done,
{
    let key = lowercase_of(lang);
    let plan = plan_of(key.as_str(), is_windows, shell, comspec);
    let ghost pv = plan@.map_values(|p: Probe| probe_view(p));
    let ghost av = answer_views(answers@);
    let ghost rel = within(av, pv.len());
    assert(pv.len() == plan.len());
    let n = if answers.len() < plan.len() {
        answers.len()
    } else {
        plan.len()
    };
    assert(rel =~= av.take(n as int));
    let mut i: usize = 0;
    while i < n
        invariant
            i <= n <= answers.len(),
            n <= plan.len(),
            n == answers.len() || n == plan.len(),
            key@ == lower(lang@),
            pv == plan@.map_values(|p: Probe| probe_view(p)),
            pv == toolchain_plan(key@, is_windows, opt_view(*shell), opt_view(*comspec)),
            rel == within(av, pv.len()),
            av == answer_views(answers@),
            rel == av.take(n as int),
            forall|j: int| 0 <= j < i ==> #[trigger] rel[j] is None,
            forall|j: int| 0 <= j < i ==> #[trigger] answers@[j] is NotStarted,
        decreases n - i,
    {
        assert(rel[i as int] == outcome_view(answers@[i as int]));
        match &answers[i] {
            ProbeOutcome::NotStarted => {},
            ProbeOutcome::NoLine => {
                proof {
                    lemma_first_answer(rel, i as int);
                    assert(rel.skip(i as int)[0] == Some(None::<Seq<char>>));
                }
                return ToolchainStep::Done(None);
            },
            ProbeOutcome::Line(line) => {
                proof {
                    lemma_first_answer(rel, i as int);
                    assert(rel.skip(i as int)[0] == Some(Some(line@)));
                }
                let found = match first_version_token(line.as_str()) {
                    Some(v) => {
                        let label = label_of(key.as_str(), is_windows, shell, comspec, line.as_str());
                        Some(label.concat(" ").concat(v.as_str()))
                    },
                    None => None,
                };
                return ToolchainStep::Done(found);
            },
        }
        i += 1;
    }
    proof {
        lemma_first_answer(rel, n as int);
        assert(rel.skip(n as int).len() == 0);
    }
    if answers.len() < plan.len() {
        let p = &plan[answers.len()];
        assert(pv[answers.len() as int] == probe_view(*p));
        let probe = Probe { cmd: p.cmd.clone(), args: crate::text::copy_strings(&p.args), mode: p.mode };
        ToolchainStep::Run(probe)
    } else {
        ToolchainStep::Done(None)
    }
}

/// The answer for a tool name and the line its probe reported: the name, a
/// space and the line's first version token; nothing when the line holds no
/// version.
pub open spec fn with_version(name: Seq<char>, line: Seq<char>) -> Option<Seq<char>> {
    match first_version_in(tokens(line)) {
        Some(v) => Some(name + " "@ + v),
        None => None,
    }
}

/// The first step for a language asks for the first probe of its plan, and
/// once that probe reported a line, the step stops with that line's answer.
proof fn lemma_first_step(
    key: Seq<char>,
    is_windows: bool,
    shell: Option<Seq<char>>,
    comspec: Option<Seq<char>>,
    line: Seq<char>,
)
    ensures
        next_probe(key, is_windows, shell, comspec, seq![]) == if toolchain_plan(key, is_windows, shell, comspec).len() > 0 {
            Some(toolchain_plan(key, is_windows, shell, comspec)[0])
        } else {
            None
        },
        toolchain_plan(key, is_windows, shell, comspec).len() > 0 ==> {
            &&& next_probe(key, is_windows, shell, comspec, seq![Some(Some(line))]) is None
            &&& toolchain_answer(key, is_windows, shell, comspec, seq![Some(Some(line))])
                == with_version(toolchain_label(key, is_windows, shell, comspec, line), line)
        },
{
    let n = toolchain_plan(key, is_windows, shell, comspec).len();
    let none: Seq<Option<Option<Seq<char>>>> = seq![];
    assert(within(none, n) =~= none);
    assert(first_answer(none) is None);
    if n > 0 {
        let one: Seq<Option<Option<Seq<char>>>> = seq![Some(Some(line))];
        assert(within(one, n) =~= one);
        assert(first_answer(one) == Some(Some(line)));
    }
}

proof fn lemma_tool_rust(is_windows: bool, shell: Option<Seq<char>>, comspec: Option<Seq<char>>, line: Seq<char>)
    ensures
        next_probe("rust"@, is_windows, shell, comspec, seq![]) == Some(("rustc"@, seq!["--version"@], ProbeMode::FirstLine)),
        next_probe("rust"@, is_windows, shell, comspec, seq![Some(Some(line))]) is None,
        toolchain_answer("rust"@, is_windows, shell, comspec, seq![Some(Some(line))]) == with_version("rustc"@, line),
{
    reveal_strlit("rust");
    reveal_strlit("kotlin");
    reveal_strlit("shell");
    reveal_strlit("python");
    reveal_strlit("go");
    reveal_strlit("javascript");
    reveal_strlit("typescript");
    reveal_strlit("react");
    reveal_strlit("c");
    reveal_strlit("c++");
    reveal_strlit("java");
    reveal_strlit("swift");
    reveal_strlit("ruby");
    reveal_strlit("php");
    reveal_strlit("zig");
    reveal_strlit("lua");
    reveal_strlit("haskell");
    assert("rust"@.len() != "kotlin"@.len());
    assert("rust"@.len() != "shell"@.len());
    assert("rust"@.len() != "python"@.len());
    assert("rust"@.len() != "go"@.len());
    assert("rust"@.len() != "javascript"@.len());
    assert("rust"@.len() != "typescript"@.len());
    assert("rust"@.len() != "react"@.len());
    assert("rust"@.len() != "c"@.len());
    assert("rust"@.len() != "c++"@.len());
    assert("rust"@[0] != "java"@[0]);
    assert("rust"@.len() != "swift"@.len());
    assert("rust"@[2] != "ruby"@[2]);
    assert("rust"@.len() != "php"@.len());
    assert("rust"@.len() != "zig"@.len());
    assert("rust"@.len() != "lua"@.len());
    assert("rust"@.len() != "haskell"@.len());
    lemma_first_step("rust"@, is_windows, shell, comspec, line);
    assert(toolchain_plan("rust"@, is_windows, shell, comspec).len() > 0);
}

proof fn lemma_tool_python(is_windows: bool, shell: Option<Seq<char>>, comspec: Option<Seq<char>>, line: Seq<char>)
    ensures
        next_probe("python"@, is_windows, shell, comspec, seq![]) == Some(("python3"@, seq!["--version"@], ProbeMode::FirstLine)),
        next_probe("python"@, is_windows, shell, comspec, seq![Some(Some(line))]) is None,
        toolchain_answer("python"@, is_windows, shell, comspec, seq![Some(Some(line))]) == with_version("python"@, line),
{
    reveal_strlit("python");
    reveal_strlit("kotlin");
    reveal_strlit("shell");
    reveal_strlit("rust");
    reveal_strlit("go");
    reveal_strlit("javascript");
    reveal_strlit("typescript");
    reveal_strlit("react");
    reveal_strlit("c");
    reveal_strlit("c++");
    reveal_strlit("java");
    reveal_strlit("swift");
    reveal_strlit("ruby");
    reveal_strlit("php");
    reveal_strlit("zig");
    reveal_strlit("lua");
    reveal_strlit("haskell");
    assert("python"@[0] != "kotlin"@[0]);
    assert("python"@.len() != "shell"@.len());
    assert("python"@.len() != "rust"@.len());
    assert("python"@.len() != "go"@.len());
    assert("python"@.len() != "javascript"@.len());
    assert("python"@.len() != "typescript"@.len());
    assert("python"@.len() != "react"@.len());
    assert("python"@.len() != "c"@.len());
    assert("python"@.len() != "c++"@.len());
    assert("python"@.len() != "java"@.len());
    assert("python"@.len() != "swift"@.len());
    assert("python"@.len() != "ruby"@.len());
    assert("python"@.len() != "php"@.len());
    assert("python"@.len() != "zig"@.len());
    assert("python"@.len() != "lua"@.len());
    assert("python"@.len() != "haskell"@.len());
    lemma_first_step("python"@, is_windows, shell, comspec, line);
    assert(toolchain_plan("python"@, is_windows, shell, comspec).len() > 0);
}

proof fn lemma_tool_go(is_windows: bool, shell: Option<Seq<char>>, comspec: Option<Seq<char>>, line: Seq<char>)
    ensures
        next_probe("go"@, is_windows, shell, comspec, seq![]) == Some(("go"@, seq!["version"@], ProbeMode::FirstLine)),
        next_probe("go"@, is_windows, shell, comspec, seq![Some(Some(line))]) is None,
        toolchain_answer("go"@, is_windows, shell, comspec, seq![Some(Some(line))]) == with_version("go"@, line),
{
    reveal_strlit("go");
    reveal_strlit("kotlin");
    reveal_strlit("shell");
    reveal_strlit("rust");
    reveal_strlit("python");
    reveal_strlit("javascript");
    reveal_strlit("typescript");
    reveal_strlit("react");
    reveal_strlit("c");
    reveal_strlit("c++");
    reveal_strlit("java");
    reveal_strlit("swift");
    reveal_strlit("ruby");
    reveal_strlit("php");
    reveal_strlit("zig");
    reveal_strlit("lua");
    reveal_strlit("haskell");
    assert("go"@.len() != "kotlin"@.len());
    assert("go"@.len() != "shell"@.len());
    assert("go"@.len() != "rust"@.len());
    assert("go"@.len() != "python"@.len());
    assert("go"@.len() != "javascript"@.len());
    assert("go"@.len() != "typescript"@.len());
    assert("go"@.len() != "react"@.len());
    assert("go"@.len() != "c"@.len());
    assert("go"@.len() != "c++"@.len());
    assert("go"@.len() != "java"@.len());
    assert("go"@.len() != "swift"@.len());
    assert("go"@.len() != "ruby"@.len());
    assert("go"@.len() != "php"@.len());
    assert("go"@.len() != "zig"@.len());
    assert("go"@.len() != "lua"@.len());
    assert("go"@.len() != "haskell"@.len());
    lemma_first_step("go"@, is_windows, shell, comspec, line);
    assert(toolchain_plan("go"@, is_windows, shell, comspec).len() > 0);
}

proof fn lemma_tool_js(is_windows: bool, shell: Option<Seq<char>>, comspec: Option<Seq<char>>, line: Seq<char>)
    ensures
        next_probe("javascript"@, is_windows, shell, comspec, seq![]) == Some(("node"@, seq!["--version"@], ProbeMode::FirstLine)),
        next_probe("javascript"@, is_windows, shell, comspec, seq![Some(Some(line))]) is None,
        toolchain_answer("javascript"@, is_windows, shell, comspec, seq![Some(Some(line))]) == with_version("node"@, line),
{
    reveal_strlit("javascript");
    reveal_strlit("kotlin");
    reveal_strlit("shell");
    reveal_strlit("rust");
    reveal_strlit("python");
    reveal_strlit("go");
    reveal_strlit("typescript");
    reveal_strlit("react");
    reveal_strlit("c");
    reveal_strlit("c++");
    reveal_strlit("java");
    reveal_strlit("swift");
    reveal_strlit("ruby");
    reveal_strlit("php");
    reveal_strlit("zig");
    reveal_strlit("lua");
    reveal_strlit("haskell");
    assert("javascript"@.len() != "kotlin"@.len());
    assert("javascript"@.len() != "shell"@.len());
    assert("javascript"@.len() != "rust"@.len());
    assert("javascript"@.len() != "python"@.len());
    assert("javascript"@.len() != "go"@.len());
    assert("javascript"@[0] != "typescript"@[0]);
    assert("javascript"@.len() != "react"@.len());
    assert("javascript"@.len() != "c"@.len());
    assert("javascript"@.len() != "c++"@.len());
    assert("javascript"@.len() != "java"@.len());
    assert("javascript"@.len() != "swift"@.len());
    assert("javascript"@.len() != "ruby"@.len());
    assert("javascript"@.len() != "php"@.len());
    assert("javascript"@.len() != "zig"@.len());
    assert("javascript"@.len() != "lua"@.len());
    assert("javascript"@.len() != "haskell"@.len());
    lemma_first_step("javascript"@, is_windows, shell, comspec, line);
    assert(toolchain_plan("javascript"@, is_windows, shell, comspec).len() > 0);
}

proof fn lemma_tool_typescript(is_windows: bool, shell: Option<Seq<char>>, comspec: Option<Seq<char>>, line: Seq<char>)
    ensures
        next_probe("typescript"@, is_windows, shell, comspec, seq![]) == Some(("node"@, seq!["--version"@], ProbeMode::FirstLine)),
        next_probe("typescript"@, is_windows, shell, comspec, seq![Some(Some(line))]) is None,
        toolchain_answer("typescript"@, is_windows, shell, comspec, seq![Some(Some(line))]) == with_version("node"@, line),
{
    reveal_strlit("typescript");
    reveal_strlit("kotlin");
    reveal_strlit("shell");
    reveal_strlit("rust");
    reveal_strlit("python");
    reveal_strlit("go");
    reveal_strlit("javascript");
    reveal_strlit("react");
    reveal_strlit("c");
    reveal_strlit("c++");
    reveal_strlit("java");
    reveal_strlit("swift");
    reveal_strlit("ruby");
    reveal_strlit("php");
    reveal_strlit("zig");
    reveal_strlit("lua");
    reveal_strlit("haskell");
    assert("typescript"@.len() != "kotlin"@.len());
    assert("typescript"@.len() != "shell"@.len());
    assert("typescript"@.len() != "rust"@.len());
    assert("typescript"@.len() != "python"@.len());
    assert("typescript"@.len() != "go"@.len());
    assert("typescript"@[0] != "javascript"@[0]);
    assert("typescript"@.len() != "react"@.len());
    assert("typescript"@.len() != "c"@.len());
    assert("typescript"@.len() != "c++"@.len());
    assert("typescript"@.len() != "java"@.len());
    assert("typescript"@.len() != "swift"@.len());
    assert("typescript"@.len() != "ruby"@.len());
    assert("typescript"@.len() != "php"@.len());
    assert("typescript"@.len() != "zig"@.len());
    assert("typescript"@.len() != "lua"@.len());
    assert("typescript"@.len() != "haskell"@.len());
    lemma_first_step("typescript"@, is_windows, shell, comspec, line);
    assert(toolchain_plan("typescript"@, is_windows, shell, comspec).len() > 0);
}

proof fn lemma_tool_react(is_windows: bool, shell: Option<Seq<char>>, comspec: Option<Seq<char>>, line: Seq<char>)
    ensures
        next_probe("react"@, is_windows, shell, comspec, seq![]) == Some(("node"@, seq!["--version"@], ProbeMode::FirstLine)),
        next_probe("react"@, is_windows, shell, comspec, seq![Some(Some(line))]) is None,
        toolchain_answer("react"@, is_windows, shell, comspec, seq![Some(Some(line))]) == with_version("node"@, line),
{
    reveal_strlit("react");
    reveal_strlit("kotlin");
    reveal_strlit("shell");
    reveal_strlit("rust");
    reveal_strlit("python");
    reveal_strlit("go");
    reveal_strlit("javascript");
    reveal_strlit("typescript");
    reveal_strlit("c");
    reveal_strlit("c++");
    reveal_strlit("java");
    reveal_strlit("swift");
    reveal_strlit("ruby");
    reveal_strlit("php");
    reveal_strlit("zig");
    reveal_strlit("lua");
    reveal_strlit("haskell");
    assert("react"@.len() != "kotlin"@.len());
    assert("react"@[0] != "shell"@[0]);
    assert("react"@.len() != "rust"@.len());
    assert("react"@.len() != "python"@.len());
    assert("react"@.len() != "go"@.len());
    assert("react"@.len() != "javascript"@.len());
    assert("react"@.len() != "typescript"@.len());
    assert("react"@.len() != "c"@.len());
    assert("react"@.len() != "c++"@.len());
    assert("react"@.len() != "java"@.len());
    assert("react"@[0] != "swift"@[0]);
    assert("react"@.len() != "ruby"@.len());
    assert("react"@.len() != "php"@.len());
    assert("react"@.len() != "zig"@.len());
    assert("react"@.len() != "lua"@.len());
    assert("react"@.len() != "haskell"@.len());
    lemma_first_step("react"@, is_windows, shell, comspec, line);
    assert(toolchain_plan("react"@, is_windows, shell, comspec).len() > 0);
}

proof fn lemma_tool_c(is_windows: bool, shell: Option<Seq<char>>, comspec: Option<Seq<char>>, line: Seq<char>)
    ensures
        next_probe("c"@, is_windows, shell, comspec, seq![]) == Some(("cc"@, seq!["--version"@], ProbeMode::FirstLine)),
        next_probe("c"@, is_windows, shell, comspec, seq![Some(Some(line))]) is None,
        toolchain_answer("c"@, is_windows, shell, comspec, seq![Some(Some(line))]) == with_version((if contains(lower(line), "clang"@) { "clang"@ } else { "cc"@ }), line),
{
    reveal_strlit("c");
    reveal_strlit("kotlin");
    reveal_strlit("shell");
    reveal_strlit("rust");
    reveal_strlit("python");
    reveal_strlit("go");
    reveal_strlit("javascript");
    reveal_strlit("typescript");
    reveal_strlit("react");
    reveal_strlit("c++");
    reveal_strlit("java");
    reveal_strlit("swift");
    reveal_strlit("ruby");
    reveal_strlit("php");
    reveal_strlit("zig");
    reveal_strlit("lua");
    reveal_strlit("haskell");
    assert("c"@.len() != "kotlin"@.len());
    assert("c"@.len() != "shell"@.len());
    assert("c"@.len() != "rust"@.len());
    assert("c"@.len() != "python"@.len());
    assert("c"@.len() != "go"@.len());
    assert("c"@.len() != "javascript"@.len());
    assert("c"@.len() != "typescript"@.len());
    assert("c"@.len() != "react"@.len());
    assert("c"@.len() != "c++"@.len());
    assert("c"@.len() != "java"@.len());
    assert("c"@.len() != "swift"@.len());
    assert("c"@.len() != "ruby"@.len());
    assert("c"@.len() != "php"@.len());
    assert("c"@.len() != "zig"@.len());
    assert("c"@.len() != "lua"@.len());
    assert("c"@.len() != "haskell"@.len());
    lemma_first_step("c"@, is_windows, shell, comspec, line);
    assert(toolchain_plan("c"@, is_windows, shell, comspec).len() > 0);
}

proof fn lemma_tool_cpp(is_windows: bool, shell: Option<Seq<char>>, comspec: Option<Seq<char>>, line: Seq<char>)
    ensures
        next_probe("c++"@, is_windows, shell, comspec, seq![]) == Some(("c++"@, seq!["--version"@], ProbeMode::FirstLine)),
        next_probe("c++"@, is_windows, shell, comspec, seq![Some(Some(line))]) is None,
        toolchain_answer("c++"@, is_windows, shell, comspec, seq![Some(Some(line))]) == with_version((if contains(lower(line), "clang"@) { "clang++"@ } else { "c++"@ }), line),
{
    reveal_strlit("c++");
    reveal_strlit("kotlin");
    reveal_strlit("shell");
    reveal_strlit("rust");
    reveal_strlit("python");
    reveal_strlit("go");
    reveal_strlit("javascript");
    reveal_strlit("typescript");
    reveal_strlit("react");
    reveal_strlit("c");
    reveal_strlit("java");
    reveal_strlit("swift");
    reveal_strlit("ruby");
    reveal_strlit("php");
    reveal_strlit("zig");
    reveal_strlit("lua");
    reveal_strlit("haskell");
    assert("c++"@.len() != "kotlin"@.len());
    assert("c++"@.len() != "shell"@.len());
    assert("c++"@.len() != "rust"@.len());
    assert("c++"@.len() != "python"@.len());
    assert("c++"@.len() != "go"@.len());
    assert("c++"@.len() != "javascript"@.len());
    assert("c++"@.len() != "typescript"@.len());
    assert("c++"@.len() != "react"@.len());
    assert("c++"@.len() != "c"@.len());
    assert("c++"@.len() != "java"@.len());
    assert("c++"@.len() != "swift"@.len());
    assert("c++"@.len() != "ruby"@.len());
    assert("c++"@[0] != "php"@[0]);
    assert("c++"@[0] != "zig"@[0]);
    assert("c++"@[0] != "lua"@[0]);
    assert("c++"@.len() != "haskell"@.len());
    lemma_first_step("c++"@, is_windows, shell, comspec, line);
    assert(toolchain_plan("c++"@, is_windows, shell, comspec).len() > 0);
}

proof fn lemma_tool_java(is_windows: bool, shell: Option<Seq<char>>, comspec: Option<Seq<char>>, line: Seq<char>)
    ensures
        next_probe("java"@, is_windows, shell, comspec, seq![]) == Some(("java"@, seq!["--version"@], ProbeMode::FirstLine)),
        next_probe("java"@, is_windows, shell, comspec, seq![Some(Some(line))]) is None,
        toolchain_answer("java"@, is_windows, shell, comspec, seq![Some(Some(line))]) == with_version((if contains(lower(line), "openjdk"@) { "openjdk"@ } else { "java"@ }), line),
{
    reveal_strlit("java");
    reveal_strlit("kotlin");
    reveal_strlit("shell");
    reveal_strlit("rust");
    reveal_strlit("python");
    reveal_strlit("go");
    reveal_strlit("javascript");
    reveal_strlit("typescript");
    reveal_strlit("react");
    reveal_strlit("c");
    reveal_strlit("c++");
    reveal_strlit("swift");
    reveal_strlit("ruby");
    reveal_strlit("php");
    reveal_strlit("zig");
    reveal_strlit("lua");
    reveal_strlit("haskell");
    assert("java"@.len() != "kotlin"@.len());
    assert("java"@.len() != "shell"@.len());
    assert("java"@[0] != "rust"@[0]);
    assert("java"@.len() != "python"@.len());
    assert("java"@.len() != "go"@.len());
    assert("java"@.len() != "javascript"@.len());
    assert("java"@.len() != "typescript"@.len());
    assert("java"@.len() != "react"@.len());
    assert("java"@.len() != "c"@.len());
    assert("java"@.len() != "c++"@.len());
    assert("java"@.len() != "swift"@.len());
    assert("java"@[0] != "ruby"@[0]);
    assert("java"@.len() != "php"@.len());
    assert("java"@.len() != "zig"@.len());
    assert("java"@.len() != "lua"@.len());
    assert("java"@.len() != "haskell"@.len());
    lemma_first_step("java"@, is_windows, shell, comspec, line);
    assert(toolchain_plan("java"@, is_windows, shell, comspec).len() > 0);
}

proof fn lemma_tool_swift(is_windows: bool, shell: Option<Seq<char>>, comspec: Option<Seq<char>>, line: Seq<char>)
    ensures
        next_probe("swift"@, is_windows, shell, comspec, seq![]) == Some(("swift"@, seq!["--version"@], ProbeMode::FirstLine)),
        next_probe("swift"@, is_windows, shell, comspec, seq![Some(Some(line))]) is None,
        toolchain_answer("swift"@, is_windows, shell, comspec, seq![Some(Some(line))]) == with_version("swift"@, line),
{
    reveal_strlit("swift");
    reveal_strlit("kotlin");
    reveal_strlit("shell");
    reveal_strlit("rust");
    reveal_strlit("python");
    reveal_strlit("go");
    reveal_strlit("javascript");
    reveal_strlit("typescript");
    reveal_strlit("react");
    reveal_strlit("c");
    reveal_strlit("c++");
    reveal_strlit("java");
    reveal_strlit("ruby");
    reveal_strlit("php");
    reveal_strlit("zig");
    reveal_strlit("lua");
    reveal_strlit("haskell");
    assert("swift"@.len() != "kotlin"@.len());
    assert("swift"@[1] != "shell"@[1]);
    assert("swift"@.len() != "rust"@.len());
    assert("swift"@.len() != "python"@.len());
    assert("swift"@.len() != "go"@.len());
    assert("swift"@.len() != "javascript"@.len());
    assert("swift"@.len() != "typescript"@.len());
    assert("swift"@[0] != "react"@[0]);
    assert("swift"@.len() != "c"@.len());
    assert("swift"@.len() != "c++"@.len());
    assert("swift"@.len() != "java"@.len());
    assert("swift"@.len() != "ruby"@.len());
    assert("swift"@.len() != "php"@.len());
    assert("swift"@.len() != "zig"@.len());
    assert("swift"@.len() != "lua"@.len());
    assert("swift"@.len() != "haskell"@.len());
    lemma_first_step("swift"@, is_windows, shell, comspec, line);
    assert(toolchain_plan("swift"@, is_windows, shell, comspec).len() > 0);
}

proof fn lemma_tool_ruby(is_windows: bool, shell: Option<Seq<char>>, comspec: Option<Seq<char>>, line: Seq<char>)
    ensures
        next_probe("ruby"@, is_windows, shell, comspec, seq![]) == Some(("ruby"@, seq!["--version"@], ProbeMode::FirstLine)),
        next_probe("ruby"@, is_windows, shell, comspec, seq![Some(Some(line))]) is None,
        toolchain_answer("ruby"@, is_windows, shell, comspec, seq![Some(Some(line))]) == with_version("ruby"@, line),
{
    reveal_strlit("ruby");
    reveal_strlit("kotlin");
    reveal_strlit("shell");
    reveal_strlit("rust");
    reveal_strlit("python");
    reveal_strlit("go");
    reveal_strlit("javascript");
    reveal_strlit("typescript");
    reveal_strlit("react");
    reveal_strlit("c");
    reveal_strlit("c++");
    reveal_strlit("java");
    reveal_strlit("swift");
    reveal_strlit("php");
    reveal_strlit("zig");
    reveal_strlit("lua");
    reveal_strlit("haskell");
    assert("ruby"@.len() != "kotlin"@.len());
    assert("ruby"@.len() != "shell"@.len());
    assert("ruby"@[2] != "rust"@[2]);
    assert("ruby"@.len() != "python"@.len());
    assert("ruby"@.len() != "go"@.len());
    assert("ruby"@.len() != "javascript"@.len());
    assert("ruby"@.len() != "typescript"@.len());
    assert("ruby"@.len() != "react"@.len());
    assert("ruby"@.len() != "c"@.len());
    assert("ruby"@.len() != "c++"@.len());
    assert("ruby"@[0] != "java"@[0]);
    assert("ruby"@.len() != "swift"@.len());
    assert("ruby"@.len() != "php"@.len());
    assert("ruby"@.len() != "zig"@.len());
    assert("ruby"@.len() != "lua"@.len());
    assert("ruby"@.len() != "haskell"@.len());
    lemma_first_step("ruby"@, is_windows, shell, comspec, line);
    assert(toolchain_plan("ruby"@, is_windows, shell, comspec).len() > 0);
}

proof fn lemma_tool_php(is_windows: bool, shell: Option<Seq<char>>, comspec: Option<Seq<char>>, line: Seq<char>)
    ensures
        next_probe("php"@, is_windows, shell, comspec, seq![]) == Some(("php"@, seq!["--version"@], ProbeMode::FirstLine)),
        next_probe("php"@, is_windows, shell, comspec, seq![Some(Some(line))]) is None,
        toolchain_answer("php"@, is_windows, shell, comspec, seq![Some(Some(line))]) == with_version("php"@, line),
{
    reveal_strlit("php");
    reveal_strlit("kotlin");
    reveal_strlit("shell");
    reveal_strlit("rust");
    reveal_strlit("python");
    reveal_strlit("go");
    reveal_strlit("javascript");
    reveal_strlit("typescript");
    reveal_strlit("react");
    reveal_strlit("c");
    reveal_strlit("c++");
    reveal_strlit("java");
    reveal_strlit("swift");
    reveal_strlit("ruby");
    reveal_strlit("zig");
    reveal_strlit("lua");
    reveal_strlit("haskell");
    assert("php"@.len() != "kotlin"@.len());
    assert("php"@.len() != "shell"@.len());
    assert("php"@.len() != "rust"@.len());
    assert("php"@.len() != "python"@.len());
    assert("php"@.len() != "go"@.len());
    assert("php"@.len() != "javascript"@.len());
    assert("php"@.len() != "typescript"@.len());
    assert("php"@.len() != "react"@.len());
    assert("php"@.len() != "c"@.len());
    assert("php"@[0] != "c++"@[0]);
    assert("php"@.len() != "java"@.len());
    assert("php"@.len() != "swift"@.len());
    assert("php"@.len() != "ruby"@.len());
    assert("php"@[0] != "zig"@[0]);
    assert("php"@[0] != "lua"@[0]);
    assert("php"@.len() != "haskell"@.len());
    lemma_first_step("php"@, is_windows, shell, comspec, line);
    assert(toolchain_plan("php"@, is_windows, shell, comspec).len() > 0);
}

proof fn lemma_tool_zig(is_windows: bool, shell: Option<Seq<char>>, comspec: Option<Seq<char>>, line: Seq<char>)
    ensures
        next_probe("zig"@, is_windows, shell, comspec, seq![]) == Some(("zig"@, seq!["version"@], ProbeMode::FirstLine)),
        next_probe("zig"@, is_windows, shell, comspec, seq![Some(Some(line))]) is None,
        toolchain_answer("zig"@, is_windows, shell, comspec, seq![Some(Some(line))]) == with_version("zig"@, line),
{
    reveal_strlit("zig");
    reveal_strlit("kotlin");
    reveal_strlit("shell");
    reveal_strlit("rust");
    reveal_strlit("python");
    reveal_strlit("go");
    reveal_strlit("javascript");
    reveal_strlit("typescript");
    reveal_strlit("react");
    reveal_strlit("c");
    reveal_strlit("c++");
    reveal_strlit("java");
    reveal_strlit("swift");
    reveal_strlit("ruby");
    reveal_strlit("php");
    reveal_strlit("lua");
    reveal_strlit("haskell");
    assert("zig"@.len() != "kotlin"@.len());
    assert("zig"@.len() != "shell"@.len());
    assert("zig"@.len() != "rust"@.len());
    assert("zig"@.len() != "python"@.len());
    assert("zig"@.len() != "go"@.len());
    assert("zig"@.len() != "javascript"@.len());
    assert("zig"@.len() != "typescript"@.len());
    assert("zig"@.len() != "react"@.len());
    assert("zig"@.len() != "c"@.len());
    assert("zig"@[0] != "c++"@[0]);
    assert("zig"@.len() != "java"@.len());
    assert("zig"@.len() != "swift"@.len());
    assert("zig"@.len() != "ruby"@.len());
    assert("zig"@[0] != "php"@[0]);
    assert("zig"@[0] != "lua"@[0]);
    assert("zig"@.len() != "haskell"@.len());
    lemma_first_step("zig"@, is_windows, shell, comspec, line);
    assert(toolchain_plan("zig"@, is_windows, shell, comspec).len() > 0);
}

proof fn lemma_tool_lua(is_windows: bool, shell: Option<Seq<char>>, comspec: Option<Seq<char>>, line: Seq<char>)
    ensures
        next_probe("lua"@, is_windows, shell, comspec, seq![]) == Some(("lua"@, seq!["-v"@], ProbeMode::FirstLine)),
        next_probe("lua"@, is_windows, shell, comspec, seq![Some(Some(line))]) is None,
        toolchain_answer("lua"@, is_windows, shell, comspec, seq![Some(Some(line))]) == with_version("lua"@, line),
{
    reveal_strlit("lua");
    reveal_strlit("kotlin");
    reveal_strlit("shell");
    reveal_strlit("rust");
    reveal_strlit("python");
    reveal_strlit("go");
    reveal_strlit("javascript");
    reveal_strlit("typescript");
    reveal_strlit("react");
    reveal_strlit("c");
    reveal_strlit("c++");
    reveal_strlit("java");
    reveal_strlit("swift");
    reveal_strlit("ruby");
    reveal_strlit("php");
    reveal_strlit("zig");
    reveal_strlit("haskell");
    assert("lua"@.len() != "kotlin"@.len());
    assert("lua"@.len() != "shell"@.len());
    assert("lua"@.len() != "rust"@.len());
    assert("lua"@.len() != "python"@.len());
    assert("lua"@.len() != "go"@.len());
    assert("lua"@.len() != "javascript"@.len());
    assert("lua"@.len() != "typescript"@.len());
    assert("lua"@.len() != "react"@.len());
    assert("lua"@.len() != "c"@.len());
    assert("lua"@[0] != "c++"@[0]);
    assert("lua"@.len() != "java"@.len());
    assert("lua"@.len() != "swift"@.len());
    assert("lua"@.len() != "ruby"@.len());
    assert("lua"@[0] != "php"@[0]);
    assert("lua"@[0] != "zig"@[0]);
    assert("lua"@.len() != "haskell"@.len());
    lemma_first_step("lua"@, is_windows, shell, comspec, line);
    assert(toolchain_plan("lua"@, is_windows, shell, comspec).len() > 0);
}

proof fn lemma_tool_haskell(is_windows: bool, shell: Option<Seq<char>>, comspec: Option<Seq<char>>, line: Seq<char>)
    ensures
        next_probe("haskell"@, is_windows, shell, comspec, seq![]) == Some(("ghc"@, seq!["--version"@], ProbeMode::FirstLine)),
        next_probe("haskell"@, is_windows, shell, comspec, seq![Some(Some(line))]) is None,
        toolchain_answer("haskell"@, is_windows, shell, comspec, seq![Some(Some(line))]) == with_version("ghc"@, line),
{
    reveal_strlit("haskell");
    reveal_strlit("kotlin");
    reveal_strlit("shell");
    reveal_strlit("rust");
    reveal_strlit("python");
    reveal_strlit("go");
    reveal_strlit("javascript");
    reveal_strlit("typescript");
    reveal_strlit("react");
    reveal_strlit("c");
    reveal_strlit("c++");
    reveal_strlit("java");
    reveal_strlit("swift");
    reveal_strlit("ruby");
    reveal_strlit("php");
    reveal_strlit("zig");
    reveal_strlit("lua");
    assert("haskell"@.len() != "kotlin"@.len());
    assert("haskell"@.len() != "shell"@.len());
    assert("haskell"@.len() != "rust"@.len());
    assert("haskell"@.len() != "python"@.len());
    assert("haskell"@.len() != "go"@.len());
    assert("haskell"@.len() != "javascript"@.len());
    assert("haskell"@.len() != "typescript"@.len());
    assert("haskell"@.len() != "react"@.len());
    assert("haskell"@.len() != "c"@.len());
    assert("haskell"@.len() != "c++"@.len());
    assert("haskell"@.len() != "java"@.len());
    assert("haskell"@.len() != "swift"@.len());
    assert("haskell"@.len() != "ruby"@.len());
    assert("haskell"@.len() != "php"@.len());
    assert("haskell"@.len() != "zig"@.len());
    assert("haskell"@.len() != "lua"@.len());
    lemma_first_step("haskell"@, is_windows, shell, comspec, line);
    assert(toolchain_plan("haskell"@, is_windows, shell, comspec).len() > 0);
}

/// Each language the tool list knows is probed with its tool: the first
/// step asks for `rustc --version` for Rust, `python3 --version` for Python,
/// `go version` for Go, `node --version` for JavaScript, TypeScript and
/// React, `cc`, `c++` and `java` with `--version` for C, C++ and Java,
/// `swift`, `ruby`, `php` and `ghc` with `--version`, `zig version` and
/// `lua -v`. Once that probe reports a line, probing stops, and the answer
/// is the tool's display name (for C, C++ and Java the vendor the line
/// names), a space and the line's version, or nothing without a version.
pub proof fn law_languages_probe_their_tools(
    is_windows: bool,
    shell: Option<Seq<char>>,
    comspec: Option<Seq<char>>,
    line: Seq<char>,
)
    ensures
        next_probe("rust"@, is_windows, shell, comspec, seq![]) == Some(("rustc"@, seq!["--version"@], ProbeMode::FirstLine)),
        next_probe("python"@, is_windows, shell, comspec, seq![]) == Some(("python3"@, seq!["--version"@], ProbeMode::FirstLine)),
        next_probe("go"@, is_windows, shell, comspec, seq![]) == Some(("go"@, seq!["version"@], ProbeMode::FirstLine)),
        next_probe("javascript"@, is_windows, shell, comspec, seq![]) == Some(("node"@, seq!["--version"@], ProbeMode::FirstLine)),
        next_probe("typescript"@, is_windows, shell, comspec, seq![]) == Some(("node"@, seq!["--version"@], ProbeMode::FirstLine)),
        next_probe("react"@, is_windows, shell, comspec, seq![]) == Some(("node"@, seq!["--version"@], ProbeMode::FirstLine)),
        next_probe("c"@, is_windows, shell, comspec, seq![]) == Some(("cc"@, seq!["--version"@], ProbeMode::FirstLine)),
        next_probe("c++"@, is_windows, shell, comspec, seq![]) == Some(("c++"@, seq!["--version"@], ProbeMode::FirstLine)),
        next_probe("java"@, is_windows, shell, comspec, seq![]) == Some(("java"@, seq!["--version"@], ProbeMode::FirstLine)),
        next_probe("swift"@, is_windows, shell, comspec, seq![]) == Some(("swift"@, seq!["--version"@], ProbeMode::FirstLine)),
        next_probe("ruby"@, is_windows, shell, comspec, seq![]) == Some(("ruby"@, seq!["--version"@], ProbeMode::FirstLine)),
        next_probe("php"@, is_windows, shell, comspec, seq![]) == Some(("php"@, seq!["--version"@], ProbeMode::FirstLine)),
        next_probe("zig"@, is_windows, shell, comspec, seq![]) == Some(("zig"@, seq!["version"@], ProbeMode::FirstLine)),
        next_probe("lua"@, is_windows, shell, comspec, seq![]) == Some(("lua"@, seq!["-v"@], ProbeMode::FirstLine)),
        next_probe("haskell"@, is_windows, shell, comspec, seq![]) == Some(("ghc"@, seq!["--version"@], ProbeMode::FirstLine)),
        next_probe("rust"@, is_windows, shell, comspec, seq![Some(Some(line))]) is None,
        toolchain_answer("rust"@, is_windows, shell, comspec, seq![Some(Some(line))]) == with_version("rustc"@, line),
        next_probe("python"@, is_windows, shell, comspec, seq![Some(Some(line))]) is None,
        toolchain_answer("python"@, is_windows, shell, comspec, seq![Some(Some(line))]) == with_version("python"@, line),
        next_probe("go"@, is_windows, shell, comspec, seq![Some(Some(line))]) is None,
        toolchain_answer("go"@, is_windows, shell, comspec, seq![Some(Some(line))]) == with_version("go"@, line),
        next_probe("javascript"@, is_windows, shell, comspec, seq![Some(Some(line))]) is None,
        toolchain_answer("javascript"@, is_windows, shell, comspec, seq![Some(Some(line))]) == with_version("node"@, line),
        next_probe("typescript"@, is_windows, shell, comspec, seq![Some(Some(line))]) is None,
        toolchain_answer("typescript"@, is_windows, shell, comspec, seq![Some(Some(line))]) == with_version("node"@, line),
        next_probe("react"@, is_windows, shell, comspec, seq![Some(Some(line))]) is None,
        toolchain_answer("react"@, is_windows, shell, comspec, seq![Some(Some(line))]) == with_version("node"@, line),
        next_probe("c"@, is_windows, shell, comspec, seq![Some(Some(line))]) is None,
        toolchain_answer("c"@, is_windows, shell, comspec, seq![Some(Some(line))]) == with_version((if contains(lower(line), "clang"@) { "clang"@ } else { "cc"@ }), line),
        next_probe("c++"@, is_windows, shell, comspec, seq![Some(Some(line))]) is None,
        toolchain_answer("c++"@, is_windows, shell, comspec, seq![Some(Some(line))]) == with_version((if contains(lower(line), "clang"@) { "clang++"@ } else { "c++"@ }), line),
        next_probe("java"@, is_windows, shell, comspec, seq![Some(Some(line))]) is None,
        toolchain_answer("java"@, is_windows, shell, comspec, seq![Some(Some(line))]) == with_version((if contains(lower(line), "openjdk"@) { "openjdk"@ } else { "java"@ }), line),
        next_probe("swift"@, is_windows, shell, comspec, seq![Some(Some(line))]) is None,
        toolchain_answer("swift"@, is_windows, shell, comspec, seq![Some(Some(line))]) == with_version("swift"@, line),
        next_probe("ruby"@, is_windows, shell, comspec, seq![Some(Some(line))]) is None,
        toolchain_answer("ruby"@, is_windows, shell, comspec, seq![Some(Some(line))]) == with_version("ruby"@, line),
        next_probe("php"@, is_windows, shell, comspec, seq![Some(Some(line))]) is None,
        toolchain_answer("php"@, is_windows, shell, comspec, seq![Some(Some(line))]) == with_version("php"@, line),
        next_probe("zig"@, is_windows, shell, comspec, seq![Some(Some(line))]) is None,
        toolchain_answer("zig"@, is_windows, shell, comspec, seq![Some(Some(line))]) == with_version("zig"@, line),
        next_probe("lua"@, is_windows, shell, comspec, seq![Some(Some(line))]) is None,
        toolchain_answer("lua"@, is_windows, shell, comspec, seq![Some(Some(line))]) == with_version("lua"@, line),
        next_probe("haskell"@, is_windows, shell, comspec, seq![Some(Some(line))]) is None,
        toolchain_answer("haskell"@, is_windows, shell, comspec, seq![Some(Some(line))]) == with_version("ghc"@, line),
{
    lemma_tool_rust(is_windows, shell, comspec, line);
    lemma_tool_python(is_windows, shell, comspec, line);
    lemma_tool_go(is_windows, shell, comspec, line);
    lemma_tool_js(is_windows, shell, comspec, line);
    lemma_tool_typescript(is_windows, shell, comspec, line);
    lemma_tool_react(is_windows, shell, comspec, line);
    lemma_tool_c(is_windows, shell, comspec, line);
    lemma_tool_cpp(is_windows, shell, comspec, line);
    lemma_tool_java(is_windows, shell, comspec, line);
    lemma_tool_swift(is_windows, shell, comspec, line);
    lemma_tool_ruby(is_windows, shell, comspec, line);
    lemma_tool_php(is_windows, shell, comspec, line);
    lemma_tool_zig(is_windows, shell, comspec, line);
    lemma_tool_lua(is_windows, shell, comspec, line);
    lemma_tool_haskell(is_windows, shell, comspec, line);
}

/// `m` probes none of which could be started.
pub open spec fn unstarted(m: nat) -> Seq<Option<Option<Seq<char>>>> {
    Seq::new(m, |i: int| None::<Option<Seq<char>>>)
}

proof fn lemma_first_answer_unstarted(m: nat)
    ensures
        first_answer(unstarted(m)) is None,
    decreases m,
{
    if m > 0 {
        assert(unstarted(m).drop_first() =~= unstarted((m - 1) as nat));
        lemma_first_answer_unstarted((m - 1) as nat);
    }
}

/// While the earlier probes could not be started, the next one of the plan
/// is asked for.
proof fn lemma_next_after_unstarted(
    key: Seq<char>,
    is_windows: bool,
    shell: Option<Seq<char>>,
    comspec: Option<Seq<char>>,
    m: nat,
)
    ensures
        next_probe(key, is_windows, shell, comspec, unstarted(m)) == if m < toolchain_plan(key, is_windows, shell, comspec).len() {
            Some(toolchain_plan(key, is_windows, shell, comspec)[m as int])
        } else {
            None
        },
{
    let n = toolchain_plan(key, is_windows, shell, comspec).len();
    let w = within(unstarted(m), n);
    if m <= n {
        assert(w == unstarted(m));
    } else {
        assert(w =~= unstarted(n));
    }
    lemma_first_answer_unstarted(if m <= n { m } else { n });
}

/// When a tool cannot be started, the next one is asked for: `python` after
/// `python3`; `gcc`, `clang` and `cl` in turn after `cc`; `g++`, `clang++`
/// and `cl` after `c++`; and after the last of them nothing more.
pub proof fn law_missing_tools_fall_back(is_windows: bool, shell: Option<Seq<char>>, comspec: Option<Seq<char>>)
    ensures
        next_probe("python"@, is_windows, shell, comspec, unstarted(1)) == Some(("python"@, seq!["--version"@], ProbeMode::FirstLine)),
        next_probe("python"@, is_windows, shell, comspec, unstarted(2)) is None,
        next_probe("c"@, is_windows, shell, comspec, unstarted(1)) == Some(("gcc"@, seq!["--version"@], ProbeMode::FirstLine)),
        next_probe("c"@, is_windows, shell, comspec, unstarted(2)) == Some(("clang"@, seq!["--version"@], ProbeMode::FirstLine)),
        next_probe("c"@, is_windows, shell, comspec, unstarted(3)) == Some(("cl"@, seq!["--version"@], ProbeMode::FirstLine)),
        next_probe("c"@, is_windows, shell, comspec, unstarted(4)) is None,
        next_probe("c++"@, is_windows, shell, comspec, unstarted(1)) == Some(("g++"@, seq!["--version"@], ProbeMode::FirstLine)),
        next_probe("c++"@, is_windows, shell, comspec, unstarted(2)) == Some(("clang++"@, seq!["--version"@], ProbeMode::FirstLine)),
        next_probe("c++"@, is_windows, shell, comspec, unstarted(3)) == Some(("cl"@, seq!["--version"@], ProbeMode::FirstLine)),
        next_probe("c++"@, is_windows, shell, comspec, unstarted(4)) is None,
{
    lemma_tool_python(is_windows, shell, comspec, seq![]);
    lemma_tool_c(is_windows, shell, comspec, seq![]);
    lemma_tool_cpp(is_windows, shell, comspec, seq![]);
    reveal_strlit("python");
    reveal_strlit("c");
    reveal_strlit("c++");
    reveal_strlit("kotlin");
    reveal_strlit("shell");
    reveal_strlit("rust");
    assert("python"@.len() != "kotlin"@.len() || "python"@[0] != "kotlin"@[0]);
    assert("python"@.len() != "shell"@.len() && "python"@.len() != "rust"@.len());
    assert("c"@.len() != "kotlin"@.len() && "c"@.len() != "shell"@.len() && "c"@.len() != "rust"@.len());
    assert("c"@.len() != "python"@.len());
    assert("c++"@.len() != "kotlin"@.len() && "c++"@.len() != "shell"@.len() && "c++"@.len() != "rust"@.len());
    assert("c++"@.len() != "python"@.len() && "c++"@.len() != "c"@.len());
    reveal_strlit("go");
    reveal_strlit("javascript");
    reveal_strlit("typescript");
    reveal_strlit("react");
    assert("c"@.len() != "go"@.len() && "c"@.len() != "javascript"@.len());
    assert("c"@.len() != "typescript"@.len() && "c"@.len() != "react"@.len());
    assert("c++"@.len() != "go"@.len() && "c++"@.len() != "javascript"@.len());
    assert("c++"@.len() != "typescript"@.len() && "c++"@.len() != "react"@.len());
    lemma_next_after_unstarted("python"@, is_windows, shell, comspec, 1);
    lemma_next_after_unstarted("python"@, is_windows, shell, comspec, 2);
    lemma_next_after_unstarted("c"@, is_windows, shell, comspec, 1);
    lemma_next_after_unstarted("c"@, is_windows, shell, comspec, 2);
    lemma_next_after_unstarted("c"@, is_windows, shell, comspec, 3);
    lemma_next_after_unstarted("c"@, is_windows, shell, comspec, 4);
    lemma_next_after_unstarted("c++"@, is_windows, shell, comspec, 1);
    lemma_next_after_unstarted("c++"@, is_windows, shell, comspec, 2);
    lemma_next_after_unstarted("c++"@, is_windows, shell, comspec, 3);
    lemma_next_after_unstarted("c++"@, is_windows, shell, comspec, 4);
}

/// On Unix a shell project asks the shell named by `SHELL` (the part after
/// its last `/`) for `--version`, and once it reports a line the answer is
/// that name lowercased, a space and the line's version.
pub proof fn law_unix_shell_probes_itself(
    dir: Seq<char>,
    name: Seq<char>,
    comspec: Option<Seq<char>>,
    line: Seq<char>,
)
    requires
        name.len() > 0,
        forall|i: int| 0 <= i < name.len() ==> #[trigger] name[i] != '/',
        dir.len() == 0 || dir.last() == '/',
    ensures
        next_probe("shell"@, false, Some(dir + name), comspec, seq![]) == Some((name, seq!["--version"@], ProbeMode::FirstLine)),
        next_probe("shell"@, false, Some(dir + name), comspec, seq![Some(Some(line))]) is None,
        toolchain_answer("shell"@, false, Some(dir + name), comspec, seq![Some(Some(line))]) == with_version(lower(name), line),
{
    let s = dir + name;
    assert forall|i: int| s.len() - name.len() <= i < s.len() implies #[trigger] s[i] != '/' by {
        assert(s[i] == name[i - dir.len()]);
    }
    if dir.len() > 0 {
        assert(s[s.len() - name.len() - 1] == dir.last());
    }
    crate::text::lemma_rspan_is(s, |c: char| c != '/', name.len() as int);
    assert(after_last_slash(s) =~= name);
    reveal_strlit("shell");
    reveal_strlit("kotlin");
    assert("shell"@.len() != "kotlin"@.len());
    lemma_first_step("shell"@, false, Some(s), comspec, line);
}

/// The toolchain step reads the language only through its lowercase: for an
/// ASCII language name, the name and its lowercase (`lowercase_of`) lead to
/// the same steps, whatever the environment and the answers so far.
pub proof fn law_toolchain_step_ignores_case(
    lang: Seq<char>,
    is_windows: bool,
    shell: Option<Seq<char>>,
    comspec: Option<Seq<char>>,
    answers: Seq<Option<Option<Seq<char>>>>,
)
    requires
        vstd::utf8::is_ascii_chars(lang),
    ensures
        forall|r: ToolchainStep|
            step_for(r, lower(lang), is_windows, shell, comspec, answers)
                <==> #[trigger] step_for(r, lower(lower(lang)), is_windows, shell, comspec, answers),
{
    crate::text::law_lower_is_stable(lang);
}

/// What is left of `s` once every trailing `p` is cut off is a prefix of `s`.
proof fn lemma_strip_suffixes_prefix(s: Seq<char>, p: Seq<char>)
    ensures
        strip_suffixes(s, p).len() <= s.len(),
        forall|i: int| 0 <= i < strip_suffixes(s, p).len() ==> #[trigger] strip_suffixes(s, p)[i] == s[i],
    decreases s.len(),
{
    if p.len() > 0 && p.is_suffix_of(s) {
        let t = s.take(s.len() - p.len());
        lemma_strip_suffixes_prefix(t, p);
        assert forall|i: int| 0 <= i < strip_suffixes(s, p).len() implies #[trigger] strip_suffixes(s, p)[i] == s[i] by {
            assert(strip_suffixes(s, p)[i] == t[i]);
        }
    }
}

/// A shell toolchain is shown under a name that is not empty: when the shell
/// path (`SHELL`, or `ComSpec` on Windows) is ASCII, an answer is found only
/// when there is a probe to run, and then the shell's name, lowercased, which
/// the answer starts with, holds at least one character.
pub proof fn law_shell_label_not_empty(
    is_windows: bool,
    shell: Option<Seq<char>>,
    comspec: Option<Seq<char>>,
    answers: Seq<Option<Option<Seq<char>>>>,
)
    requires
        shell is Some ==> vstd::utf8::is_ascii_chars(shell->0),
        comspec is Some ==> vstd::utf8::is_ascii_chars(comspec->0),
    ensures
        toolchain_answer("shell"@, is_windows, shell, comspec, answers) is Some
            ==> toolchain_plan("shell"@, is_windows, shell, comspec).len() > 0,
        toolchain_plan("shell"@, is_windows, shell, comspec).len() > 0 ==> forall|line: Seq<char>|
            #[trigger] toolchain_label("shell"@, is_windows, shell, comspec, line).len() > 0,
{
    let key = "shell"@;
    let plan = toolchain_plan(key, is_windows, shell, comspec);
    if plan.len() == 0 {
        assert(within(answers, 0) =~= Seq::<Option<Option<Seq<char>>>>::empty()) by {
            if answers.len() > 0 {
                assert(answers.take(0) =~= Seq::<Option<Option<Seq<char>>>>::empty());
            }
        }
        assert(first_answer(within(answers, plan.len())) is None);
    } else if is_windows {
        let path = windows_shell_path(shell, comspec);
        let raw = windows_shell_raw(shell, comspec);
        let base = windows_shell_base(shell, comspec);
        assert(path is Some && base.len() > 0);
        assert(vstd::utf8::is_ascii_chars(path->0));
        crate::text::lemma_rspan_le(path->0, |c: char| c != '/' && c != '\\');
        assert forall|i: int| 0 <= i < raw.len() implies '\0' <= #[trigger] raw[i] <= '\u{7f}' by {
            assert(raw[i] == (path->0)[(path->0).len() - raw.len() + i]);
        }
        let mid = strip_suffixes(raw, ".exe"@);
        lemma_strip_suffixes_prefix(raw, ".exe"@);
        lemma_strip_suffixes_prefix(mid, ".EXE"@);
        assert forall|i: int| 0 <= i < base.len() implies '\0' <= #[trigger] base[i] <= '\u{7f}' by {
            assert(base[i] == mid[i]);
            assert(mid[i] == raw[i]);
        }
        crate::text::law_lower_is_stable(base);
    } else {
        let s = shell->0;
        let name = after_last_slash(s);
        assert(name.len() > 0);
        crate::text::lemma_rspan_le(s, |c: char| c != '/');
        assert forall|i: int| 0 <= i < name.len() implies '\0' <= #[trigger] name[i] <= '\u{7f}' by {
            assert(name[i] == s[s.len() - name.len() + i]);
        }
        crate::text::law_lower_is_stable(name);
    }
}

} // verus!
