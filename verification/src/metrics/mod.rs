//! Metric formatting and the small decisions around collecting metrics.

use vstd::prelude::*;

use crate::text::{decimal, digit_char, push_char, push_decimal, digit_to_char, chars_of, find, find_from, to_lowercase, lowercase};


pub mod calendar;
pub mod mail;
pub mod weather;

verus! {

/// `n / d` rounded to the nearest integer, ties to the even one.
pub open spec fn round_half_even(n: nat, d: nat) -> nat {
    let q = n / d;
    let r = n % d;
    if 2 * r > d || (2 * r == d && q % 2 == 1) {
        q + 1
    } else {
        q
    }
}

/// 2^53: below it every integer is an `f64`.
pub open spec fn exact_f64_limit() -> nat {
    9007199254740992
}

/// The gap between neighbouring `f64` values around `b`, searched from `u` upwards.
pub open spec fn spacing_from(b: nat, u: nat) -> nat
    decreases 4096 - u,
{
    if u == 0 || u >= 2048 || b < exact_f64_limit() * u {
        u
    } else {
        spacing_from(b, 2 * u)
    }
}

/// The value of `b as f64` for `b` below 2^64 (round to nearest, ties to even).
pub open spec fn as_f64(b: nat) -> nat {
    let s = spacing_from(b, 1);
    round_half_even(b, s) * s
}

/// Tenths of `b / unit` as `{:.1}` prints the `f64` quotient.
pub open spec fn tenths(b: nat, unit: nat) -> nat {
    round_half_even(as_f64(b) * 10, unit)
}

/// `"{:.1} <suffix>"` of `b / unit`.
pub open spec fn scaled_text(b: nat, unit: nat, suffix: Seq<char>) -> Seq<char> {
    let t = tenths(b, unit);
    decimal(t / 10) + seq!['.', digit_char(t % 10), ' '] + suffix
}

pub open spec fn kib() -> nat { 1024 }
pub open spec fn mib() -> nat { 1048576 }
pub open spec fn gib() -> nat { 1073741824 }
pub open spec fn tib() -> nat { 1099511627776 }

/// A byte count in the largest binary unit it reaches, one decimal place;
/// below one KiB, the plain count.
pub open spec fn bytes_text(b: nat) -> Seq<char> {
    if b >= tib() {
        scaled_text(b, tib(), "TiB"@)
    } else if b >= gib() {
        scaled_text(b, gib(), "GiB"@)
    } else if b >= mib() {
        scaled_text(b, mib(), "MiB"@)
    } else if b >= kib() {
        scaled_text(b, kib(), "KiB"@)
    } else {
        decimal(b) + " B"@
    }
}

proof fn lemma_round_half_even_bound(n: nat, d: nat)
    requires
        d > 0,
    ensures
        round_half_even(n, d) * d <= n + d,
        round_half_even(n, d) <= n + 1,
{
    let q = n / d;
    let r = n % d;
    vstd::arithmetic::div_mod::lemma_fundamental_div_mod(n as int, d as int);
    vstd::arithmetic::div_mod::lemma_mod_bound(n as int, d as int);
    vstd::arithmetic::div_mod::lemma_div_nonincreasing(n as int, d as int);
    assert((q + 1) * d == q * d + d) by (nonlinear_arith);
    assert(q * d == d * q) by (nonlinear_arith);
}

fn round_half_even_exec(n: u128, d: u128) -> (r: u128)
    requires
        d > 0,
        n < 0x1_0000_0000_0000_0000_0000_0000,
        d < 0x1_0000_0000_0000_0000_0000_0000,
    ensures
        r == round_half_even(n as nat, d as nat),
{
    proof {
        vstd::arithmetic::div_mod::lemma_div_nonincreasing(n as int, d as int);
        vstd::arithmetic::div_mod::lemma_mod_bound(n as int, d as int);
    }
    let q = n / d;
    let r = n % d;
    if 2 * r > d || (2 * r == d && q % 2 == 1) {
        q + 1
    } else {
        q
    }
}

/// Appends `"{:.1} <suffix>"` of `b / unit` to `out`.
fn push_scaled(out: &mut String, b: u64, unit: u128, suffix: &str)
    requires
        unit >= 1024,
        unit <= 1099511627776,
        old(out)@.len() == 0,
    ensures
        final(out)@ == scaled_text(b as nat, unit as nat, suffix@),
{
    let wide = b as u128;
    let mut s: u128 = 1;
    while !(s >= 2048 || wide < 9007199254740992 * s)
        invariant
            1 <= s <= 2048,
            s == 1 || s == 2 || s == 4 || s == 8 || s == 16 || s == 32 || s == 64 || s == 128
                || s == 256 || s == 512 || s == 1024 || s == 2048,
            wide == b,
            spacing_from(b as nat, s as nat) == spacing_from(b as nat, 1),
        decreases 4096 - s,
    {
        s = 2 * s;
    }
    proof {
        lemma_round_half_even_bound(b as nat, s as nat);
    }
    let m = round_half_even_exec(wide, s) * s;
    assert(m == as_f64(b as nat));
    let t = round_half_even_exec(m * 10, unit);
    assert(t == tenths(b as nat, unit as nat));
    push_decimal(out, t / 10);
    push_char(out, '.');
    push_char(out, digit_to_char_wide(t % 10));
    push_char(out, ' ');
    let ghost before = out@;
    out.append(suffix);
    assert(final(out)@ =~= scaled_text(b as nat, unit as nat, suffix@));
}

fn digit_to_char_wide(d: u128) -> (c: char)
    requires
        d < 10,
    ensures
        c == digit_char(d as nat),
{
    digit_to_char(d as u64)
}

/// A byte count for display: `"1.5 GiB"`, `"512 B"`.
pub fn format_bytes(bytes: u64) -> (r: String)
    ensures
        r@ == bytes_text(bytes as nat),
{
    let mut out = String::new();
    if bytes >= 1099511627776 {
        push_scaled(&mut out, bytes, 1099511627776, "TiB");
    } else if bytes >= 1073741824 {
        push_scaled(&mut out, bytes, 1073741824, "GiB");
    } else if bytes >= 1048576 {
        push_scaled(&mut out, bytes, 1048576, "MiB");
    } else if bytes >= 1024 {
        push_scaled(&mut out, bytes, 1024, "KiB");
    } else {
        push_decimal(&mut out, bytes as u128);
        out.append(" B");
        assert(out@ =~= bytes_text(bytes as nat));
    }
    out
}


/// How often the remote loop asks for the weather: every this many passes.
pub open spec fn weather_period() -> nat {
    15
}

/// One pass of the remote metrics loop: whether this pass refreshes the
/// weather (every fifteenth, starting with the first), and the next pass count.
pub fn remote_tick(ticks: u64) -> (r: (bool, u64))
    ensures
        r.0 == ((ticks as nat) % weather_period() == 0),
        r.1 == (if ticks == u64::MAX { u64::MAX } else { (ticks + 1) as u64 }),
{
    (ticks % 15 == 0, ticks.saturating_add(1))
}

/// One frame of the overlay's 33 ms timer: the next frame count (wrapping)
/// and whether this frame re-reads the local metrics (every thirtieth frame).
pub fn frame_tick(ticks: u32) -> (r: (u32, bool))
    ensures
        r.0 == (if ticks == u32::MAX { 0 } else { (ticks + 1) as u32 }),
        r.1 == (r.0 % 30 == 0),
{
    let next = ticks.wrapping_add(1);
    (next, next % 30 == 0)
}

/// One mounted file system as the system reports it.
pub struct DiskInfo {
    pub file_system: String,
    pub total: u64,
    pub available: u64,
}

/// Used, free and total space of the real file systems, in bytes.
#[derive(Clone, Copy, Debug, PartialEq, Eq, Structural)]
pub struct DiskUsage {
    pub used: u64,
    pub free: u64,
    pub total: u64,
}

/// `key` occurs somewhere in `s`.
pub open spec fn contains_text(s: Seq<char>, key: Seq<char>) -> bool {
    find_from(s, key, 0) is Some
}

/// RAM disks, device file systems and squashfs images are not counted as disks.
pub open spec fn is_virtual_fs(file_system: Seq<char>) -> bool {
    let lower = lowercase(file_system);
    contains_text(lower, "tmpfs"@) || contains_text(lower, "devfs"@) || contains_text(lower, "squash"@)
}

/// `a + b`, capped at `u64::MAX`.
pub open spec fn sat_add(a: int, b: int) -> int {
    if a + b > u64::MAX { u64::MAX as int } else { a + b }
}

/// Capped sums of total and available space over the real file systems.
pub open spec fn disk_sums(disks: Seq<DiskInfo>) -> (int, int)
    decreases disks.len(),
{
    if disks.len() == 0 {
        (0, 0)
    } else {
        let prev = disk_sums(disks.drop_last());
        let d = disks.last();
        if is_virtual_fs(d.file_system@) {
            prev
        } else {
            (sat_add(prev.0, d.total as int), sat_add(prev.1, d.available as int))
        }
    }
}

/// The disk panel's numbers: total is at least one byte, used is total minus free (not below 0).
pub open spec fn disk_usage_of(disks: Seq<DiskInfo>) -> DiskUsage {
    let (t, f) = disk_sums(disks);
    let total = if t < 1 { 1 } else { t };
    let used = if total - f < 0 { 0 } else { total - f };
    DiskUsage { used: used as u64, free: f as u64, total: total as u64 }
}

proof fn lemma_disk_sums_bounded(disks: Seq<DiskInfo>)
    ensures
        0 <= disk_sums(disks).0 <= u64::MAX,
        0 <= disk_sums(disks).1 <= u64::MAX,
    decreases disks.len(),
{
    if disks.len() > 0 {
        lemma_disk_sums_bounded(disks.drop_last());
    }
}

/// The disk panel's numbers are consistent: there is always some total,
/// used never exceeds it, and used plus free make up the total whenever the
/// free space fits in it.
pub proof fn lemma_disk_usage_consistent(disks: Seq<DiskInfo>)
    ensures
        disk_usage_of(disks).total >= 1,
        disk_usage_of(disks).used <= disk_usage_of(disks).total,
        disk_usage_of(disks).free <= disk_usage_of(disks).total ==> disk_usage_of(disks).used
            + disk_usage_of(disks).free == disk_usage_of(disks).total,
{
    lemma_disk_sums_bounded(disks);
}

/// Adding one more file system to the list: when its lower-cased name holds
/// none of `tmpfs`, `devfs` and `squash` its total and available space enter
/// the sums (capped at `u64::MAX`); when it holds one of them the sums stay.
/// So a single real disk reads as itself: its total, its free space, and the
/// difference as used.
pub proof fn lemma_disk_counts_real_file_systems(disks: Seq<DiskInfo>, d: DiskInfo)
    ensures
        ({
            let lower = lowercase(d.file_system@);
            let before = disk_sums(disks);
            let after = disk_sums(disks.push(d));
            &&& (!contains_text(lower, "tmpfs"@) && !contains_text(lower, "devfs"@) && !contains_text(lower, "squash"@))
                ==> after == (
                    if before.0 + d.total > u64::MAX { u64::MAX as int } else { before.0 + d.total },
                    if before.1 + d.available > u64::MAX { u64::MAX as int } else { before.1 + d.available },
                )
            &&& (contains_text(lower, "tmpfs"@) || contains_text(lower, "devfs"@) || contains_text(lower, "squash"@))
                ==> after == before
        }),
        ({
            let lower = lowercase(d.file_system@);
            (!contains_text(lower, "tmpfs"@) && !contains_text(lower, "devfs"@) && !contains_text(lower, "squash"@)
                && 1 <= d.total && d.available <= d.total) ==> disk_usage_of(seq![d]) == (DiskUsage {
                used: (d.total - d.available) as u64,
                free: d.available,
                total: d.total,
            })
        }),
{
    assert(disks.push(d).drop_last() =~= disks);
    assert(seq![d].drop_last() =~= Seq::<DiskInfo>::empty());
    assert(seq![d].last() == d);
    assert(disk_sums(Seq::<DiskInfo>::empty()) == (0int, 0int));
    assert(disk_sums(seq![d]) == disk_sums(Seq::<DiskInfo>::empty().push(d))) by {
        assert(seq![d] =~= Seq::<DiskInfo>::empty().push(d));
    }
}

/// Whether a file system (by its reported name) is one the disk panel skips.
pub fn skip_file_system(file_system: &str) -> (r: bool)
    ensures
        r == is_virtual_fs(file_system@),
{
    let lower = to_lowercase(file_system);
    let v = chars_of(lower.as_str());
    find(&v, &chars_of("tmpfs")).is_some() || find(&v, &chars_of("devfs")).is_some()
        || find(&v, &chars_of("squash")).is_some()
}

/// Adds up the real file systems for the disk panel.
pub fn disk_usage(disks: &Vec<DiskInfo>) -> (r: DiskUsage)
    ensures
        r == disk_usage_of(disks@),
{
    let mut total: u64 = 0;
    let mut free: u64 = 0;
    let mut i: usize = 0;
    while i < disks.len()
        invariant
            i <= disks@.len(),
            (total as int, free as int) == disk_sums(disks@.take(i as int)),
        decreases disks.len() - i,
    {
        assert(disks@.take(i + 1).drop_last() =~= disks@.take(i as int));
        let d = &disks[i];
        if !skip_file_system(d.file_system.as_str()) {
            total = total.saturating_add(d.total);
            free = free.saturating_add(d.available);
        }
        i = i + 1;
    }
    assert(disks@.take(disks@.len() as int) =~= disks@);
    let total = if total < 1 { 1 } else { total };
    DiskUsage { used: total.saturating_sub(free), free, total }
}

/// Capped sums of received and transmitted bytes over all interfaces.
pub open spec fn traffic_sums(rows: Seq<(u64, u64)>) -> (int, int)
    decreases rows.len(),
{
    if rows.len() == 0 {
        (0, 0)
    } else {
        let prev = traffic_sums(rows.drop_last());
        (sat_add(prev.0, rows.last().0 as int), sat_add(prev.1, rows.last().1 as int))
    }
}

/// Bytes down and up since the last refresh, over every network interface.
pub fn traffic_totals(rows: &Vec<(u64, u64)>) -> (r: (u64, u64))
    ensures
        (r.0 as int, r.1 as int) == traffic_sums(rows@),
{
    let mut down: u64 = 0;
    let mut up: u64 = 0;
    let mut i: usize = 0;
    while i < rows.len()
        invariant
            i <= rows@.len(),
            (down as int, up as int) == traffic_sums(rows@.take(i as int)),
        decreases rows.len() - i,
    {
        assert(rows@.take(i + 1).drop_last() =~= rows@.take(i as int));
        let (rx, tx) = rows[i];
        down = down.saturating_add(rx);
        up = up.saturating_add(tx);
        i = i + 1;
    }
    assert(rows@.take(rows@.len() as int) =~= rows@);
    (down, up)
}

/// A file name whose extension (as `Path::extension` reads it) is `ics`.
pub open spec fn is_ics_name(name: Seq<char>) -> bool {
    name.len() > 4 && name.skip(name.len() - 4) == ".ics"@
}

/// Whether a directory entry is a calendar file.
pub fn is_ics_file_name(name: &str) -> (r: bool)
    ensures
        r == is_ics_name(name@),
{
    let v = chars_of(name);
    let n = v.len();
    if n <= 4 {
        return false;
    }
    let tail = name.substring_char(n - 4, n);
    assert(tail@ =~= name@.skip(n - 4));
    crate::text::str_equals(tail, ".ics")
}

/// The calendar search stops once more than this many files are found.
pub open spec fn ics_file_limit() -> nat {
    80
}

/// The calendar search has found enough files.
pub fn enough_ics_files(found: usize) -> (r: bool)
    ensures
        r == (found > ics_file_limit()),
{
    found > 80
}

} // verus!
