//! The rolling log file: the line format, when the file rolls over, and which
//! archive files move where so that at most `max_files` files are kept.
use std::borrow::Cow;
use vstd::prelude::*;

use crate::log::redact_secrets;
use crate::text::{chars_of, dec, push_str, push_u64, string_from_chars};

verus! {

/// The current log file's name.
pub const LOG_FILE_NAME: &'static str = "launcher.log";

/// The size past which the file rolls over (2 MiB).
pub const DEFAULT_MAX_LOG_SIZE: u64 = 2_097_152;

/// Files kept, the current one included.
pub const DEFAULT_MAX_LOG_FILES: u32 = 3;

/// `n` in decimal, left-padded with zeros to `width` digits.
pub open spec fn padded(n: nat, width: nat) -> Seq<char> {
    let d = dec(n);
    if d.len() < width {
        Seq::new((width - d.len()) as nat, |i: int| '0') + d
    } else {
        d
    }
}

fn push_padded(v: &mut Vec<char>, n: u16, width: usize)
    requires
        width <= 8,
    ensures
        final(v)@ == old(v)@ + padded(n as nat, width as nat),
{
    let ghost start = v@;
    let mut d: Vec<char> = Vec::new();
    push_u64(&mut d, n as u64);
    assert(d@ == dec(n as nat));
    if d.len() < width {
        let pad = width - d.len();
        let mut k: usize = 0;
        while k < pad
            invariant
                k <= pad,
                pad == width - d@.len(),
                v@ == start + Seq::new(k as nat, |i: int| '0'),
            decreases pad - k,
        {
            v.push('0');
            assert(Seq::new((k + 1) as nat, |i: int| '0') =~= Seq::new(k as nat, |i: int| '0').push('0'));
            k = k + 1;
        }
    }
    let ghost mid = v@;
    let mut i: usize = 0;
    while i < d.len()
        invariant
            i <= d.len(),
            v@ == mid + d@.subrange(0, i as int),
        decreases d.len() - i,
    {
        v.push(d[i]);
        assert(d@.subrange(0, i + 1) =~= d@.subrange(0, i as int).push(d@[i as int]));
        i = i + 1;
    }
    assert(d@.subrange(0, d@.len() as int) =~= d@);
    assert(v@ =~= start + padded(n as nat, width as nat));
}

/// `YYYY-MM-DD HH:MM:SS`.
pub open spec fn timestamp_spec(y: u16, mo: u16, d: u16, h: u16, mi: u16, s: u16) -> Seq<char> {
    padded(y as nat, 4) + "-"@ + padded(mo as nat, 2) + "-"@ + padded(d as nat, 2) + " "@ + padded(
        h as nat,
        2,
    ) + ":"@ + padded(mi as nat, 2) + ":"@ + padded(s as nat, 2)
}

/// The local time of a log line, from the fields of the system time.
pub fn timestamp_text(y: u16, mo: u16, d: u16, h: u16, mi: u16, s: u16) -> (r: String)
    ensures
        r@ == timestamp_spec(y, mo, d, h, mi, s),
{
    let mut v: Vec<char> = Vec::new();
    push_padded(&mut v, y, 4);
    push_str(&mut v, "-");
    push_padded(&mut v, mo, 2);
    push_str(&mut v, "-");
    push_padded(&mut v, d, 2);
    push_str(&mut v, " ");
    push_padded(&mut v, h, 2);
    push_str(&mut v, ":");
    push_padded(&mut v, mi, 2);
    push_str(&mut v, ":");
    push_padded(&mut v, s, 2);
    string_from_chars(v.as_slice())
}

/// `[time] [LEVEL] message` with credentials masked, ending in a newline.
pub fn log_line(timestamp: &str, level: &str, message: &str) -> (r: String)
    ensures
        r@ == "["@ + timestamp@ + "] ["@ + level@ + "] "@ + crate::log::redact_spec(message@) + "\n"@,
{
    let red = redact_secrets(message);
    let mut v: Vec<char> = Vec::new();
    push_str(&mut v, "[");
    push_str(&mut v, timestamp);
    push_str(&mut v, "] [");
    push_str(&mut v, level);
    push_str(&mut v, "] ");
    match &red {
        Cow::Borrowed(b) => push_str(&mut v, b),
        Cow::Owned(o) => push_str(&mut v, o.as_str()),
    }
    push_str(&mut v, "\n");
    string_from_chars(v.as_slice())
}

/// The file rolls over before a write that would take it past the limit: a
/// non-empty file of `current_len` bytes is archived when the pending line of
/// `line_len` bytes does not fit. So an archive never exceeds the limit unless
/// a single line does; an empty file always takes the line.
pub open spec fn rotates(current_len: int, line_len: int, max_size: int) -> bool {
    current_len > 0 && current_len + line_len > max_size
}

/// Whether the live file rolls over before the pending line is written.
pub fn should_rotate(current_len: u64, line_len: u64, max_size: u64) -> (r: bool)
    ensures
        r == rotates(current_len as int, line_len as int, max_size as int),
{
    if current_len == 0 {
        false
    } else if current_len > max_size {
        true
    } else {
        line_len > max_size - current_len
    }
}

/// Lines of the given lengths written one after another to a live file of
/// `start` bytes, rolling over as [`should_rotate`] decides: the lengths of the
/// files archived, in order, and the live file's final length.
pub open spec fn append_all(start: int, lines: Seq<int>, max_size: int) -> (Seq<int>, int)
    decreases lines.len(),
{
    if lines.len() == 0 {
        (Seq::empty(), start)
    } else {
        let (archived, cur) = append_all(start, lines.drop_last(), max_size);
        let l = lines.last();
        if rotates(cur, l, max_size) {
            (archived.push(cur), l)
        } else {
            (archived, cur + l)
        }
    }
}

/// Each archive stays within the limit: when the live file starts within the
/// limit and no single line exceeds it, every file archived along a run of
/// writes, and the live file at the end, are at most `max_size` bytes.
pub proof fn lemma_archives_stay_within_limit(start: int, lines: Seq<int>, max_size: int)
    requires
        0 <= start <= max_size,
        forall|k: int| 0 <= k < lines.len() ==> 0 <= #[trigger] lines[k] <= max_size,
    ensures
        forall|k: int| 0 <= k < append_all(start, lines, max_size).0.len() ==> #[trigger] append_all(start, lines, max_size).0[k] <= max_size,
        0 <= append_all(start, lines, max_size).1 <= max_size,
    decreases lines.len(),
{
    if lines.len() > 0 {
        let pre = lines.drop_last();
        assert forall|k: int| 0 <= k < pre.len() implies 0 <= #[trigger] pre[k] <= max_size by {
            assert(pre[k] == lines[k]);
        }
        lemma_archives_stay_within_limit(start, pre, max_size);
        assert(0 <= lines[lines.len() - 1] <= max_size);
    }
}

/// The name of archive `i` (`launcher.log.<i>`).
pub fn archive_name(i: u32) -> (r: String)
    ensures
        r@ == LOG_FILE_NAME@ + "."@ + dec(i as nat),
{
    let mut v = chars_of(LOG_FILE_NAME);
    push_str(&mut v, ".");
    push_u64(&mut v, i as u64);
    string_from_chars(v.as_slice())
}

/// The index of the last archive kept by a log of `max_files` files.
pub open spec fn last_archive(max_files: u32) -> int {
    if max_files == 0 {
        0
    } else {
        max_files - 1
    }
}

/// The renames of a roll-over, oldest archive first: `(last-1, last)`, ...,
/// `(1, 2)`.
pub open spec fn plan_shifts(max_files: u32) -> Seq<(u32, u32)> {
    let last = last_archive(max_files);
    Seq::new(
        if last > 1 {
            (last - 1) as nat
        } else {
            0
        },
        |k: int| ((last - 1 - k) as u32, (last - k) as u32),
    )
}

/// One rename of a roll-over, done where the source exists (replacing the
/// target). A log directory is modelled as the lengths of its files: key 0 is
/// the live file `launcher.log`, key `k > 0` the archive `launcher.log.<k>`.
pub open spec fn shift_one(files: Map<int, int>, s: (u32, u32)) -> Map<int, int> {
    if files.dom().contains(s.0 as int) {
        files.remove(s.0 as int).insert(s.1 as int, files[s.0 as int])
    } else {
        files
    }
}

/// The renames done in order.
pub open spec fn shift_all(files: Map<int, int>, shifts: Seq<(u32, u32)>) -> Map<int, int>
    decreases shifts.len(),
{
    if shifts.len() == 0 {
        files
    } else {
        shift_all(shift_one(files, shifts[0]), shifts.drop_first())
    }
}

/// A roll-over as [`rotation_plan`] lays it out, with each file operation
/// succeeding: the renames, then the live file deleted (no archive kept) or
/// renamed to archive 1, and the archive past the last one deleted.
pub open spec fn rotated(files: Map<int, int>, max_files: u32) -> Map<int, int> {
    let last = last_archive(max_files);
    let m = shift_all(files, plan_shifts(max_files));
    if last == 0 {
        m.remove(0)
    } else if m.dom().contains(0) {
        m.remove(0).insert(1, m[0]).remove(last + 1)
    } else {
        m.remove(last + 1)
    }
}

/// The live file's length (0 when it does not exist).
pub open spec fn live_len(files: Map<int, int>) -> int {
    if files.dom().contains(0) {
        files[0]
    } else {
        0
    }
}

/// One write of a line of `line_len` bytes: the live file is opened (created
/// when absent), rolled over when [`should_rotate`] says so, and the line is
/// appended to the (new) live file.
pub open spec fn append_line(files: Map<int, int>, line_len: int, max_size: int, max_files: u32) -> Map<int, int> {
    let opened = files.insert(0, live_len(files));
    let m = if rotates(live_len(files), line_len, max_size) {
        rotated(opened, max_files)
    } else {
        opened
    };
    m.insert(0, live_len(m) + line_len)
}

/// Lines of the given lengths written one after another.
pub open spec fn append_run(files: Map<int, int>, lines: Seq<int>, max_size: int, max_files: u32) -> Map<int, int>
    decreases lines.len(),
{
    if lines.len() == 0 {
        files
    } else {
        append_line(append_run(files, lines.drop_last(), max_size, max_files), lines.last(), max_size, max_files)
    }
}

/// The log directory holds at most `max_files` files, each within the limit.
pub open spec fn log_dir_within_limits(files: Map<int, int>, max_size: int, max_files: u32) -> bool {
    forall|k: int| #[trigger] files.dom().contains(k) ==> 0 <= k < max_files && 0 <= files[k] <= max_size
}

proof fn lemma_shifts_keep_limits(files: Map<int, int>, shifts: Seq<(u32, u32)>, max_size: int, max_files: u32)
    requires
        log_dir_within_limits(files, max_size, max_files),
        forall|k: int| 0 <= k < shifts.len() ==> 1 <= (#[trigger] shifts[k]).0 && 1 <= shifts[k].1 < max_files,
    ensures
        log_dir_within_limits(shift_all(files, shifts), max_size, max_files),
        shift_all(files, shifts).dom().contains(0) == files.dom().contains(0),
        files.dom().contains(0) ==> shift_all(files, shifts)[0] == files[0],
    decreases shifts.len(),
{
    if shifts.len() > 0 {
        let m1 = shift_one(files, shifts[0]);
        assert(log_dir_within_limits(m1, max_size, max_files));
        let rest = shifts.drop_first();
        assert forall|k: int| 0 <= k < rest.len() implies 1 <= (#[trigger] rest[k]).0 && 1 <= rest[k].1 < max_files by {
            assert(rest[k] == shifts[k + 1]);
        }
        lemma_shifts_keep_limits(m1, rest, max_size, max_files);
    }
}

proof fn lemma_append_line_keeps_limits(files: Map<int, int>, line_len: int, max_size: int, max_files: u32)
    requires
        max_files >= 1,
        0 <= line_len <= max_size,
        log_dir_within_limits(files, max_size, max_files),
    ensures
        log_dir_within_limits(append_line(files, line_len, max_size, max_files), max_size, max_files),
{
    let opened = files.insert(0, live_len(files));
    assert(log_dir_within_limits(opened, max_size, max_files));
    if rotates(live_len(files), line_len, max_size) {
        let shifts = plan_shifts(max_files);
        assert forall|k: int| 0 <= k < shifts.len() implies 1 <= (#[trigger] shifts[k]).0 && 1 <= shifts[k].1 < max_files by {
        }
        lemma_shifts_keep_limits(opened, shifts, max_size, max_files);
        let r = rotated(opened, max_files);
        assert(log_dir_within_limits(r, max_size, max_files));
        assert(live_len(r) == 0);
    }
}

/// The rolling log's law over any run of writes: when the directory starts
/// with at most `max_files` files within the size limit (an empty directory
/// does), and no single line exceeds the limit, then after every write it
/// still holds at most `max_files` files (`launcher.log` and archives
/// `1..max_files-1`), and every archive and the live file are within the
/// limit. The line written each time is [`log_line`]'s text.
pub proof fn lemma_log_run_keeps_limits(files: Map<int, int>, lines: Seq<int>, max_size: int, max_files: u32)
    requires
        max_files >= 1,
        log_dir_within_limits(files, max_size, max_files),
        forall|k: int| 0 <= k < lines.len() ==> 0 <= #[trigger] lines[k] <= max_size,
    ensures
        log_dir_within_limits(append_run(files, lines, max_size, max_files), max_size, max_files),
    decreases lines.len(),
{
    if lines.len() > 0 {
        let pre = lines.drop_last();
        assert forall|k: int| 0 <= k < pre.len() implies 0 <= #[trigger] pre[k] <= max_size by {
            assert(pre[k] == lines[k]);
        }
        lemma_log_run_keeps_limits(files, pre, max_size, max_files);
        assert(0 <= lines[lines.len() - 1] <= max_size);
        lemma_append_line_keeps_limits(append_run(files, pre, max_size, max_files), lines.last(), max_size, max_files);
    }
}

/// What one roll-over does with the files.
#[derive(Debug, Clone, PartialEq, Eq)]
pub struct RotationPlan {
    /// Archive renames `(from, to)`, oldest first, each where `from` exists.
    pub shifts: Vec<(u32, u32)>,
    /// No archive is kept: the current file is deleted.
    pub discard_current: bool,
    /// The current file becomes archive 1 (unless discarded).
    pub current_to_first: bool,
    /// The archive past the last kept one, deleted where it exists.
    pub overflow: Option<u32>,
}

/// The roll-over of a log keeping `max_files` files (the current one
/// included): archives `1..last-1` move up by one from the oldest, the current
/// file becomes archive 1 and archive `last + 1` goes, where `last` is
/// `max_files - 1`; with no archive kept the current file is simply deleted.
pub fn rotation_plan(max_files: u32) -> (r: RotationPlan)
    ensures
        ({
            let last: int = if max_files == 0 {
                0
            } else {
                max_files - 1
            };
            &&& r.discard_current == (last == 0)
            &&& r.current_to_first == (last > 0)
            &&& r.overflow == if last > 0 {
                Some((last + 1) as u32)
            } else {
                None::<u32>
            }
            &&& r.shifts@.len() == if last > 1 {
                last - 1
            } else {
                0
            }
            &&& forall|k: int|
                0 <= k < r.shifts@.len() ==> #[trigger] r.shifts@[k] == ((last - 1 - k) as u32, (last - k) as u32)
        }),
        r.shifts@ == plan_shifts(max_files),
{
    let last: u32 = if max_files == 0 {
        0
    } else {
        max_files - 1
    };
    let mut shifts: Vec<(u32, u32)> = Vec::new();
    if last > 1 {
        let mut i: u32 = last - 1;
        while i >= 1
            invariant
                last > 1,
                0 <= i <= last - 1,
                shifts@.len() == last - 1 - i,
                forall|k: int|
                    0 <= k < shifts@.len() ==> #[trigger] shifts@[k] == ((last - 1 - k) as u32, (last - k) as u32),
            decreases i,
        {
            shifts.push((i, i + 1));
            i = i - 1;
        }
    }
    assert(shifts@ =~= plan_shifts(max_files));
    if last == 0 {
        return RotationPlan { shifts, discard_current: true, current_to_first: false, overflow: None };
    }
    RotationPlan { shifts, discard_current: false, current_to_first: true, overflow: Some(last + 1) }
}

/// A roll-over never leaves more than `max_files` files: every archive it
/// writes has a number from 1 to `max_files - 1`, and the one past that is
/// deleted.
pub proof fn lemma_rotation_keeps_max_files(max_files: u32, shifts: Seq<(u32, u32)>, overflow: Option<u32>)
    requires
        max_files >= 1,
        ({
            let last: int = max_files - 1;
            &&& shifts.len() == if last > 1 {
                last - 1
            } else {
                0
            }
            &&& forall|k: int| 0 <= k < shifts.len() ==> #[trigger] shifts[k] == ((last - 1 - k) as u32, (last - k) as u32)
            &&& overflow == if last > 0 {
                Some((last + 1) as u32)
            } else {
                None::<u32>
            }
        }),
    ensures
        forall|k: int| 0 <= k < shifts.len() ==> 1 <= (#[trigger] shifts[k]).1 <= max_files - 1 && shifts[k].0
            == shifts[k].1 - 1,
        overflow is Some ==> overflow->0 == max_files,
{
}

} // verus!
