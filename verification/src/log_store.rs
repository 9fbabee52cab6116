//! The bounded, persisted log store: a fixed-capacity circular buffer of log
//! entries, together with the rotation policy of the on-disk log file.
//!
//! The buffer holds the most recent `capacity` entries; once full, each new
//! entry overwrites the oldest one. `get_logs` returns the surviving entries
//! in the order they were recorded, wherever the write cursor stands.

use vstd::prelude::*;
use crate::paths::join_spec;
use crate::paths::join_str;
use crate::paths::parent_or_dot;
use crate::paths::parent_or_dot_str;
use crate::text::chars_eq_str;
use crate::text::chars_to_string;
use crate::text::dec_str;
use crate::text::lower_seq;
use crate::text::push_chars;
use crate::text::push_str_chars;
use crate::text::str_to_chars;
use crate::text::to_lower_chars;
use crate::text::u64_to_chars;
use vstd::string::StringSliceAdditionalSpecFns;

verus! {

/// One recorded log event. Immutable once created; copied into the buffer
/// and onto disk.
pub struct LogEntry {
    pub timestamp: String,
    pub level: String,
    pub message: String,
}

/// The mathematical content of a `LogEntry`.
pub ghost struct LogEntryModel {
    pub timestamp: Seq<char>,
    pub level: Seq<char>,
    pub message: Seq<char>,
}

impl View for LogEntry {
    type V = LogEntryModel;

    open spec fn view(&self) -> LogEntryModel {
        LogEntryModel { timestamp: self.timestamp@, level: self.level@, message: self.message@ }
    }
}

impl Clone for LogEntry {
    fn clone(&self) -> (r: Self)
        ensures
            r@ == self@,
    {
        LogEntry {
            timestamp: self.timestamp.clone(),
            level: self.level.clone(),
            message: self.message.clone(),
        }
    }
}

/// Position of the `j`-th oldest held entry in the ring, for a full ring
/// whose cursor stands at `h`.
pub open spec fn ring_pos(h: int, j: int, cap: int) -> int {
    if h + j < cap {
        h + j
    } else {
        h + j - cap
    }
}

/// The fixed-capacity circular buffer of log entries, mirrored to a
/// size-rotated file at `log_file_path`.
pub struct CircularLogBuffer {
    buffer: Vec<Option<LogEntry>>,
    head: usize,
    capacity: usize,
    pub log_file_path: String,
    max_log_size: usize,
    max_log_files: usize,
    history: Ghost<Seq<LogEntryModel>>,
}

impl CircularLogBuffer {
    /// Every entry ever recorded, oldest first. The buffer itself holds the
    /// last `capacity` of them.
    pub closed spec fn history(&self) -> Seq<LogEntryModel> {
        self.history@
    }

    /// The path of the active log file.
    pub closed spec fn spec_log_file_path(&self) -> Seq<char> {
        self.log_file_path@
    }

    /// How many entries the buffer can hold.
    pub closed spec fn spec_capacity(&self) -> int {
        self.capacity as int
    }

    /// The size, in bytes, past which the active log file is rotated.
    pub closed spec fn spec_max_log_size(&self) -> int {
        self.max_log_size as int
    }

    /// How many rotated log files are kept.
    pub closed spec fn spec_max_log_files(&self) -> int {
        self.max_log_files as int
    }

    /// What `get_logs` returns: the last `capacity` recorded entries (or all
    /// of them while fewer exist), oldest first.
    pub open spec fn logs_model(&self) -> Seq<LogEntryModel> {
        if self.history().len() >= self.spec_capacity() {
            self.history().skip(self.history().len() - self.spec_capacity())
        } else {
            self.history()
        }
    }

    /// Slot `k` of a partially filled ring holds the `k`-th recorded entry,
    /// and the slots past the cursor are still empty.
    closed spec fn slot_partial_ok(&self, k: int) -> bool {
        if k < self.history@.len() {
            self.buffer@[k] matches Some(e) && e@ == self.history@[k]
        } else {
            self.buffer@[k] is None
        }
    }

    /// Slot `ring_pos(head, j)` of a full ring holds the `j`-th oldest
    /// surviving entry.
    closed spec fn slot_full_ok(&self, j: int) -> bool {
        self.buffer@[ring_pos(self.head as int, j, self.capacity as int)] matches Some(e)
            && e@ == self.history@[self.history@.len() - self.capacity + j]
    }

    /// The ring is well formed: the cursor is in range and every slot holds
    /// what the history says it holds.
    pub closed spec fn wf(&self) -> bool {
        &&& self.capacity > 0
        &&& self.buffer@.len() == self.capacity
        &&& self.head < self.capacity
        &&& self.history@.len() < self.capacity ==> {
            &&& self.head == self.history@.len()
            &&& forall|k: int| 0 <= k < self.capacity ==> #[trigger] self.slot_partial_ok(k)
        }
        &&& self.history@.len() >= self.capacity ==> forall|j: int|
            0 <= j < self.capacity ==> #[trigger] self.slot_full_ok(j)
    }

    /// A fresh, empty buffer for `capacity` entries, logging to
    /// `mightypie.log` under `log_dir`.
    pub fn new(capacity: usize, log_dir: &str, max_log_size: usize, max_log_files: usize) -> (r:
        Self)
        requires
            capacity > 0,
        ensures
            r.wf(),
            r.history() == Seq::<LogEntryModel>::empty(),
            r.spec_capacity() == capacity,
            r.spec_max_log_size() == max_log_size,
            r.spec_max_log_files() == max_log_files,
            r.spec_log_file_path() == join_spec(log_dir@, "mightypie.log"@),
    {
        let mut buffer: Vec<Option<LogEntry>> = Vec::new();
        let mut i: usize = 0;
        while i < capacity
            invariant
                i <= capacity,
                buffer@.len() == i,
                forall|k: int| 0 <= k < i ==> buffer@[k] is None,
            decreases capacity - i,
        {
            buffer.push(None);
            i = i + 1;
        }
        let log_file_path = join_str(log_dir, "mightypie.log");
        CircularLogBuffer {
            buffer,
            head: 0,
            capacity,
            log_file_path,
            max_log_size,
            max_log_files,
            history: Ghost(Seq::empty()),
        }
    }

    /// Record `entry`: it is written at the cursor, overwriting the oldest
    /// entry when the ring is full, and the cursor advances by one.
    pub fn add(&mut self, entry: LogEntry)
        requires
            old(self).wf(),
        ensures
            final(self).wf(),
            final(self).history() == old(self).history().push(entry@),
            final(self).spec_capacity() == old(self).spec_capacity(),
            final(self).spec_max_log_size() == old(self).spec_max_log_size(),
            final(self).spec_max_log_files() == old(self).spec_max_log_files(),
            final(self).spec_log_file_path() == old(self).spec_log_file_path(),
    {
        let ghost e = entry@;
        let h = self.head;
        self.buffer[h] = Some(entry);
        self.head = if h + 1 == self.capacity {
            0
        } else {
            h + 1
        };
        proof {
            self.history@ = self.history@.push(e);
        }
        proof {
            let cap = self.capacity as int;
            let oldh = old(self).history@;
            let l = oldh.len() as int;
            if l + 1 < cap {
                assert forall|k: int| 0 <= k < cap implies #[trigger] self.slot_partial_ok(
                    k,
                ) by {
                    assert(old(self).slot_partial_ok(k));
                }
            } else if l + 1 == cap {
                assert forall|j: int| 0 <= j < cap implies #[trigger] self.slot_full_ok(j) by {
                    assert(old(self).slot_partial_ok(j));
                    assert(ring_pos(self.head as int, j, cap) == j);
                }
            } else {
                assert forall|j: int| 0 <= j < cap implies #[trigger] self.slot_full_ok(j) by {
                    if j < cap - 1 {
                        assert(old(self).slot_full_ok(j + 1));
                        assert(ring_pos(self.head as int, j, cap) == ring_pos(h as int, j + 1, cap));
                        assert(ring_pos(h as int, j + 1, cap) != h as int);
                    } else {
                        assert(ring_pos(self.head as int, cap - 1, cap) == h as int);
                    }
                }
            }
        }
    }

    /// Replace the message of the most recently recorded entry, keeping its
    /// timestamp and level, and hand back a copy of the amended entry. The
    /// ingest pipeline uses this to fold a run of repeated messages into one
    /// counted entry.
    pub fn amend_newest(&mut self, message: String) -> (r: LogEntry)
        requires
            old(self).wf(),
            old(self).history().len() > 0,
        ensures
            final(self).wf(),
            r@ == final(self).history().last(),
            final(self).history() == old(self).history().update(
                old(self).history().len() - 1,
                LogEntryModel {
                    message: message@,
                    ..old(self).history().last()
                },
            ),
            final(self).spec_capacity() == old(self).spec_capacity(),
            final(self).spec_max_log_size() == old(self).spec_max_log_size(),
            final(self).spec_max_log_files() == old(self).spec_max_log_files(),
            final(self).spec_log_file_path() == old(self).spec_log_file_path(),
    {
        let idx = if self.head == 0 {
            self.capacity - 1
        } else {
            self.head - 1
        };
        proof {
            let cap = self.capacity as int;
            let l = self.history@.len() as int;
            if l < cap {
                assert(self.slot_partial_ok(l - 1));
            } else {
                assert(self.slot_full_ok(cap - 1));
                assert(ring_pos(self.head as int, cap - 1, cap) == idx as int);
            }
        }
        let (ts, lv) = match &self.buffer[idx] {
            Some(e) => (e.timestamp.clone(), e.level.clone()),
            None => {
                proof {
                    assert(false);
                }
                (String::new(), String::new())
            },
        };
        let amended = LogEntry { timestamp: ts, level: lv, message };
        let copy = amended.clone();
        self.buffer[idx] = Some(amended);
        proof {
            let last = self.history@.last();
            self.history@ = self.history@.update(
                self.history@.len() - 1,
                LogEntryModel { message: message@, ..last },
            );
        }
        proof {
            let cap = self.capacity as int;
            let l = self.history@.len() as int;
            if l < cap {
                assert forall|k: int| 0 <= k < cap implies #[trigger] self.slot_partial_ok(
                    k,
                ) by {
                    assert(old(self).slot_partial_ok(k));
                }
            } else {
                assert forall|j: int| 0 <= j < cap implies #[trigger] self.slot_full_ok(j) by {
                    assert(old(self).slot_full_ok(j));
                    if j < cap - 1 {
                        assert(ring_pos(self.head as int, j, cap) != idx as int);
                    }
                }
            }
        }
        copy
    }

    /// All currently held entries (at most `capacity`), in the order they
    /// were recorded, starting from the oldest surviving one.
    pub fn get_logs(&self) -> (logs: Vec<LogEntry>)
        requires
            self.wf(),
        ensures
            logs@.len() == self.logs_model().len(),
            forall|i: int| 0 <= i < logs@.len() ==> #[trigger] logs@[i]@ == self.logs_model()[i],
    {
        let mut logs: Vec<LogEntry> = Vec::new();
        let mut i: usize = 0;
        let cap = self.capacity;
        while i < cap
            invariant
                self.wf(),
                cap == self.capacity,
                i <= cap,
                self.history@.len() >= cap ==> logs@.len() == i,
                self.history@.len() < cap ==> logs@.len() == (if i <= cap - self.history@.len() {
                    0int
                } else {
                    i - (cap - self.history@.len())
                }),
                forall|j: int| 0 <= j < logs@.len() ==> #[trigger] logs@[j]@ == self.logs_model()[j],
            decreases cap - i,
        {
            let idx = if i < cap - self.head {
                self.head + i
            } else {
                i - (cap - self.head)
            };
            proof {
                let cap_i = cap as int;
                let l = self.history@.len() as int;
                if l >= cap_i {
                    assert(self.slot_full_ok(i as int));
                    assert(ring_pos(self.head as int, i as int, cap_i) == idx as int);
                } else {
                    assert(self.slot_partial_ok(idx as int));
                }
            }
            match &self.buffer[idx] {
                Some(e) => {
                    logs.push(e.clone());
                },
                None => {},
            }
            i = i + 1;
        }
        logs
    }

    /// The directory that holds the log file.
    pub fn get_log_dir(&self) -> (r: String)
        ensures
            r@ == parent_or_dot(self.spec_log_file_path()),
    {
        parent_or_dot_str(self.log_file_path.as_str())
    }

    /// What persisting one already-formatted line demands of the on-disk
    /// files, given the current size of the active file: whether to rotate
    /// first, the file renames of the rotation (highest slot first, each
    /// `(from, to)` a file name in the log directory), and the line to
    /// append to the then-active file.
    pub fn plan_persist(&self, line: &str, file_exists: bool, file_size: usize) -> (p: PersistPlan)
        ensures
            p.rotate == (file_exists && file_size > self.spec_max_log_size()),
            p.rotate && self.spec_max_log_files() >= 1 ==> p.renames@.len()
                == self.spec_max_log_files() - 1,
            p.rotate && self.spec_max_log_files() == 0 ==> p.renames@.len() == 0,
            !p.rotate ==> p.renames@.len() == 0,
            forall|k: int|
                0 <= k < p.renames@.len() ==> (#[trigger] p.renames@[k]).0@ == rotated_name_spec(
                    self.spec_max_log_files() - 1 - k,
                ) && p.renames@[k].1@ == rotated_name_spec(self.spec_max_log_files() - k),
            p.line@ == line@,
    {
        let rotate = file_exists && file_size > self.max_log_size;
        let mut renames: Vec<(String, String)> = Vec::new();
        if rotate && self.max_log_files >= 2 {
            let mut slot: usize = self.max_log_files - 1;
            loop
                invariant_except_break
                    1 <= slot <= self.max_log_files - 1,
                    renames@.len() == self.spec_max_log_files() - 1 - slot,
                    forall|k: int|
                        0 <= k < renames@.len() ==> (#[trigger] renames@[k]).0@
                            == rotated_name_spec(self.spec_max_log_files() - 1 - k)
                            && renames@[k].1@ == rotated_name_spec(self.spec_max_log_files() - k),
                ensures
                    renames@.len() == self.spec_max_log_files() - 1,
                    forall|k: int|
                        0 <= k < renames@.len() ==> (#[trigger] renames@[k]).0@
                            == rotated_name_spec(self.spec_max_log_files() - 1 - k)
                            && renames@[k].1@ == rotated_name_spec(self.spec_max_log_files() - k),
                decreases slot,
            {
                renames.push((rotated_log_name(slot), rotated_log_name(slot + 1)));
                if slot == 1 {
                    break ;
                }
                slot = slot - 1;
            }
        }
        PersistPlan { rotate, renames, line: line_to_string(line) }
    }
}

/// What one recorded entry demands of the on-disk log files.
pub struct PersistPlan {
    pub rotate: bool,
    pub renames: Vec<(String, String)>,
    pub line: String,
}

/// The file name of rotated slot `slot` in the log directory.
pub open spec fn rotated_name_spec(slot: int) -> Seq<char> {
    "mightypie_"@ + dec_str(slot as nat) + ".log"@
}

/// The rotated slot's file name, as `rotated_name_spec` describes.
pub fn rotated_log_name(slot: usize) -> (r: String)
    ensures
        r@ == rotated_name_spec(slot as int),
{
    let mut v: Vec<char> = Vec::new();
    push_str_chars(&mut v, "mightypie_");
    let digits = u64_to_chars(slot as u64);
    push_chars(&mut v, &digits);
    push_str_chars(&mut v, ".log");
    assert(v@ =~= rotated_name_spec(slot as int));
    chars_to_string(&v)
}

/// Copy a borrowed line into an owned string.
fn line_to_string(line: &str) -> (r: String)
    ensures
        r@ == line@,
{
    let v = str_to_chars(line);
    chars_to_string(&v)
}

/// The three-letter tag written for `level` in the log file; unrecognized
/// levels are tagged `LOG`. Matching folds ASCII case.
pub open spec fn level_tag_spec(level: Seq<char>) -> Seq<char> {
    let l = lower_seq(level);
    if l == "error"@ {
        "ERR"@
    } else if l == "warn"@ {
        "WRN"@
    } else if l == "info"@ {
        "INF"@
    } else if l == "debug"@ {
        "DBG"@
    } else {
        "LOG"@
    }
}

/// The three-letter file tag for `level`, as `level_tag_spec` describes.
pub fn level_tag(level: &str) -> (r: &'static str)
    ensures
        r@ == level_tag_spec(level@),
{
    let chars = str_to_chars(level);
    let low = to_lower_chars(&chars);
    if chars_eq_str(&low, "error") {
        "ERR"
    } else if chars_eq_str(&low, "warn") {
        "WRN"
    } else if chars_eq_str(&low, "info") {
        "INF"
    } else if chars_eq_str(&low, "debug") {
        "DBG"
    } else {
        "LOG"
    }
}

/// The line written to the log file for `e`:
/// `[<SOURCE>] <timestamp> [<TAG>] <message>` and a newline.
pub open spec fn file_line_spec(source: Seq<char>, e: LogEntryModel) -> Seq<char> {
    "["@ + source + "] "@ + e.timestamp + " ["@ + level_tag_spec(e.level) + "] "@ + e.message
        + "\n"@
}

/// Format the file line for `entry`, as `file_line_spec` describes.
pub fn file_line(source: &str, entry: &LogEntry) -> (r: String)
    ensures
        r@ == file_line_spec(source@, entry@),
{
    let mut v: Vec<char> = Vec::new();
    push_str_chars(&mut v, "[");
    push_str_chars(&mut v, source);
    push_str_chars(&mut v, "] ");
    push_str_chars(&mut v, entry.timestamp.as_str());
    push_str_chars(&mut v, " [");
    let tag = level_tag(entry.level.as_str());
    push_str_chars(&mut v, tag);
    push_str_chars(&mut v, "] ");
    push_str_chars(&mut v, entry.message.as_str());
    push_str_chars(&mut v, "\n");
    assert(v@ =~= file_line_spec(source@, entry@));
    chars_to_string(&v)
}

/// After at least `capacity` entries have been recorded, the buffer holds
/// exactly the last `capacity` of them, in the order they were recorded —
/// and `get_logs` returns just that.
pub proof fn lemma_ring_keeps_last(b: &CircularLogBuffer)
    requires
        b.history().len() >= b.spec_capacity(),
    ensures
        b.logs_model().len() == b.spec_capacity(),
        forall|i: int|
            0 <= i < b.spec_capacity() ==> b.logs_model()[i] == b.history()[b.history().len()
                - b.spec_capacity() + i],
{
}

/// A model of the log directory's files: the contents of the active log
/// file and of each rotated slot (`rotated[i]` is slot `i + 1`). It predicts
/// exactly what the rotation policy leaves on disk: before an append that
/// finds the active file over `max_size` bytes, every slot moves one place
/// down (the last one falling away), the active contents move to slot 1, and
/// the appended line starts the fresh active file.
pub struct LogFileSet {
    pub active: Option<Vec<u8>>,
    pub rotated: Vec<Option<Vec<u8>>>,
    pub max_size: usize,
}

impl LogFileSet {
    /// The bytes of the active file (empty when absent).
    pub open spec fn active_bytes(&self) -> Seq<u8> {
        match self.active {
            Some(a) => a@,
            None => Seq::empty(),
        }
    }

    /// The active file exists.
    pub open spec fn has_active(&self) -> bool {
        self.active is Some
    }

    /// The next append will rotate first.
    pub open spec fn would_rotate(&self) -> bool {
        self.has_active() && self.active_bytes().len() > self.max_size
    }

    /// An empty log directory with `max_files` rotated slots.
    pub fn new(max_files: usize, max_size: usize) -> (r: Self)
        ensures
            !r.has_active(),
            r.rotated@.len() == max_files,
            forall|k: int| 0 <= k < max_files ==> r.rotated@[k] is None,
            r.max_size == max_size,
    {
        let mut rotated: Vec<Option<Vec<u8>>> = Vec::new();
        let mut i: usize = 0;
        while i < max_files
            invariant
                i <= max_files,
                rotated@.len() == i,
                forall|k: int| 0 <= k < i ==> rotated@[k] is None,
            decreases max_files - i,
        {
            rotated.push(None);
            i = i + 1;
        }
        LogFileSet { active: None, rotated, max_size }
    }

    /// Append one line, rotating first when the active file is over the
    /// limit: slot 1 then holds exactly the previous active contents, the
    /// fresh active file holds only the line, every other slot moves one
    /// place down, and the number of slots on disk never grows.
    pub fn append_line(&mut self, line: &str)
        ensures
            final(self).max_size == old(self).max_size,
            final(self).rotated@.len() == old(self).rotated@.len(),
            final(self).has_active(),
            old(self).would_rotate() ==> {
                &&& final(self).active_bytes() == line.spec_bytes()
                &&& (old(self).rotated@.len() > 0 ==> (final(self).rotated@[0] matches Some(b)
                    && b@ == old(self).active_bytes()))
                &&& forall|k: int|
                    1 <= k < final(self).rotated@.len() ==> final(self).rotated@[k] == old(
                        self,
                    ).rotated@[k - 1]
            },
            !old(self).would_rotate() ==> {
                &&& final(self).active_bytes() == old(self).active_bytes() + line.spec_bytes()
                &&& final(self).rotated@ == old(self).rotated@
            },
    {
        let rotate = match &self.active {
            Some(a) => a.len() > self.max_size,
            None => false,
        };
        if rotate {
            let prev = self.active.take();
            self.rotated.insert(0, prev);
            self.rotated.pop();
            self.active = Some(line.as_bytes_vec());
            proof {
                assert(forall|k: int|
                    1 <= k < self.rotated@.len() ==> self.rotated@[k] == old(self).rotated@[k - 1]);
            }
        } else {
            let mut a = match self.active.take() {
                Some(v) => v,
                None => Vec::new(),
            };
            let mut lb = line.as_bytes_vec();
            a.append(&mut lb);
            self.active = Some(a);
        }
    }
}

} // verus!
