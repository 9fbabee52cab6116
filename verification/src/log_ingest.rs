//! The log-ingestion pipeline: normalizes raw lines from the host and from
//! the worker's piped streams, colorizes them for the console, coalesces
//! immediate repeats, and turns each logically distinct message into exactly
//! one entry of the log store.

use vstd::prelude::*;
use vstd::string::StringExecFns;
use crate::log_store::CircularLogBuffer;
use crate::log_store::LogEntry;
use crate::log_store::LogEntryModel;
use crate::log_store::file_line;
use crate::log_store::file_line_spec;
use crate::text::lower_seq;
use crate::text::to_lower_chars;
use crate::text::chars_eq_str;
use crate::text::chars_to_string;
use crate::text::copy_range;
use crate::text::dec_str;
use crate::text::find_sub;
use crate::text::matches_at;
use crate::text::push_chars;
use crate::text::push_str_chars;
use crate::text::str_to_chars;
use crate::text::u64_to_chars;

verus! {

// ---------------------------------------------------------------------------
// Stripping terminal escape sequences
// ---------------------------------------------------------------------------
/// What remains of `s[i..]` after removing every escape sequence, where
/// `in_esc` says whether position `i` stands inside one. An escape sequence
/// runs from an escape character to the next `m`.
pub open spec fn strip_ansi_from(s: Seq<char>, i: int, in_esc: bool) -> Seq<char>
    decreases s.len() - i when 0 <= i <= s.len()
{
    if i >= s.len() {
        Seq::empty()
    } else if in_esc {
        if s[i] == 'm' {
            strip_ansi_from(s, i + 1, false)
        } else {
            strip_ansi_from(s, i + 1, true)
        }
    } else if s[i] == '\u{1b}' {
        strip_ansi_from(s, i + 1, true)
    } else {
        seq![s[i]] + strip_ansi_from(s, i + 1, false)
    }
}

/// `s` with every terminal color-escape sequence removed.
pub open spec fn strip_ansi_spec(s: Seq<char>) -> Seq<char> {
    strip_ansi_from(s, 0, false)
}

/// Strip terminal escape sequences from `input`, as `strip_ansi_spec`
/// describes.
pub fn strip_ansi_codes(input: &str) -> (r: String)
    ensures
        r@ == strip_ansi_spec(input@),
{
    let chars = str_to_chars(input);
    let n: usize = chars.len();
    let mut out: Vec<char> = Vec::new();
    let mut in_escape = false;
    let mut i: usize = 0;
    while i < n
        invariant
            n == input@.len(),
            chars@ == input@,
            i <= n,
            strip_ansi_spec(input@) == out@ + strip_ansi_from(input@, i as int, in_escape),
        decreases n - i,
    {
        let c = chars[i];
        if in_escape {
            if c == 'm' {
                in_escape = false;
            }
        } else if c == '\u{1b}' {
            in_escape = true;
        } else {
            out.push(c);
            assert(out@ + strip_ansi_from(input@, i + 1, false) =~= out@.drop_last() + (seq![c]
                + strip_ansi_from(input@, i + 1, false)));
        }
        i = i + 1;
    }
    chars_to_string(&out)
}

// ---------------------------------------------------------------------------
// Colorizing worker log lines
// ---------------------------------------------------------------------------
/// Index of the first occurrence of `pat` in `s` at or after `i`, or -1.
pub open spec fn find_first(s: Seq<char>, pat: Seq<char>, i: int) -> int
    decreases s.len() + 1 - i when 0 <= i
{
    if i + pat.len() > s.len() {
        -1
    } else if matches_at(s, pat, i) {
        i
    } else {
        find_first(s, pat, i + 1)
    }
}

proof fn lemma_find_first_some(s: Seq<char>, pat: Seq<char>, k: int, i: int)
    requires
        0 <= k <= i,
        matches_at(s, pat, i),
        forall|j: int| k <= j < i ==> !matches_at(s, pat, j),
    ensures
        find_first(s, pat, k) == i,
    decreases i - k,
{
    if k < i {
        lemma_find_first_some(s, pat, k + 1, i);
    }
}

proof fn lemma_find_first_none(s: Seq<char>, pat: Seq<char>, k: int)
    requires
        0 <= k,
        forall|j: int| k <= j ==> !matches_at(s, pat, j),
    ensures
        find_first(s, pat, k) == -1,
    decreases s.len() + 1 - k,
{
    if k + pat.len() <= s.len() {
        lemma_find_first_none(s, pat, k + 1);
    }
}

/// The color that marks `level` in a worker log line, or nothing for an
/// unrecognized level.
pub open spec fn go_color(level: Seq<char>) -> Seq<char> {
    if level == "DBG"@ {
        "\u{1b}[36m"@
    } else if level == "INF"@ {
        "\u{1b}[32m"@
    } else if level == "WRN"@ {
        "\u{1b}[33m"@
    } else if level == "ERR"@ {
        "\u{1b}[31m"@
    } else if level == "FTL"@ {
        "\u{1b}[35m"@
    } else {
        Seq::empty()
    }
}

/// A worker line with its level marker colorized: in a line of the shape
/// `... [LVL] ...`, a recognized three-letter level gets its fixed color;
/// any other line passes through unchanged.
pub open spec fn colorize_spec(line: Seq<char>) -> Seq<char> {
    let p = find_first(line, " ["@, 0);
    if p < 0 {
        line
    } else {
        let q = find_first(line, "] "@, p);
        if q < 0 {
            line
        } else {
            let level = line.subrange(p + 2, q);
            let color = go_color(level);
            if color.len() == 0 {
                line
            } else {
                line.subrange(0, p + 1) + "["@ + color + level + "\u{1b}[0m"@ + "\u{1b}[0m]"@
                    + line.subrange(q + 1, line.len() as int)
            }
        }
    }
}

/// Colorize the level marker of a worker log line, as `colorize_spec`
/// describes.
pub fn colorize_go_log(line: &str) -> (r: String)
    ensures
        r@ == colorize_spec(line@),
{
    let chars = str_to_chars(line);
    let space_bracket = str_to_chars(" [");
    let p = match find_sub(&chars, &space_bracket) {
        Some(p) => {
            proof {
                lemma_find_first_some(line@, " ["@, 0, p as int);
            }
            p
        },
        None => {
            proof {
                lemma_find_first_none(line@, " ["@, 0);
            }
            return chars_to_string(&chars);
        },
    };
    let tail = copy_range(&chars, p, chars.len());
    let bracket_space = str_to_chars("] ");
    proof {
        assert forall|j: int| 0 <= j implies (matches_at(tail@, "] "@, j) == matches_at(
            line@,
            "] "@,
            p + j,
        )) by {
            reveal_strlit("] ");
            if j + 2 <= tail@.len() {
                assert(tail@.subrange(j, j + 2) =~= line@.subrange(p + j, p + j + 2));
            }
        }
    }
    let q = match find_sub(&tail, &bracket_space) {
        Some(qr) => {
            proof {
                assert(matches_at(tail@, "] "@, qr as int));
                assert forall|j: int| p <= j < p + qr implies !matches_at(line@, "] "@, j) by {
                    assert(!matches_at(tail@, "] "@, j - p));
                }
                lemma_find_first_some(line@, "] "@, p as int, p + qr);
            }
            p + qr
        },
        None => {
            proof {
                assert forall|j: int| p <= j implies !matches_at(line@, "] "@, j) by {
                    assert(!matches_at(tail@, "] "@, j - p));
                }
                lemma_find_first_none(line@, "] "@, p as int);
            }
            return chars_to_string(&chars);
        },
    };
    proof {
        reveal_strlit(" [");
        reveal_strlit("] ");
        assert(line@.subrange(p as int, p + 2)[0] == line@[p as int]);
        assert(line@.subrange(p as int, p + 2)[1] == line@[p + 1]);
        assert(line@[p as int] == ' ' && line@[p + 1] == '[');
        if (q as int) < p + 2 {
            assert(matches_at(line@, "] "@, q as int));
            assert(line@.subrange(q as int, q + 2)[0] == line@[q as int]);
            assert(line@[q as int] == ']');
            assert(false);
        }
    }
    let level = copy_range(&chars, p + 2, q);
    let color: &str = if chars_eq_str(&level, "DBG") {
        "\u{1b}[36m"
    } else if chars_eq_str(&level, "INF") {
        "\u{1b}[32m"
    } else if chars_eq_str(&level, "WRN") {
        "\u{1b}[33m"
    } else if chars_eq_str(&level, "ERR") {
        "\u{1b}[31m"
    } else if chars_eq_str(&level, "FTL") {
        "\u{1b}[35m"
    } else {
        ""
    };
    proof {
        reveal_strlit("");
        assert(""@ =~= Seq::<char>::empty());
        assert(color@ == go_color(level@));
    }
    if color.unicode_len() == 0 {
        return chars_to_string(&chars);
    }
    let mut out: Vec<char> = Vec::new();
    let before = copy_range(&chars, 0, p + 1);
    push_chars(&mut out, &before);
    push_str_chars(&mut out, "[");
    push_str_chars(&mut out, color);
    push_chars(&mut out, &level);
    push_str_chars(&mut out, "\u{1b}[0m");
    push_str_chars(&mut out, "\u{1b}[0m]");
    let after = copy_range(&chars, q + 1, chars.len());
    push_chars(&mut out, &after);
    assert(out@ =~= colorize_spec(line@));
    chars_to_string(&out)
}

// ---------------------------------------------------------------------------
// Sources and console formatting
// ---------------------------------------------------------------------------
/// Where a log line originated.
#[derive(Clone, Copy)]
pub enum Source {
    /// The host process itself.
    Tauri,
    /// The host application's frontend.
    Svelte,
    /// The supervised worker process.
    Go,
}

/// The tag naming `s` in persisted log lines.
pub open spec fn source_tag(s: Source) -> Seq<char> {
    match s {
        Source::Tauri => "TAURI "@,
        Source::Svelte => "SVELTE"@,
        Source::Go => "  GO  "@,
    }
}

/// The file tag for `s`, as `source_tag` describes.
pub fn source_tag_str(s: Source) -> (r: &'static str)
    ensures
        r@ == source_tag(s),
{
    match s {
        Source::Tauri => "TAURI ",
        Source::Svelte => "SVELTE",
        Source::Go => "  GO  ",
    }
}

/// The colorized console prefix for `s`.
pub open spec fn source_prefix_colored(s: Source) -> Seq<char> {
    match s {
        Source::Tauri => "\u{1b}[36m[TAURI ]\u{1b}[0m"@,
        Source::Svelte => "\u{1b}[38;5;180m[SVELTE]\u{1b}[0m"@,
        Source::Go => "\u{1b}[34m[  GO  ]\u{1b}[0m"@,
    }
}

/// The console prefix for `s`, as `source_prefix_colored` describes.
pub fn source_prefix_str(s: Source) -> (r: &'static str)
    ensures
        r@ == source_prefix_colored(s),
{
    match s {
        Source::Tauri => "\u{1b}[36m[TAURI ]\u{1b}[0m",
        Source::Svelte => "\u{1b}[38;5;180m[SVELTE]\u{1b}[0m",
        Source::Go => "\u{1b}[34m[  GO  ]\u{1b}[0m",
    }
}

/// The colorized bracketed level marker echoed to the console for `level`;
/// unrecognized levels get a plain `[LOG]`. Matching folds ASCII case.
pub open spec fn console_level_span(level: Seq<char>) -> Seq<char> {
    let l = lower_seq(level);
    if l == "error"@ {
        "[\u{1b}[31mERR\u{1b}[0m]"@
    } else if l == "warn"@ {
        "[\u{1b}[33mWRN\u{1b}[0m]"@
    } else if l == "info"@ {
        "[\u{1b}[32mINF\u{1b}[0m]"@
    } else if l == "debug"@ {
        "[\u{1b}[36mDBG\u{1b}[0m]"@
    } else if l == "trace"@ {
        "[\u{1b}[35mTRC\u{1b}[0m]"@
    } else {
        "[LOG]"@
    }
}

/// The console level marker for `level`, as `console_level_span` describes.
pub fn console_level_span_str(level: &str) -> (r: &'static str)
    ensures
        r@ == console_level_span(level@),
{
    let chars = str_to_chars(level);
    let low = to_lower_chars(&chars);
    if chars_eq_str(&low, "error") {
        "[\u{1b}[31mERR\u{1b}[0m]"
    } else if chars_eq_str(&low, "warn") {
        "[\u{1b}[33mWRN\u{1b}[0m]"
    } else if chars_eq_str(&low, "info") {
        "[\u{1b}[32mINF\u{1b}[0m]"
    } else if chars_eq_str(&low, "debug") {
        "[\u{1b}[36mDBG\u{1b}[0m]"
    } else if chars_eq_str(&low, "trace") {
        "[\u{1b}[35mTRC\u{1b}[0m]"
    } else {
        "[LOG]"
    }
}

/// Lines at warning or error level go to the standard error stream; all
/// others go to standard output.
pub open spec fn level_to_stderr(level: Seq<char>) -> bool {
    lower_seq(level) == "error"@ || lower_seq(level) == "warn"@
}

/// The console stream for `level`, as `level_to_stderr` describes.
pub fn level_to_stderr_exec(level: &str) -> (r: bool)
    ensures
        r == level_to_stderr(level@),
{
    let chars = str_to_chars(level);
    let low = to_lower_chars(&chars);
    chars_eq_str(&low, "error") || chars_eq_str(&low, "warn")
}

/// The console echo of a host-side line: prefix, timestamp, colorized level
/// marker, and the message.
pub open spec fn console_line_spec(
    source: Source,
    ts: Seq<char>,
    level: Seq<char>,
    msg: Seq<char>,
) -> Seq<char> {
    source_prefix_colored(source) + " "@ + ts + " "@ + console_level_span(level) + " "@ + msg
}

/// Format a console line, as `console_line_spec` describes.
pub fn build_console_line(source: Source, ts: &str, level: &str, msg: &str) -> (r: String)
    ensures
        r@ == console_line_spec(source, ts@, level@, msg@),
{
    let mut v: Vec<char> = Vec::new();
    push_str_chars(&mut v, source_prefix_str(source));
    push_str_chars(&mut v, " ");
    push_str_chars(&mut v, ts);
    push_str_chars(&mut v, " ");
    push_str_chars(&mut v, console_level_span_str(level));
    push_str_chars(&mut v, " ");
    push_str_chars(&mut v, msg);
    assert(v@ =~= console_line_spec(source, ts@, level@, msg@));
    chars_to_string(&v)
}

/// The console echo of a newly arrived line: worker lines are shown raw with
/// their embedded level marker colorized; host-side lines get the timestamped
/// console format.
pub open spec fn new_line_console(
    source: Source,
    ts: Seq<char>,
    level: Seq<char>,
    raw: Seq<char>,
) -> Seq<char> {
    match source {
        Source::Go => source_prefix_colored(source) + " "@ + colorize_spec(raw),
        _ => console_line_spec(source, ts, level, raw),
    }
}

// ---------------------------------------------------------------------------
// Deduplication
// ---------------------------------------------------------------------------
/// The run of identical messages the pipeline is currently tracking.
pub ghost struct RunModel {
    pub level: Seq<char>,
    pub message: Seq<char>,
    pub count: int,
}

/// One incoming line, already stripped of escape sequences.
pub ghost struct IngestInput {
    pub timestamp: Seq<char>,
    pub level: Seq<char>,
    pub message: Seq<char>,
}

/// One effect of an incoming line on the log store.
pub ghost enum StoreOp {
    /// A new entry is recorded.
    Add(LogEntryModel),
    /// The newest entry's message is rewritten.
    Amend(Seq<char>),
}

/// What an incoming line looks like after normalization.
pub open spec fn ingest_input(ts: Seq<char>, level: Seq<char>, raw: Seq<char>) -> IngestInput {
    IngestInput { timestamp: ts, level: level, message: strip_ansi_spec(raw) }
}

/// The line repeats the tracked run.
pub open spec fn same_run(st: Option<RunModel>, inp: IngestInput) -> bool {
    st matches Some(r) && r.level == inp.level && r.message == inp.message
}

/// The repeat counter, advanced by one and saturating at `u64::MAX`.
pub open spec fn bump(c: int) -> int {
    if c < u64::MAX {
        c + 1
    } else {
        c
    }
}

/// The tracked run after one incoming line: a repeat advances the counter, a
/// distinct line starts a fresh run.
pub open spec fn dedup_step_state(st: Option<RunModel>, inp: IngestInput) -> Option<RunModel> {
    if same_run(st, inp) {
        Some(RunModel { count: bump(st.unwrap().count), ..st.unwrap() })
    } else {
        Some(RunModel { level: inp.level, message: inp.message, count: 1 })
    }
}

/// The suffix appended to a message repeated `n` times.
pub open spec fn repeat_suffix(n: int) -> Seq<char> {
    " (repeated "@ + dec_str(n as nat) + " times)"@
}

/// The final text of a run's single entry: the message itself, or the
/// message with a repeat count when it arrived more than once.
pub open spec fn flush_message(r: RunModel) -> Seq<char> {
    if r.count > 1 {
        r.message + repeat_suffix(r.count)
    } else {
        r.message
    }
}

/// Closing the tracked run must rewrite its entry with a repeat count.
pub open spec fn needs_flush(st: Option<RunModel>) -> bool {
    st matches Some(r) && r.count > 1
}

/// The store entry recorded for `inp`.
pub open spec fn entry_of(inp: IngestInput) -> LogEntryModel {
    LogEntryModel { timestamp: inp.timestamp, level: inp.level, message: inp.message }
}

/// The store effects of one incoming line: a repeat touches nothing; a
/// distinct line first folds the closing run's repeats into its entry, then
/// records the new line.
pub open spec fn dedup_step_ops(st: Option<RunModel>, inp: IngestInput) -> Seq<StoreOp> {
    if same_run(st, inp) {
        Seq::empty()
    } else if needs_flush(st) {
        seq![StoreOp::Amend(flush_message(st.unwrap())), StoreOp::Add(entry_of(inp))]
    } else {
        seq![StoreOp::Add(entry_of(inp))]
    }
}

/// `h` after one store effect.
pub open spec fn apply_op(h: Seq<LogEntryModel>, op: StoreOp) -> Seq<LogEntryModel> {
    match op {
        StoreOp::Add(e) => h.push(e),
        StoreOp::Amend(m) => if h.len() > 0 {
            h.update(h.len() - 1, LogEntryModel { message: m, ..h.last() })
        } else {
            h
        },
    }
}

/// `h` after a sequence of store effects, applied in order.
pub open spec fn apply_ops(h: Seq<LogEntryModel>, ops: Seq<StoreOp>) -> Seq<LogEntryModel>
    decreases ops.len(),
{
    if ops.len() == 0 {
        h
    } else {
        apply_ops(apply_op(h, ops[0]), ops.drop_first())
    }
}

/// One colorized console line and the stream it belongs on.
pub struct ConsoleLine {
    pub text: String,
    pub to_stderr: bool,
}

/// Everything one incoming line asks of the world outside the store: console
/// echoes, and lines to append to the log file.
pub struct IngestOutput {
    pub console: Vec<ConsoleLine>,
    pub file_lines: Vec<String>,
}

/// The dedup state and the store moved exactly as the step functions say.
pub open spec fn record_state_ok(
    old_st: Option<RunModel>,
    old_hist: Seq<LogEntryModel>,
    new_st: Option<RunModel>,
    new_hist: Seq<LogEntryModel>,
    ts: Seq<char>,
    level: Seq<char>,
    raw: Seq<char>,
) -> bool {
    let inp = ingest_input(ts, level, raw);
    &&& new_st == dedup_step_state(old_st, inp)
    &&& new_hist == apply_ops(old_hist, dedup_step_ops(old_st, inp))
}

/// The console echoes and file lines produced for one incoming line:
/// nothing for a repeat; for a distinct line, the flush echo and file line
/// of the counted entry (when a counted run closes, so the file carries the
/// same counted message the buffer now holds), then the echo and file line
/// of the new entry.
pub open spec fn record_output_ok(
    old_st: Option<RunModel>,
    old_hist: Seq<LogEntryModel>,
    source: Source,
    ts: Seq<char>,
    level: Seq<char>,
    raw: Seq<char>,
    out: IngestOutput,
) -> bool {
    let inp = ingest_input(ts, level, raw);
    if same_run(old_st, inp) {
        out.console@.len() == 0 && out.file_lines@.len() == 0
    } else {
        &&& out.file_lines@.len() == (if needs_flush(old_st) {
            2int
        } else {
            1int
        })
        &&& (needs_flush(old_st) ==> out.file_lines@[0]@ == file_line_spec(
            source_tag(source),
            LogEntryModel { message: flush_message(old_st.unwrap()), ..old_hist.last() },
        ))
        &&& out.file_lines@[out.file_lines@.len() - 1]@ == file_line_spec(
            source_tag(source),
            entry_of(inp),
        )
        &&& out.console@.len() == (if needs_flush(old_st) {
            2int
        } else {
            1int
        })
        &&& (needs_flush(old_st) ==> out.console@[0].text@ == console_line_spec(
            source,
            ts,
            old_st.unwrap().level,
            flush_message(old_st.unwrap()),
        ) && out.console@[0].to_stderr == level_to_stderr(old_st.unwrap().level))
        &&& out.console@[out.console@.len() - 1].text@ == new_line_console(source, ts, level, raw)
        &&& out.console@[out.console@.len() - 1].to_stderr == level_to_stderr(level)
    }
}

/// The state of the ingestion pipeline: the run of identical messages seen
/// most recently, with its repeat count.
pub struct LogIngest {
    run: Option<RunState>,
}

struct RunState {
    level: String,
    message: String,
    count: u64,
}

impl LogIngest {
    /// The tracked run.
    pub closed spec fn run_model(&self) -> Option<RunModel> {
        match self.run {
            Some(r) => Some(RunModel { level: r.level@, message: r.message@, count: r.count as int }),
            None => None,
        }
    }

    /// A pipeline that has seen nothing yet.
    pub fn new() -> (r: Self)
        ensures
            r.run_model() is None,
    {
        LogIngest { run: None }
    }

    /// Ingest one line whose timestamp the caller supplies: strip escape
    /// sequences, coalesce immediate repeats, record each logically distinct
    /// message exactly once in `store`, and hand back the console echoes and
    /// file lines this line produced.
    pub fn record_line_at(
        &mut self,
        store: &mut CircularLogBuffer,
        timestamp: String,
        source: Source,
        level: &str,
        raw: &str,
    ) -> (out: IngestOutput)
        requires
            old(store).wf(),
            old(self).run_model() is Some ==> old(store).history().len() > 0,
        ensures
            final(store).wf(),
            final(self).run_model() is Some,
            final(store).history().len() > 0,
            record_state_ok(
                old(self).run_model(),
                old(store).history(),
                final(self).run_model(),
                final(store).history(),
                timestamp@,
                level@,
                raw@,
            ),
            record_output_ok(
                old(self).run_model(),
                old(store).history(),
                source,
                timestamp@,
                level@,
                raw@,
                out,
            ),
            final(store).spec_capacity() == old(store).spec_capacity(),
            final(store).spec_max_log_size() == old(store).spec_max_log_size(),
            final(store).spec_max_log_files() == old(store).spec_max_log_files(),
            final(store).spec_log_file_path() == old(store).spec_log_file_path(),
    {
        let ghost old_st = self.run_model();
        let ghost old_hist = store.history();
        let ghost inp = ingest_input(timestamp@, level@, raw@);
        let plain = strip_ansi_codes(raw);
        let mut console: Vec<ConsoleLine> = Vec::new();
        let mut file_lines: Vec<String> = Vec::new();
        let is_same = match &self.run {
            Some(r) => {
                let rl = str_to_chars(r.level.as_str());
                chars_eq_str(&rl, level) && r.message == plain
            },
            None => false,
        };
        assert(is_same == same_run(old_st, inp));
        if is_same {
            match self.run.take() {
                Some(r) => {
                    let c = if r.count < u64::MAX {
                        r.count + 1
                    } else {
                        r.count
                    };
                    self.run = Some(RunState { level: r.level, message: r.message, count: c });
                },
                None => {
                    proof {
                        assert(false);
                    }
                },
            }
            proof {
                assert(apply_ops(old_hist, dedup_step_ops(old_st, inp)) == old_hist);
            }
        } else {
            let ghost flushing = needs_flush(old_st);
            match self.run.take() {
                Some(r) => {
                    if r.count > 1 {
                        let mut fm: Vec<char> = Vec::new();
                        push_str_chars(&mut fm, r.message.as_str());
                        push_str_chars(&mut fm, " (repeated ");
                        let digits = u64_to_chars(r.count);
                        push_chars(&mut fm, &digits);
                        push_str_chars(&mut fm, " times)");
                        assert(fm@ =~= flush_message(old_st.unwrap()));
                        let fm_string = chars_to_string(&fm);
                        let flush_echo = build_console_line(
                            source,
                            timestamp.as_str(),
                            r.level.as_str(),
                            fm_string.as_str(),
                        );
                        console.push(
                            ConsoleLine {
                                text: flush_echo,
                                to_stderr: level_to_stderr_exec(r.level.as_str()),
                            },
                        );
                        let amended = store.amend_newest(fm_string);
                        file_lines.push(file_line(source_tag_str(source), &amended));
                    }
                },
                None => {},
            }
            let entry = LogEntry {
                timestamp: timestamp.clone(),
                level: String::from_str(level),
                message: plain.clone(),
            };
            assert(entry@ == entry_of(inp));
            let fl = file_line(source_tag_str(source), &entry);
            store.add(entry);
            file_lines.push(fl);
            let echo_text = match source {
                Source::Go => {
                    let mut v: Vec<char> = Vec::new();
                    push_str_chars(&mut v, source_prefix_str(source));
                    push_str_chars(&mut v, " ");
                    let colorized = colorize_go_log(raw);
                    push_str_chars(&mut v, colorized.as_str());
                    assert(v@ =~= new_line_console(source, timestamp@, level@, raw@));
                    chars_to_string(&v)
                },
                Source::Tauri => build_console_line(source, timestamp.as_str(), level, raw),
                Source::Svelte => build_console_line(source, timestamp.as_str(), level, raw),
            };
            console.push(ConsoleLine { text: echo_text, to_stderr: level_to_stderr_exec(level) });
            self.run = Some(
                RunState { level: String::from_str(level), message: plain, count: 1 },
            );
            proof {
                let ops = dedup_step_ops(old_st, inp);
                if flushing {
                    assert(ops == seq![
                        StoreOp::Amend(flush_message(old_st.unwrap())),
                        StoreOp::Add(entry_of(inp)),
                    ]);
                    let h1 = apply_op(old_hist, ops[0]);
                    assert(apply_ops(old_hist, ops) == apply_ops(h1, ops.drop_first()));
                    let ops2 = ops.drop_first();
                    assert(ops2 =~= seq![StoreOp::Add(entry_of(inp))]);
                    assert(apply_ops(h1, ops2) == apply_ops(apply_op(h1, ops2[0]),
                    ops2.drop_first()));
                    assert(ops2.drop_first() =~= Seq::<StoreOp>::empty());
                    assert(apply_ops(apply_op(h1, ops2[0]), ops2.drop_first()) == apply_op(
                        h1,
                        ops2[0],
                    ));
                } else {
                    assert(ops == seq![StoreOp::Add(entry_of(inp))]);
                    let h1 = apply_op(old_hist, ops[0]);
                    assert(apply_ops(old_hist, ops) == apply_ops(h1, ops.drop_first()));
                    assert(ops.drop_first() =~= Seq::<StoreOp>::empty());
                    assert(apply_ops(h1, ops.drop_first()) == h1);
                }
            }
        }
        IngestOutput { console, file_lines }
    }

    /// Ingest one line, timestamped with the current local time. The effects
    /// are those of `record_line_at` for some timestamp.
    pub fn record_line(
        &mut self,
        store: &mut CircularLogBuffer,
        source: Source,
        level: &str,
        raw: &str,
    ) -> (out: IngestOutput)
        requires
            old(store).wf(),
            old(self).run_model() is Some ==> old(store).history().len() > 0,
        ensures
            final(store).wf(),
            final(self).run_model() is Some,
            final(store).history().len() > 0,
            exists|ts: Seq<char>|
                record_state_ok(
                    old(self).run_model(),
                    old(store).history(),
                    final(self).run_model(),
                    final(store).history(),
                    ts,
                    level@,
                    raw@,
                ) && record_output_ok(
                    old(self).run_model(),
                    old(store).history(),
                    source,
                    ts,
                    level@,
                    raw@,
                    out,
                ),
            final(store).spec_capacity() == old(store).spec_capacity(),
            final(store).spec_max_log_size() == old(store).spec_max_log_size(),
            final(store).spec_max_log_files() == old(store).spec_max_log_files(),
            final(store).spec_log_file_path() == old(store).spec_log_file_path(),
    {
        let ts = now_timestamp();
        let ghost tsg = ts@;
        let out = self.record_line_at(store, ts, source, level, raw);
        proof {
            assert(record_state_ok(
                old(self).run_model(),
                old(store).history(),
                final(self).run_model(),
                final(store).history(),
                tsg,
                level@,
                raw@,
            ) && record_output_ok(
                old(self).run_model(),
                old(store).history(),
                source,
                tsg,
                level@,
                raw@,
                out,
            ));
        }
        out
    }
}

/// Relies on `chrono::Local::now`: the current local time, formatted to
/// second precision as `year/month/day hour:minute:second`.
#[verifier::external_body]
fn now_timestamp() -> (r: String) {
    chrono::Local::now().format("%Y/%m/%d %H:%M:%S").to_string()
}

// ---------------------------------------------------------------------------
// The coalescing law
// ---------------------------------------------------------------------------
/// The dedup state and the store history after feeding `inputs`, in order,
/// through the step functions.
pub open spec fn run_dedup(
    st: Option<RunModel>,
    h: Seq<LogEntryModel>,
    inputs: Seq<IngestInput>,
) -> (Option<RunModel>, Seq<LogEntryModel>)
    decreases inputs.len(),
{
    if inputs.len() == 0 {
        (st, h)
    } else {
        run_dedup(
            dedup_step_state(st, inputs[0]),
            apply_ops(h, dedup_step_ops(st, inputs[0])),
            inputs.drop_first(),
        )
    }
}

proof fn lemma_run_dedup_append(
    st: Option<RunModel>,
    h: Seq<LogEntryModel>,
    a: Seq<IngestInput>,
    b: Seq<IngestInput>,
)
    ensures
        run_dedup(st, h, a + b) == run_dedup(run_dedup(st, h, a).0, run_dedup(st, h, a).1, b),
    decreases a.len(),
{
    if a.len() == 0 {
        assert(a + b =~= b);
    } else {
        assert((a + b).drop_first() =~= a.drop_first() + b);
        assert((a + b)[0] == a[0]);
        lemma_run_dedup_append(
            dedup_step_state(st, a[0]),
            apply_ops(h, dedup_step_ops(st, a[0])),
            a.drop_first(),
            b,
        );
    }
}

proof fn lemma_apply_one(h: Seq<LogEntryModel>, op: StoreOp)
    ensures
        apply_ops(h, seq![op]) == apply_op(h, op),
{
    assert(seq![op].drop_first() =~= Seq::<StoreOp>::empty());
    assert(apply_ops(h, seq![op]) == apply_ops(apply_op(h, seq![op][0]), seq![op].drop_first()));
}

proof fn lemma_uniform_run(h0: Seq<LogEntryModel>, inputs: Seq<IngestInput>, j: int)
    requires
        1 <= j <= inputs.len(),
        j <= u64::MAX,
        forall|i: int|
            0 <= i < j ==> (#[trigger] inputs[i]).level == inputs[0].level && inputs[i].message
                == inputs[0].message,
    ensures
        run_dedup(None, h0, inputs.take(j)).0 == Some(
            RunModel { level: inputs[0].level, message: inputs[0].message, count: j },
        ),
        run_dedup(None, h0, inputs.take(j)).1 == h0.push(entry_of(inputs[0])),
    decreases j,
{
    if j == 1 {
        let a = inputs.take(1);
        assert(a.len() == 1 && a[0] == inputs[0]);
        assert(a.drop_first() =~= Seq::<IngestInput>::empty());
        assert(!same_run(None, a[0]));
        assert(dedup_step_ops(None, a[0]) == seq![StoreOp::Add(entry_of(a[0]))]);
        lemma_apply_one(h0, StoreOp::Add(entry_of(a[0])));
        assert(run_dedup(None, h0, a) == run_dedup(
            dedup_step_state(None, a[0]),
            apply_ops(h0, dedup_step_ops(None, a[0])),
            a.drop_first(),
        ));
    } else {
        lemma_uniform_run(h0, inputs, j - 1);
        let a = inputs.take(j - 1);
        let b = seq![inputs[j - 1]];
        assert(inputs.take(j) =~= a + b);
        lemma_run_dedup_append(None, h0, a, b);
        let st1 = run_dedup(None, h0, a).0;
        let h1 = run_dedup(None, h0, a).1;
        let r1 = st1.unwrap();
        assert(inputs[j - 1].level == inputs[0].level && inputs[j - 1].message
            == inputs[0].message);
        assert(same_run(st1, b[0]));
        assert(dedup_step_state(st1, b[0]) == Some(
            RunModel { level: inputs[0].level, message: inputs[0].message, count: j },
        ));
        assert(apply_ops(h1, dedup_step_ops(st1, b[0])) == h1);
        assert(b.drop_first() =~= Seq::<IngestInput>::empty());
        assert(run_dedup(st1, h1, b) == run_dedup(
            dedup_step_state(st1, b[0]),
            apply_ops(h1, dedup_step_ops(st1, b[0])),
            b.drop_first(),
        ));
    }
}

/// Recording the identical (level, message) pair `k` times in a row and then
/// one distinct line adds exactly two entries to the store: one entry for
/// the whole run — the first occurrence's entry, its message rewritten with
/// a repeat count when `k > 1` — and one entry for the distinct line. A
/// repeat never becomes an entry of its own.
pub proof fn lemma_dedup_coalesces(h0: Seq<LogEntryModel>, inputs: Seq<IngestInput>, k: int)
    requires
        inputs.len() == k + 1,
        1 <= k <= u64::MAX,
        forall|i: int|
            0 <= i < k ==> (#[trigger] inputs[i]).level == inputs[0].level && inputs[i].message
                == inputs[0].message,
        inputs[k as int].level != inputs[0].level || inputs[k as int].message != inputs[0].message,
    ensures
        run_dedup(None, h0, inputs).1 == h0.push(
            LogEntryModel {
                timestamp: inputs[0].timestamp,
                level: inputs[0].level,
                message: if k > 1 {
                    inputs[0].message + repeat_suffix(k)
                } else {
                    inputs[0].message
                },
            },
        ).push(entry_of(inputs[k as int])),
        run_dedup(None, h0, inputs).1.len() == h0.len() + 2,
{
    lemma_uniform_run(h0, inputs, k);
    let a = inputs.take(k);
    let b = seq![inputs[k as int]];
    assert(inputs =~= a + b);
    lemma_run_dedup_append(None, h0, a, b);
    let st1 = run_dedup(None, h0, a).0;
    let h1 = run_dedup(None, h0, a).1;
    let r1 = st1.unwrap();
    let e0 = entry_of(inputs[0]);
    assert(h1 == h0.push(e0));
    assert(!same_run(st1, b[0]));
    assert(b.drop_first() =~= Seq::<IngestInput>::empty());
    assert(run_dedup(st1, h1, b) == run_dedup(
        dedup_step_state(st1, b[0]),
        apply_ops(h1, dedup_step_ops(st1, b[0])),
        b.drop_first(),
    ));
    let ops = dedup_step_ops(st1, b[0]);
    if k > 1 {
        assert(needs_flush(st1));
        assert(ops == seq![
            StoreOp::Amend(flush_message(r1)),
            StoreOp::Add(entry_of(b[0])),
        ]);
        let flushed = LogEntryModel {
            timestamp: inputs[0].timestamp,
            level: inputs[0].level,
            message: inputs[0].message + repeat_suffix(k),
        };
        let h2 = apply_op(h1, ops[0]);
        assert(h1.len() == h0.len() + 1);
        assert(h1.last() == e0);
        assert(h2 =~= h0.push(flushed));
        assert(ops.drop_first() =~= seq![StoreOp::Add(entry_of(b[0]))]);
        assert(apply_ops(h1, ops) == apply_ops(h2, ops.drop_first()));
        lemma_apply_one(h2, StoreOp::Add(entry_of(b[0])));
        assert(apply_ops(h2, ops.drop_first()) == apply_ops(h2, seq![StoreOp::Add(entry_of(b[0]))]));
        assert(apply_ops(h1, ops) == h2.push(entry_of(b[0])));
    } else {
        assert(!needs_flush(st1));
        assert(ops == seq![StoreOp::Add(entry_of(b[0]))]);
        lemma_apply_one(h1, StoreOp::Add(entry_of(b[0])));
        assert(apply_ops(h1, ops) == h1.push(entry_of(b[0])));
    }
}

} // verus!
