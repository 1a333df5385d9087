//! Logging settings and log-file rotation.
//!
//! Each run writes a log file named `dotdeploy_<timestamp>.log`; names sort
//! in the order the runs happened. Rotation keeps the most recent ones.

use vstd::prelude::*;
use crate::text::{chars_of, chars_lt, ends_with, starts_with, lex_lt, has_prefix, has_suffix};

verus! {

/// Logging level.
#[derive(Debug, Clone, Copy, PartialEq, Eq, Structural)]
pub enum Verbosity {
    Info,
    Debug,
    Trace,
}

/// Default maximum number of log files to retain
pub const DEFAULT_MAX_LOGS: usize = 15;

/// Error of [`LoggerBuilder::build`].
#[derive(Debug, Clone, Copy, PartialEq, Eq, Structural)]
pub enum LogError {
    /// No verbosity was set.
    VerbosityUndefined,
}

/// Logging settings.
#[derive(Debug)]
pub struct Logger {
    /// Logging level
    pub verbosity: Verbosity,
    /// Maximum number of log files to retain
    pub max_logs: usize,
    /// Directory where log files are stored; `None` stands for the user's
    /// data directory, which the caller determines.
    pub log_dir: Option<String>,
}

/// Builder for [`Logger`].
#[derive(Debug)]
pub struct LoggerBuilder {
    /// The logging verbosity level
    pub verbosity: Option<Verbosity>,
    /// Maximum number of log files to keep during rotation
    pub max_logs: Option<usize>,
    /// Directory where log files will be stored
    pub log_dir: Option<String>,
}

/// The level selected by a count of `-v` flags.
pub open spec fn verbosity_of(count: u8) -> Verbosity {
    if count == 0 {
        Verbosity::Info
    } else if count == 1 {
        Verbosity::Debug
    } else {
        Verbosity::Trace
    }
}

impl LoggerBuilder {
    /// A builder with nothing set.
    pub fn new() -> (b: Self)
        ensures
            b.verbosity is None,
            b.max_logs is None,
            b.log_dir is None,
    {
        LoggerBuilder { verbosity: None, max_logs: None, log_dir: None }
    }

    /// Sets the verbosity level (0 = INFO, 1 = DEBUG, 2+ = TRACE).
    pub fn with_verbosity(&mut self, verbosity: u8)
        ensures
            final(self).verbosity == Some(verbosity_of(verbosity)),
            final(self).max_logs == old(self).max_logs,
            final(self).log_dir == old(self).log_dir,
    {
        self.verbosity = Some(
            if verbosity == 0 {
                Verbosity::Info
            } else if verbosity == 1 {
                Verbosity::Debug
            } else {
                Verbosity::Trace
            },
        );
    }

    /// Sets the maximum number of log files to retain during rotation.
    pub fn with_max_logs(&mut self, count: usize)
        ensures
            final(self).max_logs == Some(count),
            final(self).verbosity == old(self).verbosity,
            final(self).log_dir == old(self).log_dir,
    {
        self.max_logs = Some(count);
    }

    /// Sets the directory where log files will be stored.
    pub fn with_log_dir(&mut self, dir: String)
        ensures
            final(self).log_dir == Some(dir),
            final(self).verbosity == old(self).verbosity,
            final(self).max_logs == old(self).max_logs,
    {
        self.log_dir = Some(dir);
    }

    /// Builds the settings; the verbosity is required, the log count
    /// defaults to 15.
    pub fn build(&self) -> (r: Result<Logger, LogError>)
        ensures
            self.verbosity is None ==> r == Err::<Logger, LogError>(LogError::VerbosityUndefined),
            self.verbosity matches Some(v) ==> (r matches Ok(l) && l.verbosity == v && l.max_logs == (match self.max_logs {
                Some(m) => m,
                None => DEFAULT_MAX_LOGS,
            }) && l.log_dir == self.log_dir),
    {
        match self.verbosity {
            None => Err(LogError::VerbosityUndefined),
            Some(v) => Ok(
                Logger {
                    verbosity: v,
                    max_logs: match self.max_logs {
                        Some(m) => m,
                        None => DEFAULT_MAX_LOGS,
                    },
                    log_dir: match &self.log_dir {
                        Some(d) => Some(d.clone()),
                        None => None,
                    },
                },
            ),
        }
    }
}

/// Events of the tool itself, as opposed to those of the libraries it uses,
/// and not the ones meant for the log file only.
pub open spec fn own_target(target: Seq<char>) -> bool {
    has_prefix(target, "dotdeploy"@) && !has_prefix(target, "dotdeploy_logfile"@)
}

/// The terminal shows an event when it is of the tool itself, or always at
/// the most verbose level. Informational events and the others go to two
/// separate terminal layers; `info_layer` selects which one asks.
pub fn terminal_shows(verbosity: Verbosity, info_layer: bool, event_is_info: bool, target: &str) -> (b: bool)
    ensures
        b == (info_layer == event_is_info && (verbosity == Verbosity::Trace || own_target(target@))),
{
    if info_layer != event_is_info {
        return false;
    }
    verbosity == Verbosity::Trace || (starts_with(target, "dotdeploy") && !starts_with(target, "dotdeploy_logfile"))
}

/// Source locations, thread names and targets are printed only at the most
/// verbose level.
pub fn detailed_terminal(verbosity: Verbosity) -> (b: bool)
    ensures
        b == (verbosity == Verbosity::Trace),
{
    verbosity == Verbosity::Trace
}

/// A file name whose extension is `log`: it ends in `.log` and something
/// precedes that dot.
pub open spec fn is_log_name(name: Seq<char>) -> bool {
    name.len() > 4 && has_suffix(name, ".log"@)
}

/// The log files among the names, in the given order.
pub open spec fn log_names(names: Seq<Seq<char>>) -> Seq<Seq<char>>
    decreases names.len(),
{
    if names.len() == 0 {
        Seq::empty()
    } else if is_log_name(names.last()) {
        log_names(names.drop_last()).push(names.last())
    } else {
        log_names(names.drop_last())
    }
}

/// Inserts `x` into a sequence sorted from the newest (greatest) name down,
/// before the first name older than `x`.
pub open spec fn insert_newest_first(x: Seq<char>, s: Seq<Seq<char>>) -> Seq<Seq<char>>
    decreases s.len(),
{
    if s.len() == 0 {
        seq![x]
    } else if lex_lt(s[0], x) {
        seq![x] + s
    } else {
        seq![s[0]] + insert_newest_first(x, s.drop_first())
    }
}

/// The names sorted from the newest (greatest) down.
pub open spec fn newest_first(s: Seq<Seq<char>>) -> Seq<Seq<char>>
    decreases s.len(),
{
    if s.len() == 0 {
        Seq::empty()
    } else {
        insert_newest_first(s.last(), newest_first(s.drop_last()))
    }
}

/// The log files that rotation removes: all but the `max_logs` newest.
pub open spec fn rotated_out(names: Seq<Seq<char>>, max_logs: nat) -> Seq<Seq<char>> {
    let sorted = newest_first(log_names(names));
    if sorted.len() <= max_logs {
        Seq::empty()
    } else {
        sorted.skip(max_logs as int)
    }
}

proof fn lemma_insert_at(x: Seq<char>, s: Seq<Seq<char>>, p: int)
    requires
        0 <= p <= s.len(),
        forall|k: int| 0 <= k < p ==> !lex_lt(#[trigger] s[k], x),
        p < s.len() ==> lex_lt(s[p], x),
    ensures
        insert_newest_first(x, s) == s.insert(p, x),
    decreases p,
{
    if s.len() == 0 {
        assert(s.insert(p, x) =~= seq![x]);
    } else if p == 0 {
        assert(s.insert(p, x) =~= seq![x] + s);
    } else {
        assert(!lex_lt(s[0], x));
        let t = s.drop_first();
        assert forall|k: int| 0 <= k < p - 1 implies !lex_lt(#[trigger] t[k], x) by {
            assert(t[k] == s[k + 1]);
        }
        if p < s.len() {
            assert(t[p - 1] == s[p]);
        }
        lemma_insert_at(x, t, p - 1);
        assert(s.insert(p, x) =~= seq![s[0]] + t.insert(p - 1, x));
    }
}

proof fn lemma_insert_len(x: Seq<char>, s: Seq<Seq<char>>)
    ensures
        insert_newest_first(x, s).len() == s.len() + 1,
    decreases s.len(),
{
    if s.len() > 0 && !lex_lt(s[0], x) {
        lemma_insert_len(x, s.drop_first());
    }
}

proof fn lemma_newest_first_len(s: Seq<Seq<char>>)
    ensures
        newest_first(s).len() == s.len(),
    decreases s.len(),
{
    if s.len() > 0 {
        lemma_newest_first_len(s.drop_last());
        lemma_insert_len(s.last(), newest_first(s.drop_last()));
    }
}

/// Inserts a name into a list kept newest first.
fn insert_sorted(sorted: &mut Vec<String>, name: String)
    ensures
        final(sorted).deep_view() == insert_newest_first(name@, old(sorted).deep_view()),
{
    let key = chars_of(name.as_str());
    let mut p: usize = 0;
    while p < sorted.len()
        invariant
            key@ == name@,
            p <= sorted@.len(),
            sorted == old(sorted),
            forall|k: int| 0 <= k < p ==> !lex_lt(#[trigger] sorted.deep_view()[k], name@),
        ensures
            p <= sorted@.len(),
            forall|k: int| 0 <= k < p ==> !lex_lt(#[trigger] sorted.deep_view()[k], name@),
            p < sorted@.len() ==> lex_lt(sorted.deep_view()[p as int], name@),
        decreases sorted@.len() - p,
    {
        let other = chars_of(sorted[p].as_str());
        if chars_lt(&other, &key) {
            break;
        }
        p = p + 1;
    }
    proof {
        lemma_insert_at(name@, sorted.deep_view(), p as int);
    }
    let ghost before = sorted.deep_view();
    sorted.insert(p, name);
    proof {
        assert(sorted.deep_view() =~= before.insert(p as int, name@)) by {
            assert forall|k: int| 0 <= k < sorted@.len() implies sorted.deep_view()[k] == before.insert(p as int, name@)[k] by {
                if k < p {
                } else if k == p {
                } else {
                }
            }
        }
    }
}

/// Rotate log files, keeping only the most recent ones: given the names of
/// the files in the log directory, the log files to delete, newest first.
pub fn rotate_logs(file_names: &Vec<String>, max_logs: usize) -> (removed: Vec<String>)
    ensures
        removed.deep_view() == rotated_out(file_names.deep_view(), max_logs as nat),
{
    let mut sorted: Vec<String> = Vec::new();
    let mut i: usize = 0;
    while i < file_names.len()
        invariant
            i <= file_names@.len(),
            sorted.deep_view() == newest_first(log_names(file_names.deep_view().take(i as int))),
        decreases file_names@.len() - i,
    {
        let name = &file_names[i];
        let ghost pre = file_names.deep_view().take(i as int);
        let ghost post = file_names.deep_view().take(i + 1);
        proof {
            assert(post.drop_last() =~= pre);
            assert(post.last() == name@);
        }
        if name.unicode_len() > 4 && ends_with(name.as_str(), ".log") {
            insert_sorted(&mut sorted, name.clone());
            proof {
                assert(log_names(post) == log_names(pre).push(name@));
                let lp = log_names(pre);
                assert(log_names(post).drop_last() =~= lp);
            }
        } else {
            proof {
                assert(log_names(post) == log_names(pre));
            }
        }
        i = i + 1;
    }
    proof {
        assert(file_names.deep_view().take(file_names@.len() as int) =~= file_names.deep_view());
    }
    let mut removed: Vec<String> = Vec::new();
    let mut k: usize = max_logs;
    while k < sorted.len()
        invariant
            max_logs <= k,
            sorted@.len() > max_logs ==> k <= sorted@.len(),
            sorted@.len() > max_logs ==> removed.deep_view() == sorted.deep_view().subrange(max_logs as int, k as int),
            sorted@.len() <= max_logs ==> removed@.len() == 0,
        decreases sorted@.len() - k,
    {
        removed.push(sorted[k].clone());
        proof {
            assert(removed.deep_view() =~= sorted.deep_view().subrange(max_logs as int, k + 1));
        }
        k = k + 1;
    }
    proof {
        if sorted@.len() > max_logs {
            assert(sorted.deep_view().subrange(max_logs as int, sorted@.len() as int) =~= sorted.deep_view().skip(
                max_logs as int,
            ));
        } else {
            assert(removed.deep_view() =~= Seq::<Seq<char>>::empty());
        }
    }
    removed
}

impl Logger {
    /// The log files to delete so that at most `max_logs` remain (see
    /// [`rotate_logs`]), given the names of the files in the log directory.
    pub fn rotate_logs(&self, file_names: &Vec<String>) -> (removed: Vec<String>)
        ensures
            removed.deep_view() == rotated_out(file_names.deep_view(), self.max_logs as nat),
    {
        rotate_logs(file_names, self.max_logs)
    }
}

/// Rotation deletes exactly the log files beyond the `max_logs` newest: as
/// many as there are log files over the limit, and none when the limit is
/// not exceeded.
pub proof fn lemma_rotation_count(names: Seq<Seq<char>>, max_logs: nat)
    ensures
        rotated_out(names, max_logs).len() == if log_names(names).len() > max_logs {
            log_names(names).len() - max_logs
        } else {
            0
        },
{
    lemma_newest_first_len(log_names(names));
}

/// Strict lexicographic order is transitive.
proof fn lemma_lex_lt_transitive(a: Seq<char>, b: Seq<char>, c: Seq<char>)
    requires
        lex_lt(a, b),
        lex_lt(b, c),
    ensures
        lex_lt(a, c),
    decreases a.len(),
{
    if a.len() > 0 && b.len() > 0 && c.len() > 0 && (a[0] as u32) == (b[0] as u32) && (b[0] as u32) == (c[0] as u32) {
        lemma_lex_lt_transitive(a.drop_first(), b.drop_first(), c.drop_first());
    }
}

proof fn lemma_lex_lt_irreflexive(a: Seq<char>)
    ensures
        !lex_lt(a, a),
    decreases a.len(),
{
    if a.len() > 0 {
        lemma_lex_lt_irreflexive(a.drop_first());
    }
}

/// Newest first: no name is older than a name after it.
pub open spec fn is_newest_first(s: Seq<Seq<char>>) -> bool {
    forall|i: int, j: int| 0 <= i < j < s.len() ==> !lex_lt(#[trigger] s[i], #[trigger] s[j])
}

proof fn lemma_insert_members(x: Seq<char>, s: Seq<Seq<char>>)
    ensures
        forall|k: int| 0 <= k < insert_newest_first(x, s).len() ==> #[trigger] insert_newest_first(x, s)[k] == x
            || s.contains(insert_newest_first(x, s)[k]),
    decreases s.len(),
{
    lemma_insert_len(x, s);
    if s.len() > 0 && !lex_lt(s[0], x) {
        let t = s.drop_first();
        lemma_insert_members(x, t);
        let r = insert_newest_first(x, s);
        assert forall|k: int| 0 <= k < r.len() implies #[trigger] r[k] == x || s.contains(r[k]) by {
            if k == 0 {
                assert(r[0] == s[0]);
            } else {
                assert(r[k] == insert_newest_first(x, t)[k - 1]);
                if r[k] != x {
                    let m = choose|m: int| 0 <= m < t.len() && t[m] == r[k];
                    assert(s[m + 1] == r[k]);
                }
            }
        }
    } else if s.len() > 0 {
        let r = insert_newest_first(x, s);
        assert forall|k: int| 0 <= k < r.len() implies #[trigger] r[k] == x || s.contains(r[k]) by {
            if k > 0 {
                assert(r[k] == s[k - 1]);
            }
        }
    }
}

proof fn lemma_insert_sorted(x: Seq<char>, s: Seq<Seq<char>>)
    requires
        is_newest_first(s),
    ensures
        is_newest_first(insert_newest_first(x, s)),
    decreases s.len(),
{
    lemma_insert_len(x, s);
    let r = insert_newest_first(x, s);
    if s.len() == 0 {
    } else if lex_lt(s[0], x) {
        assert forall|i: int, j: int| 0 <= i < j < r.len() implies !lex_lt(#[trigger] r[i], #[trigger] r[j]) by {
            assert(r == seq![x] + s);
            if i == 0 {
                assert(r[0] == x);
                assert(r[j] == s[j - 1]);
                if lex_lt(x, s[j - 1]) {
                    if j - 1 > 0 {
                        assert(!lex_lt(s[0], s[j - 1]));
                    }
                    lemma_lex_lt_transitive(s[0], x, s[j - 1]);
                    lemma_lex_lt_irreflexive(s[0]);
                }
            } else {
                assert(r[i] == s[i - 1] && r[j] == s[j - 1]);
            }
        }
    } else {
        let t = s.drop_first();
        assert(is_newest_first(t)) by {
            assert forall|i: int, j: int| 0 <= i < j < t.len() implies !lex_lt(#[trigger] t[i], #[trigger] t[j]) by {
                assert(t[i] == s[i + 1] && t[j] == s[j + 1]);
            }
        }
        lemma_insert_sorted(x, t);
        lemma_insert_members(x, t);
        let it = insert_newest_first(x, t);
        assert forall|i: int, j: int| 0 <= i < j < r.len() implies !lex_lt(#[trigger] r[i], #[trigger] r[j]) by {
            assert(r[j] == it[j - 1]);
            if i == 0 {
                assert(r[0] == s[0]);
                if it[j - 1] != x {
                    let m = choose|m: int| 0 <= m < t.len() && t[m] == it[j - 1];
                    assert(s[m + 1] == it[j - 1]);
                }
            } else {
                assert(r[i] == it[i - 1]);
            }
        }
    }
}

proof fn lemma_newest_first_sorted(s: Seq<Seq<char>>)
    ensures
        is_newest_first(newest_first(s)),
    decreases s.len(),
{
    if s.len() > 0 {
        lemma_newest_first_sorted(s.drop_last());
        lemma_insert_sorted(s.last(), newest_first(s.drop_last()));
    }
}

/// Rotation keeps the newest logs: no log file that stays is older than one
/// that is deleted.
pub proof fn lemma_rotation_keeps_newest(names: Seq<Seq<char>>, max_logs: nat, kept: Seq<char>, removed: Seq<char>)
    requires
        newest_first(log_names(names)).take(max_logs as int).contains(kept),
        rotated_out(names, max_logs).contains(removed),
    ensures
        !lex_lt(kept, removed),
{
    let sorted = newest_first(log_names(names));
    lemma_newest_first_sorted(log_names(names));
    let i = choose|i: int| 0 <= i < sorted.take(max_logs as int).len() && sorted.take(max_logs as int)[i] == kept;
    let j = choose|j: int| 0 <= j < rotated_out(names, max_logs).len() && rotated_out(names, max_logs)[j] == removed;
    assert(sorted.len() > max_logs);
    assert(sorted[i] == kept);
    assert(sorted[max_logs + j] == removed);
}

} // verus!
