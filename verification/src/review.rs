//! Interactive review of deployed files that were changed outside the tool.
//!
//! The review walks over the diverged files; for each one the user picks how
//! to resolve it, moves to the next or previous file, or quits. Once every
//! file has a resolution a summary is shown and the user applies it, reviews
//! again, or quits. The terminal work (printing, reading a key) is the
//! caller's; this module decides what is offered and what an answer means.

use vstd::prelude::*;
use vstd::string::StrSliceExecFns;
use crate::text::{decimal, push_char, push_decimal, push_str_chars, str_eq};

verus! {

/// Validation context for diverged file resolution.
#[derive(Debug, Clone, Copy, PartialEq, Eq, Structural)]
pub enum ValidationMode {
    Standalone,
    SyncPreflight,
}

/// User resolution choice for a diverged file.
#[derive(Debug, Clone, Copy, PartialEq, Eq, Structural)]
pub enum Resolution {
    KeepSource,
    KeepDeployed,
    Merge,
    Skip,
}

/// Answer to the prompt shown for one file.
#[derive(Debug, Clone, Copy, PartialEq, Eq, Structural)]
pub enum ReviewAction {
    Resolve(Resolution),
    Next,
    Previous,
    Quit,
}

/// Answer to the summary prompt.
#[derive(Debug, Clone, Copy, PartialEq, Eq, Structural)]
pub enum SummaryAction {
    Apply,
    ReviewAgain,
    Quit,
}

/// Keys accepted for a file that can be resolved from its source.
pub fn review_options(include_merge: bool, total: usize) -> (v: Vec<char>)
    ensures
        v@ == seq!['s', 'd', 'k', 'q'] + (if include_merge { seq!['m'] } else { Seq::empty() }) + (if total > 1 {
            seq!['n', 'p']
        } else {
            Seq::empty()
        }),
{
    let mut options = vec!['s', 'd', 'k', 'q'];
    if include_merge {
        options.push('m');
    }
    if total > 1 {
        options.push('n');
        options.push('p');
    }
    proof {
        let base = seq!['s', 'd', 'k', 'q'];
        let m: Seq<char> = if include_merge { seq!['m'] } else { Seq::empty() };
        let np: Seq<char> = if total > 1 { seq!['n', 'p'] } else { Seq::empty() };
        assert(options@ =~= base + m + np);
    }
    options
}

/// Keys accepted for a file that can only be skipped.
pub fn skip_review_options(total: usize) -> (v: Vec<char>)
    ensures
        v@ == seq!['k', 'q'] + (if total > 1 { seq!['n', 'p'] } else { Seq::empty() }),
{
    let mut options = vec!['k', 'q'];
    if total > 1 {
        options.push('n');
        options.push('p');
    }
    proof {
        let np: Seq<char> = if total > 1 { seq!['n', 'p'] } else { Seq::empty() };
        assert(options@ =~= seq!['k', 'q'] + np);
    }
    options
}

/// The file after `index`, wrapping around.
pub fn next_review_index(index: usize, total: usize) -> (r: usize)
    requires
        total > 0,
        index < usize::MAX,
    ensures
        r == ((index + 1) as int) % (total as int),
        r < total,
{
    (index + 1) % total
}

/// The file before `index`, wrapping around.
pub fn previous_review_index(index: usize, total: usize) -> (r: usize)
    requires
        index == 0 ==> total > 0,
    ensures
        index == 0 ==> r == total - 1,
        index > 0 ==> r == index - 1,
{
    if index == 0 {
        total - 1
    } else {
        index - 1
    }
}

/// The text shown for a resolution.
pub open spec fn resolution_label_spec(resolution: Option<Resolution>, mode: ValidationMode) -> Seq<char> {
    match resolution {
        Some(Resolution::KeepSource) => "source -> deployed"@,
        Some(Resolution::KeepDeployed) => "deployed -> source"@,
        Some(Resolution::Merge) => "merge"@,
        Some(Resolution::Skip) => match mode {
            ValidationMode::Standalone => "skip"@,
            ValidationMode::SyncPreflight => "skip — sync will overwrite deployed"@,
        },
        None => "pending"@,
    }
}

/// Describes a resolution, or its absence, for the user.
pub fn resolution_label(resolution: Option<Resolution>, mode: ValidationMode) -> (s: &'static str)
    ensures
        s@ == resolution_label_spec(resolution, mode),
{
    match resolution {
        Some(Resolution::KeepSource) => "source -> deployed",
        Some(Resolution::KeepDeployed) => "deployed -> source",
        Some(Resolution::Merge) => "merge",
        Some(Resolution::Skip) => match mode {
            ValidationMode::Standalone => "skip",
            ValidationMode::SyncPreflight => "skip — sync will overwrite deployed",
        },
        None => "pending",
    }
}

/// How many leading bytes are examined for binary content.
pub const BINARY_PROBE_LEN: usize = 8192;

/// Binary content has a zero byte among its first 8192 bytes.
pub open spec fn is_binary_spec(bytes: Seq<u8>) -> bool {
    exists|i: int| 0 <= i < bytes.len() && i < BINARY_PROBE_LEN && bytes[i] == 0
}

/// Check if content appears to be binary by looking for null bytes in the first 8192 bytes.
pub fn is_binary_content(bytes: &[u8]) -> (b: bool)
    ensures
        b == is_binary_spec(bytes@),
{
    let check_len = if bytes.len() < BINARY_PROBE_LEN {
        bytes.len()
    } else {
        BINARY_PROBE_LEN
    };
    let mut i: usize = 0;
    while i < check_len
        invariant
            check_len <= bytes@.len(),
            check_len <= BINARY_PROBE_LEN,
            check_len == bytes@.len() || check_len == BINARY_PROBE_LEN,
            i <= check_len,
            forall|k: int| 0 <= k < i ==> bytes@[k] != 0,
        decreases check_len - i,
    {
        if bytes[i] == 0 {
            return true;
        }
        i = i + 1;
    }
    false
}

/// `n` spaces.
pub open spec fn spaces(n: nat) -> Seq<char> {
    Seq::new(n, |i: int| ' ')
}

/// The line-number column of a diff: four blanks for a line that the side
/// does not have, else the line's number (counted from one) left-aligned in
/// four columns.
pub open spec fn line_label_spec(line: Option<usize>) -> Seq<char> {
    match line {
        None => spaces(4),
        Some(i) => {
            let d = decimal((i + 1) as nat);
            d + spaces(if d.len() < 4 { (4 - d.len()) as nat } else { 0 })
        },
    }
}

/// The line-number column of a diff (see [`line_label_spec`]).
pub fn line_label(line: Option<usize>) -> (s: String)
    requires
        line matches Some(i) ==> i < usize::MAX,
    ensures
        s@ == line_label_spec(line),
{
    let mut s = String::new();
    match line {
        None => {
            let mut k: usize = 0;
            while k < 4
                invariant
                    k <= 4,
                    s@ == spaces(k as nat),
                decreases 4 - k,
            {
                push_char(&mut s, ' ');
                k = k + 1;
                assert(s@ =~= spaces(k as nat));
            }
        },
        Some(i) => {
            let n: u64 = (i + 1) as u64;
            push_decimal(&mut s, n);
            let ghost d = decimal((i + 1) as nat);
            assert(s@ =~= d);
            let ghost dl = d.len();
            let mut count: usize = s.as_str().unicode_len();
            while count < 4
                invariant
                    s@.len() == count,
                    dl <= count,
                    count <= 4 || count == dl,
                    s@ =~= d + spaces((count - dl) as nat),
                decreases 4 - count,
            {
                push_char(&mut s, ' ');
                count = count + 1;
                assert(s@ =~= d + spaces((count - dl) as nat));
            }
        },
    }
    s
}

/// Wraps `value` in the terminal escape sequence for the style `code`.
pub fn ansi(code: &str, value: &str) -> (s: String)
    ensures
        s@ == "\x1b["@ + code@ + "m"@ + value@ + "\x1b[0m"@,
{
    let mut s = String::new();
    s.append("\x1b[");
    s.append(code);
    s.append("m");
    s.append(value);
    s.append("\x1b[0m");
    proof {
        assert(s@ =~= "\x1b["@ + code@ + "m"@ + value@ + "\x1b[0m"@);
    }
    s
}

/// A source copy can be restored from or merged with only for copied files that know their source.
pub fn offers_source(has_source_path: bool, operation: &str) -> (b: bool)
    ensures
        b == (has_source_path && operation@ == "copy"@),
{
    has_source_path && crate::text::str_eq(operation, "copy")
}

/// The prompt text and the keys accepted for one diverged file.
pub open spec fn review_prompt_spec(has_source: bool, is_binary: bool, total: usize, mode: ValidationMode) -> Seq<char> {
    let navigation = if total > 1 { " | [n]ext | [p]revious"@ } else { ""@ };
    let source_action = match mode {
        ValidationMode::Standalone => "overwrite deployed"@,
        ValidationMode::SyncPreflight => "overwrite deployed now"@,
    };
    let skip_action = match mode {
        ValidationMode::Standalone => ""@,
        ValidationMode::SyncPreflight => " (overwrite during sync)"@,
    };
    if has_source && is_binary {
        "  [s]ource ("@ + source_action + ") | [d]eployed (overwrite source) | s[k]ip"@ + skip_action + navigation
            + " | [q]uit?"@
    } else if has_source {
        "  [s]ource ("@ + source_action + ") | [d]eployed (overwrite source) | [m]erge | s[k]ip"@ + skip_action
            + navigation + " | [q]uit?"@
    } else {
        "  s[k]ip"@ + skip_action + navigation + " | [q]uit?"@
    }
}

/// Keys accepted for one diverged file.
pub open spec fn review_keys_spec(has_source: bool, is_binary: bool, total: usize) -> Seq<char> {
    let np: Seq<char> = if total > 1 { seq!['n', 'p'] } else { Seq::empty() };
    if has_source {
        seq!['s', 'd', 'k', 'q'] + (if is_binary { Seq::empty() } else { seq!['m'] }) + np
    } else {
        seq!['k', 'q'] + np
    }
}

/// Builds the question asked for one diverged file and the keys it accepts.
pub fn review_prompt(has_source: bool, is_binary: bool, total: usize, mode: ValidationMode) -> (r: (
    String,
    Vec<char>,
))
    ensures
        r.0@ == review_prompt_spec(has_source, is_binary, total, mode),
        r.1@ == review_keys_spec(has_source, is_binary, total),
{
    let navigation = if total > 1 {
        " | [n]ext | [p]revious"
    } else {
        ""
    };
    let source_action = match mode {
        ValidationMode::Standalone => "overwrite deployed",
        ValidationMode::SyncPreflight => "overwrite deployed now",
    };
    let skip_action = match mode {
        ValidationMode::Standalone => "",
        ValidationMode::SyncPreflight => " (overwrite during sync)",
    };
    let mut prompt = String::new();
    let keys;
    if has_source {
        prompt.append("  [s]ource (");
        prompt.append(source_action);
        if is_binary {
            prompt.append(") | [d]eployed (overwrite source) | s[k]ip");
        } else {
            prompt.append(") | [d]eployed (overwrite source) | [m]erge | s[k]ip");
        }
        keys = review_options(!is_binary, total);
    } else {
        prompt.append("  s[k]ip");
        keys = skip_review_options(total);
    }
    prompt.append(skip_action);
    prompt.append(navigation);
    prompt.append(" | [q]uit?");
    proof {
        let np: Seq<char> = if total > 1 { seq!['n', 'p'] } else { Seq::empty() };
        if has_source {
            if is_binary {
                assert(keys@ =~= seq!['s', 'd', 'k', 'q'] + Seq::<char>::empty() + np);
            }
        }
        assert(prompt@ =~= review_prompt_spec(has_source, is_binary, total, mode));
    }
    (prompt, keys)
}

/// What a key pressed at the file prompt means. Keys that are not offered
/// count as skipping the file.
pub open spec fn review_action_spec(choice: char, has_source: bool, is_binary: bool) -> ReviewAction {
    if choice == 'n' {
        ReviewAction::Next
    } else if choice == 'p' {
        ReviewAction::Previous
    } else if choice == 'q' {
        ReviewAction::Quit
    } else if has_source && choice == 's' {
        ReviewAction::Resolve(Resolution::KeepSource)
    } else if has_source && choice == 'd' {
        ReviewAction::Resolve(Resolution::KeepDeployed)
    } else if has_source && !is_binary && choice == 'm' {
        ReviewAction::Resolve(Resolution::Merge)
    } else {
        ReviewAction::Resolve(Resolution::Skip)
    }
}

/// Interprets the key chosen for one file.
pub fn review_action_for(choice: char, has_source: bool, is_binary: bool) -> (a: ReviewAction)
    ensures
        a == review_action_spec(choice, has_source, is_binary),
{
    if choice == 'n' {
        ReviewAction::Next
    } else if choice == 'p' {
        ReviewAction::Previous
    } else if choice == 'q' {
        ReviewAction::Quit
    } else if has_source && choice == 's' {
        ReviewAction::Resolve(Resolution::KeepSource)
    } else if has_source && choice == 'd' {
        ReviewAction::Resolve(Resolution::KeepDeployed)
    } else if has_source && !is_binary && choice == 'm' {
        ReviewAction::Resolve(Resolution::Merge)
    } else {
        ReviewAction::Resolve(Resolution::Skip)
    }
}

/// Each key at the file prompt means what the prompt says. With a source,
/// `s` keeps the source (overwriting the deployed file) and `d` keeps the
/// deployed file (overwriting the source), so the two never agree; `m`
/// merges a text file; `k` skips; `n`, `p` and `q` move to the next or
/// previous file or quit, whatever the file. Without a source, only skipping
/// and moving are possible.
pub proof fn lemma_review_keys(has_source: bool, is_binary: bool, other: char)
    ensures
        review_action_spec('s', true, is_binary) == ReviewAction::Resolve(Resolution::KeepSource),
        review_action_spec('d', true, is_binary) == ReviewAction::Resolve(Resolution::KeepDeployed),
        review_action_spec('s', true, is_binary) != review_action_spec('d', true, is_binary),
        review_action_spec('m', true, false) == ReviewAction::Resolve(Resolution::Merge),
        review_action_spec('k', has_source, is_binary) == ReviewAction::Resolve(Resolution::Skip),
        review_action_spec('n', has_source, is_binary) == ReviewAction::Next,
        review_action_spec('p', has_source, is_binary) == ReviewAction::Previous,
        review_action_spec('q', has_source, is_binary) == ReviewAction::Quit,
        !has_source ==> (review_action_spec(other, has_source, is_binary) is Resolve ==> review_action_spec(
            other,
            has_source,
            is_binary,
        ) == ReviewAction::Resolve(Resolution::Skip)),
        is_binary ==> review_action_spec('m', has_source, is_binary) == ReviewAction::Resolve(Resolution::Skip),
{
}

/// The question asked once every file has a resolution.
pub open spec fn summary_prompt_spec(mode: ValidationMode) -> Seq<char> {
    match mode {
        ValidationMode::Standalone => "\n  [a]pply | [r]eview again | [q]uit without changes?"@,
        ValidationMode::SyncPreflight => "\n  [a]pply resolutions and continue sync | [r]eview again | [q]uit without changes?"@,
    }
}

/// The summary question for the given mode.
pub fn summary_prompt(mode: ValidationMode) -> (s: &'static str)
    ensures
        s@ == summary_prompt_spec(mode),
{
    match mode {
        ValidationMode::Standalone => "\n  [a]pply | [r]eview again | [q]uit without changes?",
        ValidationMode::SyncPreflight => "\n  [a]pply resolutions and continue sync | [r]eview again | [q]uit without changes?",
    }
}

/// What a key pressed at the summary prompt means; anything else quits.
pub fn summary_action_for(choice: char) -> (a: SummaryAction)
    ensures
        choice == 'a' ==> a == SummaryAction::Apply,
        choice == 'r' ==> a == SummaryAction::ReviewAgain,
        choice != 'a' && choice != 'r' ==> a == SummaryAction::Quit,
{
    if choice == 'a' {
        SummaryAction::Apply
    } else if choice == 'r' {
        SummaryAction::ReviewAgain
    } else {
        SummaryAction::Quit
    }
}

/// One line of the summary: the target and its resolution.
pub fn summary_line(target: &str, resolution: Option<Resolution>, mode: ValidationMode) -> (s: String)
    ensures
        s@ == "  "@ + target@ + "  "@ + resolution_label_spec(resolution, mode),
{
    let mut s = String::new();
    s.append("  ");
    s.append(target);
    s.append("  ");
    s.append(resolution_label(resolution, mode));
    proof {
        assert(s@ =~= "  "@ + target@ + "  "@ + resolution_label_spec(resolution, mode));
    }
    s
}

/// What to do with the diverged files before any review.
#[derive(Debug, Clone, Copy, PartialEq, Eq, Structural)]
pub enum Preflight {
    /// Nothing diverged.
    InSync,
    /// The sync was forced: the diverged files are overwritten without asking.
    Overwrite,
    /// Ask the user about each file.
    Review,
}

/// Decides whether the diverged files need a review.
pub fn preflight(diverged: usize, force: bool, mode: ValidationMode) -> (p: Preflight)
    ensures
        diverged == 0 ==> p == Preflight::InSync,
        diverged > 0 && force && mode == ValidationMode::SyncPreflight ==> p == Preflight::Overwrite,
        diverged > 0 && !(force && mode == ValidationMode::SyncPreflight) ==> p == Preflight::Review,
{
    if diverged == 0 {
        Preflight::InSync
    } else if force && mode == ValidationMode::SyncPreflight {
        Preflight::Overwrite
    } else {
        Preflight::Review
    }
}

/// What happens after an answer at the file prompt.
#[derive(Debug, Clone, Copy, PartialEq, Eq, Structural)]
pub enum ReviewOutcome {
    /// Show the file at the (possibly new) current index.
    Continue,
    /// Every file has a resolution: show the summary.
    Summary,
    /// The user quit; nothing is applied.
    Quit,
}

/// What happens after an answer at the summary prompt.
#[derive(Debug)]
pub enum SummaryOutcome {
    /// Apply these resolutions, one per file in order.
    Apply(Vec<Resolution>),
    /// Start over at the first file.
    Continue,
    /// The user quit; nothing is applied.
    Quit,
}

/// The progress of a review.
pub struct Review {
    resolutions: Vec<Option<Resolution>>,
    index: usize,
}

/// Every file has a resolution.
pub open spec fn all_resolved(rs: Seq<Option<Resolution>>) -> bool {
    forall|i: int| 0 <= i < rs.len() ==> (#[trigger] rs[i]) is Some
}

impl Review {
    /// Resolutions chosen so far, one per file.
    pub closed spec fn resolutions(self) -> Seq<Option<Resolution>> {
        self.resolutions@
    }

    /// The file under review.
    pub closed spec fn index(self) -> nat {
        self.index as nat
    }

    /// The review is in a usable state: the current file exists.
    pub open spec fn wf(self) -> bool {
        self.index() < self.resolutions().len()
    }

    /// Starts reviewing `total` files at the first one, none resolved.
    pub fn new(total: usize) -> (r: Self)
        requires
            total > 0,
        ensures
            r.wf(),
            r.index() == 0,
            r.resolutions() == Seq::new(total as nat, |i: int| None::<Resolution>),
    {
        let mut resolutions: Vec<Option<Resolution>> = Vec::new();
        let mut i: usize = 0;
        while i < total
            invariant
                i <= total,
                resolutions@ == Seq::new(i as nat, |k: int| None::<Resolution>),
            decreases total - i,
        {
            resolutions.push(None);
            i = i + 1;
            assert(resolutions@ =~= Seq::new(i as nat, |k: int| None::<Resolution>));
        }
        Review { resolutions, index: 0 }
    }

    /// The file under review.
    pub fn current(&self) -> (i: usize)
        ensures
            i == self.index(),
    {
        self.index
    }

    /// The resolutions chosen so far, one per file.
    pub fn chosen(&self) -> (v: Vec<Option<Resolution>>)
        ensures
            v@ == self.resolutions(),
    {
        let mut v: Vec<Option<Resolution>> = Vec::new();
        let mut i: usize = 0;
        while i < self.resolutions.len()
            invariant
                i <= self.resolutions@.len(),
                v@ == self.resolutions@.take(i as int),
            decreases self.resolutions@.len() - i,
        {
            v.push(self.resolutions[i]);
            i = i + 1;
            assert(v@ =~= self.resolutions@.take(i as int));
        }
        assert(self.resolutions@.take(i as int) =~= self.resolutions@);
        v
    }

    /// The resolution recorded for the file under review.
    pub fn current_resolution(&self) -> (r: Option<Resolution>)
        requires
            self.wf(),
        ensures
            r == self.resolutions()[self.index() as int],
    {
        self.resolutions[self.index]
    }

    /// Applies the answer given at the file prompt.
    pub fn answer(&mut self, action: ReviewAction) -> (o: ReviewOutcome)
        requires
            old(self).wf(),
        ensures
            final(self).wf(),
            final(self).resolutions().len() == old(self).resolutions().len(),
            action is Quit ==> o == ReviewOutcome::Quit && *final(self) == *old(self),
            action is Next ==> o == ReviewOutcome::Continue && final(self).resolutions() == old(self).resolutions()
                && final(self).index() == ((old(self).index() + 1) as int) % (old(self).resolutions().len() as int),
            action is Previous ==> o == ReviewOutcome::Continue && final(self).resolutions() == old(self).resolutions()
                && final(self).index() == (if old(self).index() == 0 {
                old(self).resolutions().len() - 1
            } else {
                old(self).index() - 1
            }),
            action matches ReviewAction::Resolve(r) ==> {
                &&& final(self).resolutions() == old(self).resolutions().update(old(self).index() as int, Some(r))
                &&& all_resolved(final(self).resolutions()) ==> o == ReviewOutcome::Summary && final(self).index()
                    == old(self).index()
                &&& !all_resolved(final(self).resolutions()) ==> o == ReviewOutcome::Continue && final(self).index()
                    == ((old(self).index() + 1) as int) % (old(self).resolutions().len() as int)
            },
    {
        let total = self.resolutions.len();
        match action {
            ReviewAction::Resolve(resolution) => {
                self.resolutions.set(self.index, Some(resolution));
                if self.all_some() {
                    ReviewOutcome::Summary
                } else {
                    self.index = next_review_index(self.index, total);
                    ReviewOutcome::Continue
                }
            },
            ReviewAction::Next => {
                self.index = next_review_index(self.index, total);
                ReviewOutcome::Continue
            },
            ReviewAction::Previous => {
                self.index = previous_review_index(self.index, total);
                ReviewOutcome::Continue
            },
            ReviewAction::Quit => ReviewOutcome::Quit,
        }
    }

    fn all_some(&self) -> (b: bool)
        ensures
            b == all_resolved(self.resolutions()),
    {
        let mut i: usize = 0;
        while i < self.resolutions.len()
            invariant
                i <= self.resolutions@.len(),
                forall|k: int| 0 <= k < i ==> (#[trigger] self.resolutions@[k]) is Some,
            decreases self.resolutions@.len() - i,
        {
            if self.resolutions[i].is_none() {
                return false;
            }
            i = i + 1;
        }
        true
    }

    /// Applies the answer given at the summary prompt. `Apply` hands out the
    /// chosen resolutions only once every file has one; otherwise the review
    /// goes on.
    pub fn answer_summary(&mut self, action: SummaryAction) -> (o: SummaryOutcome)
        requires
            old(self).wf(),
        ensures
            final(self).wf(),
            final(self).resolutions() == old(self).resolutions(),
            action is Quit ==> o is Quit && final(self).index() == old(self).index(),
            action is ReviewAgain ==> o is Continue && final(self).index() == 0,
            action is Apply && all_resolved(old(self).resolutions()) ==> (o matches SummaryOutcome::Apply(v) && v@.len()
                == old(self).resolutions().len() && forall|i: int|
                0 <= i < v@.len() ==> old(self).resolutions()[i] == Some(#[trigger] v@[i])),
            action is Apply && !all_resolved(old(self).resolutions()) ==> o is Continue && final(self).index()
                == old(self).index(),
    {
        match action {
            SummaryAction::Apply => {
                if self.all_some() {
                    let mut v: Vec<Resolution> = Vec::new();
                    let mut i: usize = 0;
                    while i < self.resolutions.len()
                        invariant
                            i <= self.resolutions@.len(),
                            all_resolved(self.resolutions@),
                            v@.len() == i,
                            forall|k: int| 0 <= k < i ==> self.resolutions@[k] == Some(#[trigger] v@[k]),
                        decreases self.resolutions@.len() - i,
                    {
                        let r = self.resolutions[i];
                        assert(self.resolutions@[i as int] is Some);
                        v.push(r.unwrap());
                        i = i + 1;
                    }
                    SummaryOutcome::Apply(v)
                } else {
                    SummaryOutcome::Continue
                }
            },
            SummaryAction::ReviewAgain => {
                self.index = 0;
                SummaryOutcome::Continue
            },
            SummaryAction::Quit => SummaryOutcome::Quit,
        }
    }
}

/// The review never leaves the list of files: whatever is answered, the
/// current file stays one of the files under review.
pub proof fn lemma_review_index_in_range(total: nat, index: nat)
    requires
        index < total,
    ensures
        ((index + 1) as int) % (total as int) < total,
        index == 0 ==> total - 1 < total,
        index > 0 ==> index - 1 < total,
{
}

/// Moving to the next file and back returns to the same file.
pub proof fn lemma_next_then_previous(total: nat, index: nat)
    requires
        index < total,
    ensures
        ({
            let n = ((index + 1) as int) % (total as int);
            (if n == 0 { total - 1 } else { n - 1 }) == index
        }),
{
    if index + 1 < total {
        assert(((index + 1) as int) % (total as int) == index + 1) by (nonlinear_arith)
            requires index + 1 < total;
    } else {
        assert(((index + 1) as int) % (total as int) == 0) by (nonlinear_arith)
            requires index + 1 == total, total > 0;
    }
}

/// Whether a deployed file is checked for changes made outside the tool:
/// links never are, nor files outside the files asked about, nor targets
/// that are gone or have no recorded checksum.
pub fn checks_divergence(operation: &str, in_scope: bool, target_exists: bool, recorded_checksum: &Option<String>) -> (b: bool)
    ensures
        b == (operation@ != "link"@ && in_scope && target_exists && recorded_checksum is Some),
{
    !str_eq(operation, "link") && in_scope && target_exists && recorded_checksum.is_some()
}

/// The merge tool: `$MERGE_TOOL`, else `$EDITOR`, else `vimdiff`.
pub fn merge_tool(merge_tool_var: Option<String>, editor_var: Option<String>) -> (t: String)
    ensures
        t@ == match merge_tool_var {
            Some(m) => m@,
            None => match editor_var {
                Some(e) => e@,
                None => "vimdiff"@,
            },
        },
{
    match merge_tool_var {
        Some(m) => m,
        None => match editor_var {
            Some(e) => e,
            None => "vimdiff".to_string(),
        },
    }
}

/// The unified line diff of two texts with the given headers, as the
/// `similar` crate writes it.
pub uninterp spec fn unified_line_diff(old: Seq<char>, new: Seq<char>, old_header: Seq<char>, new_header: Seq<char>) -> Seq<char>;

/// Trusted: `similar::TextDiff::from_lines(old, new)` (without a deadline,
/// so its result depends on the texts alone), written with
/// `unified_diff().header(old_header, new_header)`. The diff is named, not
/// stated.
#[verifier::external_body]
fn unified_diff(old: &str, new: &str, old_header: &str, new_header: &str) -> (r: String)
    ensures
        r@ == unified_line_diff(old@, new@, old_header@, new_header@),
{
    similar::TextDiff::from_lines(old, new).unified_diff().header(old_header, new_header).to_string()
}

/// How the difference between a source and its deployed target is shown.
#[derive(Debug)]
pub enum DiffOutput {
    /// Same content: only metadata may differ.
    Identical,
    /// Coloured, inline, with these headers.
    Colored { old_header: String, new_header: String },
    /// This unified diff.
    Unified(String),
}

/// The headers of a diff: the source and the deployed target.
pub open spec fn diff_headers(source_label: Seq<char>, target_label: Seq<char>) -> (Seq<char>, Seq<char>) {
    ("source: "@ + source_label, "deployed: "@ + target_label)
}

/// How to show the difference between a source and its deployed target:
/// nothing but a note when the contents are equal, a coloured inline diff
/// when the terminal takes colour, else a unified diff.
pub fn diff_output(source: &str, target: &str, source_label: &str, target_label: &str, color: bool) -> (d: DiffOutput)
    ensures
        source@ == target@ ==> d is Identical,
        source@ != target@ && color ==> (d matches DiffOutput::Colored { old_header, new_header } && (old_header@, new_header@)
            == diff_headers(source_label@, target_label@)),
        source@ != target@ && !color ==> (d matches DiffOutput::Unified(text) && text@ == unified_line_diff(
            source@,
            target@,
            diff_headers(source_label@, target_label@).0,
            diff_headers(source_label@, target_label@).1,
        )),
{
    if str_eq(source, target) {
        return DiffOutput::Identical;
    }
    let mut old_header = String::new();
    push_str_chars(&mut old_header, "source: ");
    push_str_chars(&mut old_header, source_label);
    let mut new_header = String::new();
    push_str_chars(&mut new_header, "deployed: ");
    push_str_chars(&mut new_header, target_label);
    if color {
        DiffOutput::Colored { old_header, new_header }
    } else {
        DiffOutput::Unified(unified_diff(source, target, old_header.as_str(), new_header.as_str()))
    }
}

} // verus!
