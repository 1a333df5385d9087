//! Command-line decisions: which sync components a request names, and the
//! state of a pair of on/off flags given the raw arguments.

use vstd::prelude::*;
use crate::text::{chars_of, push_str_chars, str_eq, string_from_chars};

verus! {

/// The parts of a module a sync works on.
#[derive(Clone, Copy, Debug, PartialEq, Eq, Structural)]
pub enum SyncComponent {
    Files,
    Tasks,
    Packages,
    All,
}

/// The lower-case form of a string, as `str::to_lowercase` computes it.
pub uninterp spec fn lowercase(s: Seq<char>) -> Seq<char>;

/// Trusted: `str::to_lowercase`. Its result is the Unicode lower-case
/// mapping of the argument and depends on nothing else; that mapping is not
/// written out here.
#[verifier::external_body]
pub(crate) fn to_lowercase(s: &str) -> (r: String)
    ensures
        r@ == lowercase(s@),
{
    s.to_lowercase()
}

/// The component named by an already lower-cased word.
pub open spec fn component_named(word: Seq<char>) -> Option<SyncComponent> {
    if word == "files"@ {
        Some(SyncComponent::Files)
    } else if word == "tasks"@ {
        Some(SyncComponent::Tasks)
    } else if word == "packages"@ {
        Some(SyncComponent::Packages)
    } else if word == "all"@ {
        Some(SyncComponent::All)
    } else {
        None
    }
}

impl SyncComponent {
    /// Whether this is [`SyncComponent::All`].
    pub fn is_all(&self) -> (b: bool)
        ensures
            b == (*self is All),
    {
        matches!(self, SyncComponent::All)
    }

    /// Whether this is [`SyncComponent::Packages`].
    pub fn is_packages(&self) -> (b: bool)
        ensures
            b == (*self is Packages),
    {
        matches!(self, SyncComponent::Packages)
    }

    /// Whether this is [`SyncComponent::Tasks`].
    pub fn is_tasks(&self) -> (b: bool)
        ensures
            b == (*self is Tasks),
    {
        matches!(self, SyncComponent::Tasks)
    }

    /// Whether this is [`SyncComponent::Files`].
    pub fn is_files(&self) -> (b: bool)
        ensures
            b == (*self is Files),
    {
        matches!(self, SyncComponent::Files)
    }

    /// The component named by `word` once lower-cased; the error names the
    /// word as given.
    pub fn from_lowercase(word: &str, given: &str) -> (r: Result<SyncComponent, String>)
        ensures
            match component_named(word@) {
                Some(c) => r == Ok::<SyncComponent, String>(c),
                None => r matches Err(e) && e@ == "Unknown sync component: "@ + given@,
            },
    {
        if str_eq(word, "files") {
            Ok(SyncComponent::Files)
        } else if str_eq(word, "tasks") {
            Ok(SyncComponent::Tasks)
        } else if str_eq(word, "packages") {
            Ok(SyncComponent::Packages)
        } else if str_eq(word, "all") {
            Ok(SyncComponent::All)
        } else {
            let mut e = String::new();
            push_str_chars(&mut e, "Unknown sync component: ");
            push_str_chars(&mut e, given);
            Err(e)
        }
    }

    /// Parses a component name, ignoring case.
    pub fn parse(s: &str) -> (r: Result<SyncComponent, String>)
        ensures
            match component_named(lowercase(s@)) {
                Some(c) => r == Ok::<SyncComponent, String>(c),
                None => r matches Err(e) && e@ == "Unknown sync component: "@ + s@,
            },
    {
        let lower = to_lowercase(s);
        SyncComponent::from_lowercase(lower.as_str(), s)
    }
}

impl std::str::FromStr for SyncComponent {
    type Err = String;

    fn from_str(s: &str) -> (r: Result<SyncComponent, String>)
        ensures
            match component_named(lowercase(s@)) {
                Some(c) => r == Ok::<SyncComponent, String>(c),
                None => r matches Err(e) && e@ == "Unknown sync component: "@ + s@,
            },
    {
        SyncComponent::parse(s)
    }
}

/// Which parts a sync works on, given the components requested.
#[derive(Debug)]
pub struct SyncSelection {
    pub files: bool,
    pub tasks: bool,
    pub packages: bool,
}

/// Whether a sync shows the modules' messages: when it syncs everything
/// (`all`), or when asked to with `--show-messages`.
pub fn messages_shown(show_messages: bool, components: &Vec<SyncComponent>) -> (b: bool)
    ensures
        b == (show_messages || components@.contains(SyncComponent::All)),
{
    let mut all = false;
    let mut i: usize = 0;
    while i < components.len()
        invariant
            i <= components@.len(),
            all == exists|k: int| 0 <= k < i && #[trigger] components@[k] == SyncComponent::All,
        decreases components@.len() - i,
    {
        if components[i].is_all() {
            all = true;
        }
        i = i + 1;
    }
    show_messages || all
}

/// `All` or the component itself was requested.
pub open spec fn requests(components: Seq<SyncComponent>, c: SyncComponent) -> bool {
    exists|i: int| 0 <= i < components.len() && (#[trigger] components[i] == c || components[i] == SyncComponent::All)
}

/// The parts a sync works on: each that is requested by name or by `All`.
pub fn sync_selection(components: &Vec<SyncComponent>) -> (s: SyncSelection)
    ensures
        s.files == requests(components@, SyncComponent::Files),
        s.tasks == requests(components@, SyncComponent::Tasks),
        s.packages == requests(components@, SyncComponent::Packages),
{
    let mut s = SyncSelection { files: false, tasks: false, packages: false };
    let mut i: usize = 0;
    while i < components.len()
        invariant
            i <= components@.len(),
            s.files == exists|k: int| 0 <= k < i && (#[trigger] components@[k] == SyncComponent::Files || components@[k] == SyncComponent::All),
            s.tasks == exists|k: int| 0 <= k < i && (#[trigger] components@[k] == SyncComponent::Tasks || components@[k] == SyncComponent::All),
            s.packages == exists|k: int| 0 <= k < i && (#[trigger] components@[k] == SyncComponent::Packages || components@[k] == SyncComponent::All),
        decreases components@.len() - i,
    {
        let c = components[i];
        if c.is_files() || c.is_all() {
            s.files = true;
        }
        if c.is_tasks() || c.is_all() {
            s.tasks = true;
        }
        if c.is_packages() || c.is_all() {
            s.packages = true;
        }
        i = i + 1;
    }
    s
}

/// A sync of `all` works on every part (files, tasks, packages), as a
/// deployment, which names the three, does.
pub proof fn lemma_sync_all_is_deploy(c: SyncComponent)
    requires
        c != SyncComponent::All,
    ensures
        requests(seq![SyncComponent::All], c),
        requests(seq![SyncComponent::Files, SyncComponent::Tasks, SyncComponent::Packages], c),
{
    let all = seq![SyncComponent::All];
    let parts = seq![SyncComponent::Files, SyncComponent::Tasks, SyncComponent::Packages];
    assert(all[0] == SyncComponent::All);
    if c == SyncComponent::Files {
        assert(parts[0] == c);
    } else if c == SyncComponent::Tasks {
        assert(parts[1] == c);
    } else if c == SyncComponent::Packages {
        assert(parts[2] == c);
    }
}

/// The command-line spelling of a flag: `--`, then the name with `_` as `-`.
pub open spec fn dashed(name: Seq<char>) -> Seq<char> {
    "--"@ + name.map_values(|c: char| if c == '_' { '-' } else { c })
}

/// The command-line spelling of a flag name.
pub fn dashed_flag(name: &str) -> (r: String)
    ensures
        r@ == dashed(name@),
{
    let cs = chars_of(name);
    let mut out: Vec<char> = Vec::new();
    out.push('-');
    out.push('-');
    proof {
        reveal_strlit("--");
        assert(out@ =~= "--"@ + cs@.take(0).map_values(|c: char| if c == '_' { '-' } else { c }));
    }
    let mut i: usize = 0;
    while i < cs.len()
        invariant
            cs@ == name@,
            i <= cs@.len(),
            out@ == "--"@ + cs@.take(i as int).map_values(|c: char| if c == '_' { '-' } else { c }),
        decreases cs@.len() - i,
    {
        proof { reveal_strlit("--"); }
        let c = cs[i];
        out.push(if c == '_' { '-' } else { c });
        i = i + 1;
        assert(out@ =~= "--"@ + cs@.take(i as int).map_values(|c: char| if c == '_' { '-' } else { c }));
    }
    proof { reveal_strlit("--"); }
    assert(cs@.take(i as int) =~= name@);
    string_from_chars(out.as_slice())
}

/// The last position in `args` holding `flag` (`-1` when there is none).
pub open spec fn last_position(args: Seq<Seq<char>>, flag: Seq<char>) -> int
    decreases args.len(),
{
    if args.len() == 0 {
        -1
    } else if args.last() == flag {
        args.len() - 1
    } else {
        last_position(args.drop_last(), flag)
    }
}

/// The last position in `args` holding `off` but not `on` (`-1` when there is none).
pub open spec fn last_off_position(args: Seq<Seq<char>>, on: Seq<char>, off: Seq<char>) -> int
    decreases args.len(),
{
    if args.len() == 0 {
        -1
    } else if args.last() != on && args.last() == off {
        args.len() - 1
    } else {
        last_off_position(args.drop_last(), on, off)
    }
}

/// The state of a pair of on/off flags: the later of the two on the command
/// line wins; with neither there, the on flag's count from the environment
/// decides (`None` when it is zero).
pub open spec fn flag_state(args: Seq<Seq<char>>, on: Seq<char>, off: Seq<char>, env_count: nat) -> Option<bool> {
    let on_at = last_position(args, on);
    let off_at = last_off_position(args, on, off);
    if on_at > off_at {
        Some(true)
    } else if off_at > on_at {
        Some(false)
    } else if env_count > 0 {
        Some(true)
    } else {
        None
    }
}

/// Resolves a pair of mutually exclusive flags (such as `--use-sudo` and
/// `--no-use-sudo`) from the raw arguments, falling back to the count that
/// the environment gave the on flag.
pub fn flag_is_enabled(raw_args: &Vec<String>, on_flag: &str, off_flag: &str, env_count: u8) -> (r: Option<bool>)
    ensures
        r == flag_state(raw_args.deep_view(), dashed(on_flag@), dashed(off_flag@), env_count as nat),
{
    let on = dashed_flag(on_flag);
    let off = dashed_flag(off_flag);
    let ghost args = raw_args.deep_view();
    let mut on_at: Option<usize> = None;
    let mut off_at: Option<usize> = None;
    let mut i: usize = 0;
    while i < raw_args.len()
        invariant
            i <= raw_args@.len(),
            args == raw_args.deep_view(),
            (match on_at {
                Some(p) => p as int,
                None => -1,
            }) == last_position(args.take(i as int), on@),
            (match off_at {
                Some(p) => p as int,
                None => -1,
            }) == last_off_position(args.take(i as int), on@, off@),
            on_at matches Some(p) ==> p < i,
            off_at matches Some(p) ==> p < i,
        decreases raw_args@.len() - i,
    {
        let ghost next = args.take(i as int + 1);
        assert(next.drop_last() =~= args.take(i as int));
        assert(next.last() == raw_args@[i as int]@);
        if str_eq(raw_args[i].as_str(), on.as_str()) {
            on_at = Some(i);
        } else if str_eq(raw_args[i].as_str(), off.as_str()) {
            off_at = Some(i);
        }
        i = i + 1;
    }
    assert(args.take(i as int) =~= args);
    let on_pos: usize = match on_at {
        Some(p) => p + 1,
        None => 0,
    };
    let off_pos: usize = match off_at {
        Some(p) => p + 1,
        None => 0,
    };
    if on_pos > off_pos {
        Some(true)
    } else if off_pos > on_pos {
        Some(false)
    } else if env_count > 0 {
        Some(true)
    } else {
        None
    }
}

} // verus!
