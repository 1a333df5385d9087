//! The file-based module configuration: each file entry keyed by its
//! destination, with defaults for its phase, action and templating, and the
//! expansion of `dir/*` entries into one entry per file of the source
//! directory.

use vstd::prelude::*;
use crate::paths::{join, parent, path_join, path_parent, path_strip_prefix, strip_prefix};
use crate::actions::ModuleAction;
use crate::module::Generate;
use crate::text::{ends_with, has_suffix, str_eq};

verus! {

/// Ownership and access permissions of a file.
#[derive(Debug, PartialEq, Eq)]
pub struct FilePermissions {
    pub owner: Option<String>,
    pub group: Option<String>,
    pub permissions: Option<String>,
}

/// How a file of a module is deployed.
#[derive(Debug, PartialEq, Eq)]
pub struct FileConfig {
    /// The source path of the file.
    pub source: Option<String>,
    /// The content of the file, given directly.
    pub content: Option<String>,
    /// The deployment phase; `deploy` when not given.
    pub phase: Option<String>,
    /// `link`, `copy` or `create`; `link` when not given.
    pub action: Option<String>,
    /// A condition that decides whether the file is deployed.
    pub eval_when: Option<String>,
    /// File permissions and ownership.
    pub permissions: Option<FilePermissions>,
    /// Whether the file is a template; not when not given.
    pub template: Option<bool>,
}

/// A message of a module and when it is shown.
#[derive(Debug, PartialEq, Eq)]
pub struct Messages {
    pub message: String,
    /// `deploy` or `remove`; `deploy` when not given.
    pub display_when: String,
    pub eval_when: Option<String>,
}

/// Files are not templates unless stated otherwise.
pub fn default_template() -> (t: Option<bool>)
    ensures
        t == Some(false),
{
    Some(false)
}

/// Files are deployed in the `deploy` phase unless stated otherwise.
pub fn default_phase() -> (p: Option<String>)
    ensures
        p matches Some(s) && s@ == "deploy"@,
{
    Some("deploy".to_string())
}

/// Files are linked unless stated otherwise.
pub fn default_action() -> (a: Option<String>)
    ensures
        a matches Some(s) && s@ == "link"@,
{
    Some("link".to_string())
}

/// Messages are shown on deployment unless stated otherwise.
pub fn default_message() -> (m: String)
    ensures
        m@ == "deploy"@,
{
    "deploy".to_string()
}

/// The entries as a map from destination to configuration.
pub open spec fn files_map(entries: Seq<(String, FileConfig)>) -> Map<Seq<char>, FileConfig>
    decreases entries.len(),
{
    if entries.len() == 0 {
        Map::empty()
    } else {
        files_map(entries.drop_last()).insert(entries.last().0@, entries.last().1)
    }
}

/// No destination occurs twice.
pub open spec fn keys_unique(entries: Seq<(String, FileConfig)>) -> bool {
    forall|i: int, j: int| 0 <= i < entries.len() && 0 <= j < entries.len() && i != j ==> #[trigger] entries[i].0@ != #[trigger] entries[j].0@
}

proof fn lemma_files_map(entries: Seq<(String, FileConfig)>)
    requires
        keys_unique(entries),
    ensures
        forall|k: Seq<char>| #[trigger] files_map(entries).dom().contains(k) <==> exists|i: int| 0 <= i < entries.len() && entries[i].0@ == k,
        forall|i: int| 0 <= i < entries.len() ==> #[trigger] files_map(entries)[entries[i].0@] == entries[i].1,
        files_map(entries).dom().finite(),
        files_map(entries).dom().len() == entries.len(),
    decreases entries.len(),
{
    if entries.len() > 0 {
        let init = entries.drop_last();
        assert(keys_unique(init)) by {
            assert forall|i: int, j: int| 0 <= i < init.len() && 0 <= j < init.len() && i != j implies #[trigger] init[i].0@ != #[trigger] init[j].0@ by {
                assert(init[i] == entries[i] && init[j] == entries[j]);
            }
        }
        lemma_files_map(init);
        let last = entries.last();
        assert(!files_map(init).dom().contains(last.0@)) by {
            if files_map(init).dom().contains(last.0@) {
                let i = choose|i: int| 0 <= i < init.len() && init[i].0@ == last.0@;
                assert(entries[i].0@ == entries[entries.len() - 1].0@);
            }
        }
        assert forall|k: Seq<char>| #[trigger] files_map(entries).dom().contains(k) <==> exists|i: int| 0 <= i < entries.len() && entries[i].0@ == k by {
            if files_map(entries).dom().contains(k) && k != last.0@ {
                let i = choose|i: int| 0 <= i < init.len() && init[i].0@ == k;
                assert(entries[i].0@ == k);
            }
            if exists|i: int| 0 <= i < entries.len() && entries[i].0@ == k {
                let i = choose|i: int| 0 <= i < entries.len() && entries[i].0@ == k;
                if i < init.len() {
                    assert(init[i].0@ == k);
                }
            }
        }
        assert forall|i: int| 0 <= i < entries.len() implies #[trigger] files_map(entries)[entries[i].0@] == entries[i].1 by {
            if i < init.len() {
                assert(init[i] == entries[i]);
                assert(files_map(init)[init[i].0@] == init[i].1);
                assert(entries[i].0@ != last.0@);
            }
        }
    }
}

/// Why a `dir/*` entry could not be expanded.
#[derive(Debug, Clone, Copy, PartialEq, Eq, Structural)]
pub enum ModuleConfigError {
    /// The entry has no source, or its source has no parent directory.
    SourceHasNoParent,
    /// The destination has no parent directory.
    DestinationHasNoParent,
    /// A file listed in the source directory does not lie under it.
    OutsideSourceDirectory,
}

/// An entry `dir/*` whose source is `dir/*` too.
pub open spec fn is_wildcard_entry(dest: Seq<char>, conf: FileConfig) -> bool {
    has_suffix(dest, "*"@) && (conf.source matches Some(s) && has_suffix(s@, "*"@))
}

/// The entry for one file of the source directory: its destination under
/// the destination directory, its configuration that of the `*` entry with
/// the file as source.
pub open spec fn expanded_entry(dest_dir: Seq<char>, source_dir: Seq<char>, conf: FileConfig, file: String) -> Option<
    (Seq<char>, FileConfig),
> {
    match path_strip_prefix(file@, source_dir) {
        Some(rel) => Some((path_join(dest_dir, rel), FileConfig { source: Some(file), ..conf })),
        None => None,
    }
}

/// The entries that expanding `dest` with the listed files gives, or the error.
pub open spec fn expansion(dest: Seq<char>, conf: FileConfig, files: Seq<String>) -> Result<
    Seq<(Seq<char>, FileConfig)>,
    ModuleConfigError,
>
    decreases files.len(),
{
    let source_dir = match conf.source {
        Some(s) => path_parent(s@),
        None => None,
    };
    match source_dir {
        None => Err(ModuleConfigError::SourceHasNoParent),
        Some(sd) => match path_parent(dest) {
            None => Err(ModuleConfigError::DestinationHasNoParent),
            Some(dd) => if files.len() == 0 {
                Ok(Seq::empty())
            } else {
                match expansion(dest, conf, files.drop_last()) {
                    Err(e) => Err(e),
                    Ok(prev) => match expanded_entry(dd, sd, conf, files.last()) {
                        None => Err(ModuleConfigError::OutsideSourceDirectory),
                        Some(entry) => Ok(prev.push(entry)),
                    },
                }
            },
        },
    }
}

fn clone_opt_string(o: &Option<String>) -> (r: Option<String>)
    ensures
        r == *o,
{
    match o {
        Some(s) => Some(s.clone()),
        None => None,
    }
}

fn clone_permissions(p: &Option<FilePermissions>) -> (r: Option<FilePermissions>)
    ensures
        r == *p,
{
    match p {
        Some(p) => Some(
            FilePermissions {
                owner: clone_opt_string(&p.owner),
                group: clone_opt_string(&p.group),
                permissions: clone_opt_string(&p.permissions),
            },
        ),
        None => None,
    }
}

fn with_source(conf: &FileConfig, file: &String) -> (r: FileConfig)
    ensures
        r == (FileConfig { source: Some(*file), ..*conf }),
{
    FileConfig {
        source: Some(file.clone()),
        content: clone_opt_string(&conf.content),
        phase: clone_opt_string(&conf.phase),
        action: clone_opt_string(&conf.action),
        eval_when: clone_opt_string(&conf.eval_when),
        permissions: clone_permissions(&conf.permissions),
        template: conf.template,
    }
}

impl ModuleConfig {
    /// The entries for the files of a `dir/*` entry's source directory: each
    /// file's path relative to the source directory, joined to the destination
    /// directory.
    pub fn expand_single_directory(dest: &String, conf: &FileConfig, files: &Vec<String>) -> (r: Result<
        Vec<(String, FileConfig)>,
        ModuleConfigError,
    >)
        ensures
            match expansion(dest@, *conf, files@) {
                Ok(entries) => r matches Ok(v) && v@.len() == entries.len() && forall|i: int|
                    0 <= i < v@.len() ==> (#[trigger] v@[i]).0@ == entries[i].0 && v@[i].1 == entries[i].1,
                Err(e) => r == Err::<Vec<(String, FileConfig)>, ModuleConfigError>(e),
            },
    {
        let source_dir = match &conf.source {
            Some(s) => parent(s.as_str()),
            None => None,
        };
        let source_dir = match source_dir {
            Some(d) => d,
            None => {
                return Err(ModuleConfigError::SourceHasNoParent);
            },
        };
        let dest_dir = match parent(dest.as_str()) {
            Some(d) => d,
            None => {
                return Err(ModuleConfigError::DestinationHasNoParent);
            },
        };
        let mut out: Vec<(String, FileConfig)> = Vec::new();
        let mut i: usize = 0;
        while i < files.len()
            invariant
                i <= files@.len(),
                conf.source matches Some(s) && path_parent(s@) == Some(source_dir@),
                path_parent(dest@) == Some(dest_dir@),
                expansion(dest@, *conf, files@.take(i as int)) matches Ok(entries) && out@.len() == entries.len() && forall|k: int|
                    0 <= k < out@.len() ==> (#[trigger] out@[k]).0@ == entries[k].0 && out@[k].1 == entries[k].1,
            decreases files@.len() - i,
        {
            let ghost pre = files@.take(i as int);
            let ghost next = files@.take(i as int + 1);
            assert(next.drop_last() =~= pre);
            assert(next.last() == files@[i as int]);
            match strip_prefix(files[i].as_str(), source_dir.as_str()) {
                Some(rel) => {
                    let ghost out0 = out@;
                    let new_dest = join(dest_dir.as_str(), rel.as_str());
                    let entry = with_source(conf, &files[i]);
                    out.push((new_dest, entry));
                    proof {
                        let entries = expansion(dest@, *conf, next)->Ok_0;
                        assert forall|k: int| 0 <= k < out@.len() implies (#[trigger] out@[k]).0@ == entries[k].0 && out@[k].1 == entries[k].1 by {
                            if k < out0.len() {
                                assert(out@[k] == out0[k]);
                            }
                        }
                    }
                },
                None => {
                    proof {
                        lemma_expansion_error_persists(dest@, *conf, files@, i as int + 1);
                    }
                    return Err(ModuleConfigError::OutsideSourceDirectory);
                },
            }
            i = i + 1;
        }
        assert(files@.take(i as int) =~= files@);
        Ok(out)
    }
}

proof fn lemma_expansion_error_persists(dest: Seq<char>, conf: FileConfig, files: Seq<String>, n: int)
    requires
        0 < n <= files.len(),
        expansion(dest, conf, files.take(n)) matches Err(e) && e == ModuleConfigError::OutsideSourceDirectory,
    ensures
        expansion(dest, conf, files) == Err::<Seq<(Seq<char>, FileConfig)>, ModuleConfigError>(ModuleConfigError::OutsideSourceDirectory),
    decreases files.len() - n,
{
    if n < files.len() {
        let next = files.take(n + 1);
        assert(next.drop_last() =~= files.take(n));
        lemma_expansion_error_persists(dest, conf, files, n + 1);
    } else {
        assert(files.take(n) =~= files);
    }
}

/// Packages a module installs, under a condition.
#[derive(Debug, PartialEq, Eq)]
pub struct Packages {
    pub install: Vec<String>,
    pub eval_when: Option<String>,
}

/// The configuration of a module.
#[derive(Debug)]
pub struct ModuleConfig {
    /// The modules this one depends on.
    pub depends: Option<Vec<String>>,
    /// The files, each keyed by its destination (no destination twice).
    pub files: Option<Vec<(String, FileConfig)>>,
    /// The packages to install.
    pub packages: Option<Vec<Packages>>,
    /// Actions per phase and stage.
    pub actions: Option<Vec<(String, Vec<(String, Vec<ModuleAction>)>)>>,
    /// Values for templating.
    pub context_vars: Option<Vec<(String, String)>>,
    /// Messages to show after deployment or removal.
    pub messages: Option<Vec<Messages>>,
    /// Files generated from the modules' snippets, each keyed by its target.
    pub generate: Option<Vec<(String, Generate)>>,
}

/// The map view of optional file entries.
pub open spec fn opt_files_map(files: Option<Vec<(String, FileConfig)>>) -> Option<Map<Seq<char>, FileConfig>> {
    match files {
        Some(v) => Some(files_map(v@)),
        None => None,
    }
}

/// Inserts each pair in turn; a later pair replaces an earlier one with the same key.
pub open spec fn insert_all(m: Map<Seq<char>, FileConfig>, pairs: Seq<(Seq<char>, FileConfig)>) -> Map<Seq<char>, FileConfig>
    decreases pairs.len(),
{
    if pairs.len() == 0 {
        m
    } else {
        insert_all(m, pairs.drop_last()).insert(pairs.last().0, pairs.last().1)
    }
}

/// The `dir/*` entries, in order.
pub open spec fn wildcard_entries(entries: Seq<(String, FileConfig)>) -> Seq<(String, FileConfig)>
    decreases entries.len(),
{
    if entries.len() == 0 {
        Seq::empty()
    } else if is_wildcard_entry(entries.last().0@, entries.last().1) {
        wildcard_entries(entries.drop_last()).push(entries.last())
    } else {
        wildcard_entries(entries.drop_last())
    }
}

/// The expansions of the `dir/*` entries with their listings, in order, or
/// the first error.
pub open spec fn expansions(wild: Seq<(String, FileConfig)>, listings: Seq<Vec<String>>) -> Result<
    Seq<Seq<(Seq<char>, FileConfig)>>,
    ModuleConfigError,
>
    decreases wild.len(),
{
    if wild.len() == 0 {
        Ok(Seq::empty())
    } else {
        match expansions(wild.drop_last(), listings) {
            Err(e) => Err(e),
            Ok(prev) => match expansion(wild.last().0@, wild.last().1, listings[wild.len() - 1]@) {
                Err(e) => Err(e),
                Ok(x) => Ok(prev.push(x)),
            },
        }
    }
}

/// Each `dir/*` entry replaced by its expansion, in order.
pub open spec fn apply_expansions(
    m: Map<Seq<char>, FileConfig>,
    wild: Seq<(String, FileConfig)>,
    exps: Seq<Seq<(Seq<char>, FileConfig)>>,
) -> Map<Seq<char>, FileConfig>
    decreases wild.len(),
{
    if wild.len() == 0 || exps.len() != wild.len() {
        m
    } else {
        insert_all(apply_expansions(m, wild.drop_last(), exps.drop_last()).remove(wild.last().0@), exps.last())
    }
}

fn find_key(entries: &Vec<(String, FileConfig)>, key: &String) -> (r: Option<usize>)
    ensures
        r matches Some(i) ==> i < entries@.len() && entries@[i as int].0@ == key@,
        r is None ==> forall|i: int| 0 <= i < entries@.len() ==> (#[trigger] entries@[i]).0@ != key@,
{
    let mut i: usize = 0;
    while i < entries.len()
        invariant
            i <= entries@.len(),
            forall|k: int| 0 <= k < i ==> (#[trigger] entries@[k]).0@ != key@,
        decreases entries@.len() - i,
    {
        if str_eq(entries[i].0.as_str(), key.as_str()) {
            return Some(i);
        }
        i = i + 1;
    }
    None
}

proof fn lemma_files_map_swap_remove(entries: Seq<(String, FileConfig)>, i: int)
    requires
        keys_unique(entries),
        0 <= i < entries.len(),
    ensures
        keys_unique(entries.update(i, entries.last()).drop_last()),
        files_map(entries.update(i, entries.last()).drop_last()) =~= files_map(entries).remove(entries[i].0@),
{
    let e2 = entries.update(i, entries.last()).drop_last();
    lemma_files_map(entries);
    assert(keys_unique(e2)) by {
        assert forall|a: int, b: int| 0 <= a < e2.len() && 0 <= b < e2.len() && a != b implies #[trigger] e2[a].0@ != #[trigger] e2[b].0@ by {
            let ia = if a == i { entries.len() - 1 } else { a };
            let ib = if b == i { entries.len() - 1 } else { b };
            assert(e2[a] == entries[ia] && e2[b] == entries[ib]);
        }
    }
    lemma_files_map(e2);
    let m = files_map(entries).remove(entries[i].0@);
    assert forall|k: Seq<char>| #[trigger] files_map(e2).dom().contains(k) <==> m.dom().contains(k) by {
        if files_map(e2).dom().contains(k) {
            let a = choose|a: int| 0 <= a < e2.len() && e2[a].0@ == k;
            let ia = if a == i { entries.len() - 1 } else { a };
            assert(e2[a] == entries[ia]);
            assert(files_map(entries).dom().contains(entries[ia].0@));
        }
        if m.dom().contains(k) {
            let b = choose|b: int| 0 <= b < entries.len() && entries[b].0@ == k;
            if b == entries.len() - 1 {
                assert(e2[i] == entries[b]);
                assert(files_map(e2).dom().contains(e2[i].0@));
            } else {
                assert(e2[b] == entries[b]);
                assert(files_map(e2).dom().contains(e2[b].0@));
            }
        }
    }
    assert forall|k: Seq<char>| #[trigger] files_map(e2).dom().contains(k) implies files_map(e2)[k] == m[k] by {
        let a = choose|a: int| 0 <= a < e2.len() && e2[a].0@ == k;
        let ia = if a == i { entries.len() - 1 } else { a };
        assert(e2[a] == entries[ia]);
        assert(files_map(e2)[e2[a].0@] == e2[a].1);
        assert(files_map(entries)[entries[ia].0@] == entries[ia].1);
    }
}

fn remove_key(entries: &mut Vec<(String, FileConfig)>, key: &String)
    requires
        keys_unique(old(entries)@),
    ensures
        keys_unique(final(entries)@),
        files_map(final(entries)@) =~= files_map(old(entries)@).remove(key@),
{
    match find_key(entries, key) {
        Some(i) => {
            let ghost e0 = entries@;
            proof {
                lemma_files_map_swap_remove(e0, i as int);
            }
            let _ = entries.swap_remove(i);
        },
        None => {
            proof {
                lemma_files_map(entries@);
                assert(files_map(entries@).remove(key@) =~= files_map(entries@));
            }
        },
    }
}

fn put(entries: &mut Vec<(String, FileConfig)>, key: String, conf: FileConfig)
    requires
        keys_unique(old(entries)@),
    ensures
        keys_unique(final(entries)@),
        files_map(final(entries)@) =~= files_map(old(entries)@).insert(key@, conf),
{
    let ghost m0 = files_map(entries@);
    remove_key(entries, &key);
    let ghost e1 = entries@;
    proof {
        lemma_files_map(e1);
    }
    entries.push((key, conf));
    proof {
        assert(entries@.drop_last() =~= e1);
        assert forall|a: int, b: int| 0 <= a < entries@.len() && 0 <= b < entries@.len() && a != b implies #[trigger] entries@[a].0@
            != #[trigger] entries@[b].0@ by {
            if a == e1.len() {
                assert(!files_map(e1).dom().contains(key@));
                assert(entries@[b] == e1[b]);
            } else if b == e1.len() {
                assert(!files_map(e1).dom().contains(key@));
                assert(entries@[a] == e1[a]);
            } else {
                assert(entries@[a] == e1[a] && entries@[b] == e1[b]);
            }
        }
    }
}

/// The view of entries as (destination, configuration) pairs.
pub open spec fn pairs_view(v: Seq<(String, FileConfig)>) -> Seq<(Seq<char>, FileConfig)> {
    v.map_values(|e: (String, FileConfig)| (e.0@, e.1))
}

fn is_wildcard(dest: &String, conf: &FileConfig) -> (b: bool)
    ensures
        b == is_wildcard_entry(dest@, *conf),
{
    ends_with(dest.as_str(), "*") && match &conf.source {
        Some(s) => ends_with(s.as_str(), "*"),
        None => false,
    }
}

fn collect_expansions(files: &Vec<(String, FileConfig)>, listings: &Vec<Vec<String>>) -> (r: Result<
    (Vec<String>, Vec<Vec<(String, FileConfig)>>),
    ModuleConfigError,
>)
    requires
        keys_unique(files@),
        listings@.len() == wildcard_entries(files@).len(),
    ensures
        match expansions(wildcard_entries(files@), listings@) {
            Err(e) => r == Err::<(Vec<String>, Vec<Vec<(String, FileConfig)>>), ModuleConfigError>(e),
            Ok(exps) => r matches Ok((keys, vs)) && keys@.len() == wildcard_entries(files@).len() && vs@.len()
                == wildcard_entries(files@).len() && vs@.map_values(
                |v: Vec<(String, FileConfig)>| pairs_view(v@),
            ) == exps && forall|k: int| 0 <= k < keys@.len() ==> (#[trigger] keys@[k])@ == wildcard_entries(files@)[k].0@,
        },
{
    let ghost f0 = files@;
    let ghost wild = wildcard_entries(f0);
    let mut keys: Vec<String> = Vec::new();
    let mut exps: Vec<Vec<(String, FileConfig)>> = Vec::new();
    let mut i: usize = 0;
    proof {
        assert(f0.take(0) =~= Seq::<(String, FileConfig)>::empty());
        assert(exps@.map_values(|v: Vec<(String, FileConfig)>| pairs_view(v@)) =~= Seq::<Seq<(Seq<char>, FileConfig)>>::empty());
    }
    while i < files.len()
        invariant
            f0 == files@,
            keys_unique(f0),
            wild == wildcard_entries(f0),
            listings@.len() == wild.len(),
            i <= files@.len(),
            keys@.len() == wildcard_entries(f0.take(i as int)).len(),
            exps@.len() == keys@.len(),
            forall|k: int| 0 <= k < keys@.len() ==> (#[trigger] keys@[k])@ == wildcard_entries(f0.take(i as int))[k].0@,
            expansions(wildcard_entries(f0.take(i as int)), listings@) == Ok::<Seq<Seq<(Seq<char>, FileConfig)>>, ModuleConfigError>(
                exps@.map_values(|v: Vec<(String, FileConfig)>| pairs_view(v@)),
            ),
        decreases files@.len() - i,
    {
        let ghost pre = f0.take(i as int);
        let ghost next = f0.take(i as int + 1);
        assert(next.drop_last() =~= pre);
        assert(next.last() == f0[i as int]);
        proof {
            lemma_wildcard_prefix(f0, i as int + 1);
            assert(wildcard_entries(pre).push(f0[i as int]).drop_last() =~= wildcard_entries(pre));
        }
        if is_wildcard(&files[i].0, &files[i].1) {
            let w = keys.len();
            let ex = ModuleConfig::expand_single_directory(&files[i].0, &files[i].1, &listings[w]);
            match ex {
                Ok(v) => {
                    let ghost e0 = exps@;
                    keys.push(files[i].0.clone());
                    exps.push(v);
                    proof {
                        assert(pairs_view(v@) =~= expansion(f0[i as int].0@, f0[i as int].1, listings@[w as int]@)->Ok_0);
                        assert(exps@.map_values(|v: Vec<(String, FileConfig)>| pairs_view(v@)) =~= e0.map_values(
                            |v: Vec<(String, FileConfig)>| pairs_view(v@),
                        ).push(pairs_view(v@)));
                    }
                },
                Err(e) => {
                    proof {
                        lemma_expansions_error_persists(f0, listings@, i as int + 1, e);
                    }
                    return Err(e);
                },
            }
        }
        i = i + 1;
    }
    assert(f0.take(i as int) =~= f0);
    assert(f0.take(i as int) =~= f0);
    Ok((keys, exps))
}

impl ModuleConfig {
    /// No file destination occurs twice.
    pub open spec fn wf(&self) -> bool {
        self.files matches Some(v) ==> keys_unique(v@)
    }

    /// A configuration with nothing in it.
    pub fn new() -> (c: Self)
        ensures
            c.wf(),
            c.depends is None && c.files is None && c.packages is None && c.actions is None && c.context_vars is None
                && c.messages is None && c.generate is None,
    {
        ModuleConfig {
            depends: None,
            files: None,
            packages: None,
            actions: None,
            context_vars: None,
            messages: None,
            generate: None,
        }
    }

    /// Sets the file entry for `dest`, replacing one with the same destination.
    pub fn insert_file(&mut self, dest: String, conf: FileConfig)
        requires
            old(self).wf(),
        ensures
            final(self).wf(),
            opt_files_map(final(self).files) == Some(
                match opt_files_map(old(self).files) {
                    Some(m) => m,
                    None => Map::empty(),
                }.insert(dest@, conf),
            ),
            final(self).depends == old(self).depends,
            final(self).packages == old(self).packages,
            final(self).actions == old(self).actions,
            final(self).context_vars == old(self).context_vars,
            final(self).messages == old(self).messages,
            final(self).generate == old(self).generate,
    {
        match &mut self.files {
            Some(v) => {
                put(v, dest, conf);
            },
            None => {
                let mut v: Vec<(String, FileConfig)> = Vec::new();
                put(&mut v, dest, conf);
                self.files = Some(v);
            },
        }
    }

    /// The number of `dir/*` entries, each of which needs the listing of its
    /// source directory.
    pub open spec fn wildcard_count(&self) -> nat {
        match self.files {
            Some(v) => wildcard_entries(v@).len(),
            None => 0,
        }
    }

    /// The source of each `dir/*` entry, in order: the directories whose
    /// files [`ModuleConfig::expand_directory_wildcards`] needs.
    pub fn wildcard_sources(&self) -> (v: Vec<Option<String>>)
        ensures
            v@.len() == self.wildcard_count(),
            self.files matches Some(f) ==> forall|k: int| 0 <= k < v@.len() ==> #[trigger] v@[k] == wildcard_entries(f@)[k].1.source,
    {
        let mut out: Vec<Option<String>> = Vec::new();
        match &self.files {
            Some(files) => {
                let mut i: usize = 0;
                while i < files.len()
                    invariant
                        i <= files@.len(),
                        out@.len() == wildcard_entries(files@.take(i as int)).len(),
                        forall|k: int| 0 <= k < out@.len() ==> #[trigger] out@[k] == wildcard_entries(files@.take(i as int))[k].1.source,
                    decreases files@.len() - i,
                {
                    assert(files@.take(i as int + 1).drop_last() =~= files@.take(i as int));
                    if is_wildcard(&files[i].0, &files[i].1) {
                        out.push(clone_opt_string(&files[i].1.source));
                    }
                    i = i + 1;
                }
                assert(files@.take(i as int) =~= files@);
            },
            None => {},
        }
        out
    }

    /// Replaces each `dir/*` entry whose source is `dir/*` too by one entry
    /// per file of the source directory (see [`ModuleConfig::expand_single_directory`]),
    /// given the listing of each such source directory in order. Entries are
    /// replaced in order, a later one replacing an earlier one with the same
    /// destination. On an error nothing changes.
    pub fn expand_directory_wildcards(&mut self, listings: &Vec<Vec<String>>) -> (r: Result<(), ModuleConfigError>)
        requires
            old(self).wf(),
            listings@.len() == old(self).wildcard_count(),
        ensures
            final(self).wf(),
            final(self).depends == old(self).depends,
            final(self).packages == old(self).packages,
            final(self).actions == old(self).actions,
            final(self).context_vars == old(self).context_vars,
            final(self).messages == old(self).messages,
            final(self).generate == old(self).generate,
            old(self).files is None ==> r is Ok && final(self).files is None,
            old(self).files matches Some(f) ==> match expansions(wildcard_entries(f@), listings@) {
                Err(e) => r == Err::<(), ModuleConfigError>(e) && final(self).files == old(self).files,
                Ok(exps) => r is Ok && opt_files_map(final(self).files) == Some(
                    apply_expansions(files_map(f@), wildcard_entries(f@), exps),
                ),
            },
    {
        let (keys, mut exps) = match &self.files {
            Some(f) => match collect_expansions(f, listings) {
                Ok(x) => x,
                Err(e) => {
                    return Err(e);
                },
            },
            None => {
                return Ok(());
            },
        };
        let files = match &mut self.files {
            Some(f) => f,
            None => {
                return Ok(());
            },
        };
        let ghost f0 = files@;
        let ghost wild = wildcard_entries(f0);
        let ghost exps_view = exps@.map_values(|v: Vec<(String, FileConfig)>| pairs_view(v@));
        let ghost m0 = files_map(f0);
        let mut k: usize = 0;
        while k < keys.len()
            invariant
                keys@.len() == wild.len(),
                exps@.len() + k == wild.len(),
                k <= wild.len(),
                exps_view.len() == wild.len(),
                forall|j: int| 0 <= j < keys@.len() ==> (#[trigger] keys@[j])@ == wild[j].0@,
                forall|j: int| 0 <= j < exps@.len() ==> pairs_view((#[trigger] exps@[j])@) == exps_view[k + j],
                keys_unique(files@),
                files_map(files@) == apply_expansions(m0, wild.take(k as int), exps_view.take(k as int)),
            decreases wild.len() - k,
        {
            let ghost base = files_map(files@);
            remove_key(files, &keys[k]);
            let ghost removed = files_map(files@);
            let ghost e_all = exps@;
            let mut cur = exps.remove(0);
            proof {
                assert(pairs_view(cur@) == exps_view[k as int]);
            }
            let ghost cur_all = pairs_view(cur@);
            let cur_len = cur.len();
            assert(cur_all.len() == cur_len);
            let mut j: usize = 0;
            while cur.len() > 0
                invariant
                    j + cur@.len() == cur_all.len(),
                    cur_all.len() <= usize::MAX,
                    forall|m: int| 0 <= m < cur@.len() ==> (#[trigger] cur@[m]).0@ == cur_all[j + m].0 && cur@[m].1 == cur_all[j + m].1,
                    keys_unique(files@),
                    files_map(files@) == insert_all(removed, cur_all.take(j as int)),
                decreases cur@.len(),
            {
                let ghost c0 = cur@;
                let (dest, conf) = cur.remove(0);
                proof {
                    assert(dest@ == cur_all[j as int].0 && conf == cur_all[j as int].1);
                    assert(cur_all.take(j as int + 1).drop_last() =~= cur_all.take(j as int));
                }
                put(files, dest, conf);
                j = j + 1;
                proof {
                    assert forall|m: int| 0 <= m < cur@.len() implies (#[trigger] cur@[m]).0@ == cur_all[j + m].0 && cur@[m].1 == cur_all[j + m].1 by {
                        assert(cur@[m] == c0[m + 1]);
                    }
                }
            }
            proof {
                assert(cur_all.take(j as int) =~= cur_all);
                assert(wild.take(k as int + 1).drop_last() =~= wild.take(k as int));
                assert(exps_view.take(k as int + 1).drop_last() =~= exps_view.take(k as int));
                assert forall|m: int| 0 <= m < exps@.len() implies pairs_view((#[trigger] exps@[m])@) == exps_view[k + 1 + m] by {
                    assert(exps@[m] == e_all[m + 1]);
                }
            }
            k = k + 1;
        }
        proof {
            assert(wild.take(k as int) =~= wild);
            assert(exps_view.take(k as int) =~= exps_view);
        }
        Ok(())
    }
}

proof fn lemma_wildcard_prefix(f: Seq<(String, FileConfig)>, n: int)
    requires
        0 < n <= f.len(),
    ensures
        wildcard_entries(f.take(n)) == if is_wildcard_entry(f[n - 1].0@, f[n - 1].1) {
            wildcard_entries(f.take(n - 1)).push(f[n - 1])
        } else {
            wildcard_entries(f.take(n - 1))
        },
        wildcard_entries(f.take(n - 1)).len() <= wildcard_entries(f).len(),
        wildcard_entries(f.take(n)).len() <= wildcard_entries(f).len(),
        forall|k: int| 0 <= k < wildcard_entries(f.take(n)).len() ==> #[trigger] wildcard_entries(f.take(n))[k] == wildcard_entries(f)[k],
    decreases f.len() - n,
{
    assert(f.take(n).drop_last() =~= f.take(n - 1));
    if n < f.len() {
        lemma_wildcard_prefix(f, n + 1);
        let w = wildcard_entries(f.take(n));
        let w1 = wildcard_entries(f.take(n + 1));
        assert(f.take(n + 1).drop_last() =~= f.take(n));
        assert forall|k: int| 0 <= k < w.len() implies #[trigger] w[k] == wildcard_entries(f)[k] by {
            assert(w1[k] == w[k]);
        }
    } else {
        assert(f.take(n) =~= f);
    }
}

proof fn lemma_expansions_error_persists(f: Seq<(String, FileConfig)>, listings: Seq<Vec<String>>, n: int, e: ModuleConfigError)
    requires
        0 < n <= f.len(),
        expansions(wildcard_entries(f.take(n)), listings) == Err::<Seq<Seq<(Seq<char>, FileConfig)>>, ModuleConfigError>(e),
    ensures
        expansions(wildcard_entries(f), listings) == Err::<Seq<Seq<(Seq<char>, FileConfig)>>, ModuleConfigError>(e),
    decreases f.len() - n,
{
    if n < f.len() {
        assert(f.take(n + 1).drop_last() =~= f.take(n));
        lemma_wildcard_prefix(f, n + 1);
        let w = wildcard_entries(f.take(n));
        assert(w.push(f[n]).drop_last() =~= w);
        lemma_expansions_error_persists(f, listings, n + 1, e);
    } else {
        assert(f.take(n) =~= f);
    }
}

} // verus!
