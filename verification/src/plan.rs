//! How a module's files become the files each deployment phase deploys:
//! sources and targets resolved, `*` entries expanded, `##dot##` markers
//! replaced, each target claimed once, and the recorded targets that the
//! configuration no longer names left over for removal.

use vstd::prelude::*;
use crate::module::{DeployPhase, FileOperation, ModuleFile};
use crate::paths::{
    PathError, check_target_location, expand_wildcards, is_absolute, needs_wildcard_expansion, path_join,
    path_starts_with, replace_dot, replace_dot_marker, resolve_source, resolve_target, wildcard_decision,
    wildcard_pairs,
};
use crate::text::{contains_str, str_eq};

verus! {

/// A file as a deployment phase deploys it.
#[derive(Debug)]
pub struct PhaseFile {
    pub module_name: String,
    pub source: Option<String>,
    pub target: String,
    pub content: Option<String>,
    pub operation: FileOperation,
    pub template: bool,
    pub owner: Option<String>,
    pub group: Option<String>,
    pub permissions: Option<String>,
}

/// A phase file as the contracts see it: module, source, target, content,
/// operation, template, owner, group and permissions.
pub type FileView = (
    Seq<char>,
    Option<Seq<char>>,
    Seq<char>,
    Option<Seq<char>>,
    FileOperation,
    bool,
    Option<Seq<char>>,
    Option<Seq<char>>,
    Option<Seq<char>>,
);

/// The characters of an optional string.
pub open spec fn chars_of_opt(o: Option<String>) -> Option<Seq<char>> {
    match o {
        Some(s) => Some(s@),
        None => None,
    }
}

/// The view of a phase file: its strings as characters.
pub open spec fn phase_file_view(p: PhaseFile) -> FileView {
    (
        p.module_name@,
        chars_of_opt(p.source),
        p.target@,
        chars_of_opt(p.content),
        p.operation,
        p.template,
        chars_of_opt(p.owner),
        chars_of_opt(p.group),
        chars_of_opt(p.permissions),
    )
}

/// The phase file made of a module's file, with the source and target given.
pub open spec fn planned(module: Seq<char>, f: ModuleFile, source: Option<Seq<char>>, target: Seq<char>, template: bool) -> FileView {
    (
        module,
        source,
        target,
        chars_of_opt(f.content),
        f.operation,
        template,
        chars_of_opt(f.owner),
        chars_of_opt(f.group),
        chars_of_opt(f.permissions),
    )
}

/// Why a module's files cannot be deployed.
#[derive(Debug, Clone, Copy, PartialEq, Eq, Structural)]
pub enum PlanError {
    /// A path is wrong (see [`PathError`]).
    Path(PathError),
    /// A target is declared more than once.
    DeclaredTwice,
    /// A file has no `template` setting.
    TemplateMissing,
    /// A file is to be deployed in a phase other than setup or config.
    InvalidPhase,
}

/// A source as found: absolute as it is, relative under the module's directory.
pub open spec fn resolved_source(expanded: Seq<char>, location: Seq<char>) -> Seq<char> {
    if is_absolute(expanded) {
        expanded
    } else {
        path_join(location, expanded)
    }
}

/// `names` without `name`.
pub open spec fn without(names: Seq<Seq<char>>, name: Seq<char>) -> Seq<Seq<char>>
    decreases names.len(),
{
    if names.len() == 0 {
        names
    } else if names.last() == name {
        without(names.drop_last(), name)
    } else {
        without(names.drop_last(), name).push(names.last())
    }
}

/// The phase files, recorded targets left and targets claimed after the
/// expanded pairs of a file are placed in order.
pub open spec fn place_pairs(
    module: Seq<char>,
    f: ModuleFile,
    pairs: Seq<(Seq<char>, Seq<char>)>,
    recorded: Seq<Seq<char>>,
    seen: Set<Seq<char>>,
) -> Result<(Seq<FileView>, Seq<Seq<char>>, Set<Seq<char>>), PlanError>
    decreases pairs.len(),
{
    if pairs.len() == 0 {
        Ok((Seq::empty(), recorded, seen))
    } else {
        match place_pairs(module, f, pairs.drop_last(), recorded, seen) {
            Err(e) => Err(e),
            Ok((out, rec, sn)) => {
                let t = replace_dot_marker(pairs.last().1);
                if sn.contains(t) {
                    Err(PlanError::DeclaredTwice)
                } else {
                    match f.template {
                        None => Err(PlanError::TemplateMissing),
                        Some(tp) => Ok((out.push(planned(module, f, Some(pairs.last().0), t, tp)), without(rec, t), sn.insert(t))),
                    }
                }
            },
        }
    }
}

/// The phase files, recorded targets left and targets claimed after one
/// file is placed, given its source and target with variables expanded and
/// the files under its source directory.
pub open spec fn place_file(
    module: Seq<char>,
    location: Seq<char>,
    f: ModuleFile,
    source: Option<Seq<char>>,
    target: Seq<char>,
    listing: Seq<Seq<char>>,
    home: Seq<char>,
    deploy_sys_files: bool,
    recorded: Seq<Seq<char>>,
    seen: Set<Seq<char>>,
) -> Result<(Seq<FileView>, Seq<Seq<char>>, Set<Seq<char>>), PlanError> {
    let src = match source {
        Some(s) => Some(resolved_source(s, location)),
        None => None,
    };
    if !is_absolute(target) {
        Err(PlanError::Path(PathError::InvalidTarget))
    } else if !deploy_sys_files && !path_starts_with(target, home) {
        Err(PlanError::Path(PathError::OutsideHome))
    } else {
        match wildcard_decision(src, target) {
            Err(e) => Err(PlanError::Path(e)),
            Ok(true) => match wildcard_pairs(src->Some_0, target, listing) {
                Err(e) => Err(PlanError::Path(e)),
                Ok(pairs) => place_pairs(module, f, pairs, without(recorded, target), seen),
            },
            Ok(false) => if seen.contains(target) {
                Err(PlanError::DeclaredTwice)
            } else {
                match f.template {
                    None => Err(PlanError::TemplateMissing),
                    Some(tp) => Ok((seq![planned(module, f, src, replace_dot_marker(target), tp)], without(recorded, target), seen.insert(target))),
                }
            },
        }
    }
}

/// The outcome of placing a module's files: the files of the setup phase,
/// those of the config phase, the recorded targets left, the targets claimed.
pub type PlanView = (Seq<FileView>, Seq<FileView>, Seq<Seq<char>>, Set<Seq<char>>);

/// The view of a module's files with their expanded source and target.
pub open spec fn expanded_view(e: (Option<String>, String)) -> (Option<Seq<char>>, Seq<char>) {
    (chars_of_opt(e.0), e.1@)
}

/// Places the first `n` files in order, starting from the recorded targets
/// and the targets already claimed (by other modules).
pub open spec fn place_files(
    module: Seq<char>,
    location: Seq<char>,
    files: Seq<ModuleFile>,
    expanded: Seq<(Option<Seq<char>>, Seq<char>)>,
    listings: Seq<Seq<Seq<char>>>,
    home: Seq<char>,
    deploy_sys_files: bool,
    recorded: Seq<Seq<char>>,
    seen: Set<Seq<char>>,
    n: nat,
) -> Result<PlanView, PlanError>
    decreases n,
{
    if n == 0 {
        Ok((Seq::empty(), Seq::empty(), recorded, seen))
    } else {
        match place_files(module, location, files, expanded, listings, home, deploy_sys_files, recorded, seen, (n - 1) as nat) {
            Err(e) => Err(e),
            Ok((setup, config, rec, sn)) => {
                let i = n - 1;
                match place_file(module, location, files[i], expanded[i].0, expanded[i].1, listings[i], home, deploy_sys_files, rec, sn) {
                    Err(e) => Err(e),
                    Ok((new, rec2, sn2)) => match files[i].phase {
                        DeployPhase::Setup => Ok((setup + new, config, rec2, sn2)),
                        DeployPhase::Config => Ok((setup, config + new, rec2, sn2)),
                        _ => Err(PlanError::InvalidPhase),
                    },
                }
            },
        }
    }
}

/// The files of each phase and the recorded targets to remove.
#[derive(Debug)]
pub struct FilePlan {
    pub setup: Vec<PhaseFile>,
    pub config: Vec<PhaseFile>,
    /// Recorded targets of the module that its files no longer name.
    pub stale: Vec<String>,
}

/// The views of a list of phase files.
pub open spec fn files_view(v: Seq<PhaseFile>) -> Seq<FileView> {
    v.map_values(|p: PhaseFile| phase_file_view(p))
}

fn remove_name(v: &Vec<String>, name: &str) -> (r: Vec<String>)
    ensures
        r.deep_view() == without(v.deep_view(), name@),
{
    let mut r: Vec<String> = Vec::new();
    let mut i: usize = 0;
    while i < v.len()
        invariant
            i <= v@.len(),
            r.deep_view() == without(v.deep_view().take(i as int), name@),
        decreases v@.len() - i,
    {
        let ghost next = v.deep_view().take(i as int + 1);
        assert(next.drop_last() =~= v.deep_view().take(i as int));
        assert(next.last() == v@[i as int]@);
        if !str_eq(v[i].as_str(), name) {
            let ghost r0 = r.deep_view();
            r.push(v[i].clone());
            assert(r.deep_view() =~= r0.push(v@[i as int]@));
        }
        i = i + 1;
    }
    assert(v.deep_view().take(i as int) =~= v.deep_view());
    r
}

fn clone_opt(o: &Option<String>) -> (r: Option<String>)
    ensures
        chars_of_opt(r) == chars_of_opt(*o),
{
    match o {
        Some(s) => Some(s.clone()),
        None => None,
    }
}

fn make_file(module_name: &String, f: &ModuleFile, source: Option<String>, target: String, template: bool) -> (p: PhaseFile)
    ensures
        phase_file_view(p) == planned(module_name@, *f, chars_of_opt(source), target@, template),
{
    PhaseFile {
        module_name: module_name.clone(),
        source,
        target,
        content: clone_opt(&f.content),
        operation: f.operation,
        template,
        owner: clone_opt(&f.owner),
        group: clone_opt(&f.group),
        permissions: clone_opt(&f.permissions),
    }
}

fn claim(seen: &mut Vec<String>, t: &String, Ghost(set): Ghost<Set<Seq<char>>>) -> (fresh: bool)
    requires
        forall|x: Seq<char>| old(seen).deep_view().contains(x) <==> set.contains(x),
    ensures
        fresh == !set.contains(t@),
        fresh ==> forall|x: Seq<char>| final(seen).deep_view().contains(x) <==> set.insert(t@).contains(x),
        !fresh ==> *final(seen) == *old(seen),
{
    if contains_str(seen, t.as_str()) {
        false
    } else {
        let ghost s0 = seen.deep_view();
        seen.push(t.clone());
        proof {
            assert(seen.deep_view() =~= s0.push(t@));
            assert forall|x: Seq<char>| seen.deep_view().contains(x) <==> set.insert(t@).contains(x) by {
                if s0.contains(x) {
                    let k = choose|k: int| 0 <= k < s0.len() && s0[k] == x;
                    assert(seen.deep_view()[k] == x);
                }
                if seen.deep_view().contains(x) && x != t@ {
                    let k = choose|k: int| 0 <= k < seen.deep_view().len() && seen.deep_view()[k] == x;
                    assert(s0[k] == x);
                }
                assert(seen.deep_view()[s0.len() as int] == t@);
            }
        }
        true
    }
}

fn place_one(
    module_name: &String,
    location: &String,
    f: &ModuleFile,
    source: &Option<String>,
    target: &String,
    listing: &Vec<String>,
    home: &str,
    deploy_sys_files: bool,
    recorded: &Vec<String>,
    seen: &mut Vec<String>,
    Ghost(set): Ghost<Set<Seq<char>>>,
) -> (r: Result<(Vec<PhaseFile>, Vec<String>), PlanError>)
    requires
        forall|x: Seq<char>| old(seen).deep_view().contains(x) <==> set.contains(x),
    ensures
        match place_file(
            module_name@,
            location@,
            *f,
            chars_of_opt(*source),
            target@,
            listing.deep_view(),
            home@,
            deploy_sys_files,
            recorded.deep_view(),
            set,
        ) {
            Ok((new, rec2, sn2)) => r matches Ok((v, rec)) && files_view(v@) == new && rec.deep_view() == rec2 && forall|x: Seq<char>|
                final(seen).deep_view().contains(x) <==> sn2.contains(x),
            Err(e) => r == Err::<(Vec<PhaseFile>, Vec<String>), PlanError>(e),
        },
{
    let src: Option<String> = match source {
        Some(s) => Some(resolve_source(s.as_str(), location.as_str())),
        None => None,
    };
    let tgt = match resolve_target(target.as_str()) {
        Ok(t) => t,
        Err(e) => {
            return Err(PlanError::Path(e));
        },
    };
    match check_target_location(tgt.as_str(), home, deploy_sys_files) {
        Ok(()) => {},
        Err(e) => {
            return Err(PlanError::Path(e));
        },
    }
    let rec = remove_name(recorded, tgt.as_str());
    let wild = match needs_wildcard_expansion(&src, tgt.as_str()) {
        Ok(w) => w,
        Err(e) => {
            return Err(PlanError::Path(e));
        },
    };
    if wild {
        let s = match &src {
            Some(s) => s,
            None => {
                return Err(PlanError::Path(PathError::WildcardWithoutSource));
            },
        };
        let pairs = match expand_wildcards(s.as_str(), tgt.as_str(), listing) {
            Ok(p) => p,
            Err(e) => {
                return Err(PlanError::Path(e));
            },
        };
        let ghost ps = wildcard_pairs(s@, tgt@, listing.deep_view())->Ok_0;
        let mut out: Vec<PhaseFile> = Vec::new();
        let mut rec = rec;
        let ghost mut cur_set = set;
        let mut i: usize = 0;
        assert(ps.take(0) =~= Seq::<(Seq<char>, Seq<char>)>::empty());
        assert(files_view(out@) =~= Seq::<FileView>::empty());
        proof {
            let srcv = chars_of_opt(*source);
            let sp = match srcv {
                Some(x) => Some(resolved_source(x, location@)),
                None => None,
            };
            assert(sp == Some(s@));
            assert(wildcard_decision(sp, target@) == Ok::<bool, PathError>(true));
        }
        assert(place_file(module_name@, location@, *f, chars_of_opt(*source), target@, listing.deep_view(), home@,
            deploy_sys_files, recorded.deep_view(), set) == place_pairs(module_name@, *f, ps, without(recorded.deep_view(), tgt@), set));
        while i < pairs.len()
            invariant
                i <= pairs@.len(),
                pairs@.len() == ps.len(),
                forall|k: int| 0 <= k < ps.len() ==> (#[trigger] pairs@[k]).0@ == ps[k].0 && pairs@[k].1@ == ps[k].1,
                place_pairs(module_name@, *f, ps.take(i as int), without(recorded.deep_view(), tgt@), set) == Ok::<
                    (Seq<FileView>, Seq<Seq<char>>, Set<Seq<char>>),
                    PlanError,
                >((files_view(out@), rec.deep_view(), cur_set)),
                forall|x: Seq<char>| seen.deep_view().contains(x) <==> cur_set.contains(x),
                place_file(module_name@, location@, *f, chars_of_opt(*source), target@, listing.deep_view(), home@,
                    deploy_sys_files, recorded.deep_view(), set) == place_pairs(module_name@, *f, ps, without(recorded.deep_view(), tgt@), set),
            decreases pairs@.len() - i,
        {
            let ghost pre = ps.take(i as int);
            assert(ps.take(i as int + 1).drop_last() =~= pre);
            assert(ps.take(i as int + 1).last() == ps[i as int]);
            let t = replace_dot(pairs[i].1.as_str());
            if !claim(seen, &t, Ghost(cur_set)) {
                proof { lemma_place_pairs_error(module_name@, *f, ps, without(recorded.deep_view(), tgt@), set, i as int + 1, PlanError::DeclaredTwice); }
                return Err(PlanError::DeclaredTwice);
            }
            let tp = match f.template {
                Some(tp) => tp,
                None => {
                    proof { lemma_place_pairs_error(module_name@, *f, ps, without(recorded.deep_view(), tgt@), set, i as int + 1, PlanError::TemplateMissing); }
                    return Err(PlanError::TemplateMissing);
                },
            };
            rec = remove_name(&rec, t.as_str());
            let ghost o0 = out@;
            let pf = make_file(module_name, f, Some(pairs[i].0.clone()), t, tp);
            out.push(pf);
            proof {
                assert(files_view(out@) =~= files_view(o0).push(phase_file_view(pf)));
                cur_set = cur_set.insert(replace_dot_marker(ps[i as int].1));
            }
            i = i + 1;
        }
        assert(ps.take(i as int) =~= ps);
        Ok((out, rec))
    } else {
        if !claim(seen, &tgt, Ghost(set)) {
            return Err(PlanError::DeclaredTwice);
        }
        let tp = match f.template {
            Some(tp) => tp,
            None => {
                return Err(PlanError::TemplateMissing);
            },
        };
        let shown = replace_dot(tgt.as_str());
        let pf = make_file(module_name, f, src, shown, tp);
        let mut out: Vec<PhaseFile> = Vec::new();
        out.push(pf);
        assert(files_view(out@) =~= seq![phase_file_view(pf)]);
        Ok((out, rec))
    }
}

proof fn lemma_place_pairs_error(
    module: Seq<char>,
    f: ModuleFile,
    pairs: Seq<(Seq<char>, Seq<char>)>,
    recorded: Seq<Seq<char>>,
    seen: Set<Seq<char>>,
    n: int,
    e: PlanError,
)
    requires
        0 < n <= pairs.len(),
        place_pairs(module, f, pairs.take(n), recorded, seen) == Err::<(Seq<FileView>, Seq<Seq<char>>, Set<Seq<char>>), PlanError>(e),
    ensures
        place_pairs(module, f, pairs, recorded, seen) == Err::<(Seq<FileView>, Seq<Seq<char>>, Set<Seq<char>>), PlanError>(e),
    decreases pairs.len() - n,
{
    if n < pairs.len() {
        assert(pairs.take(n + 1).drop_last() =~= pairs.take(n));
        lemma_place_pairs_error(module, f, pairs, recorded, seen, n + 1, e);
    } else {
        assert(pairs.take(n) =~= pairs);
    }
}

/// The view of the expanded sources and targets.
pub open spec fn expanded_views(v: Seq<(Option<String>, String)>) -> Seq<(Option<Seq<char>>, Seq<char>)> {
    v.map_values(|e: (Option<String>, String)| expanded_view(e))
}

/// The views of the listings.
pub open spec fn listings_view(v: Seq<Vec<String>>) -> Seq<Seq<Seq<char>>> {
    v.map_values(|l: Vec<String>| l.deep_view())
}

fn copy_names(v: &Vec<String>) -> (r: Vec<String>)
    ensures
        r.deep_view() == v.deep_view(),
{
    let mut r: Vec<String> = Vec::new();
    let mut i: usize = 0;
    while i < v.len()
        invariant
            i <= v@.len(),
            r@.len() == i,
            forall|k: int| 0 <= k < i ==> (#[trigger] r@[k])@ == v@[k]@,
        decreases v@.len() - i,
    {
        r.push(v[i].clone());
        i = i + 1;
    }
    assert(r.deep_view() =~= v.deep_view());
    r
}

/// Places a module's files into the setup and config phases (see
/// [`place_files`]), given for each file its source and target with
/// variables expanded and, for a `*` entry, the files found under its source
/// directory. `seen` holds the targets claimed so far by all modules; it
/// gains this module's targets, and is left as it was on an error.
pub fn plan_module_files(
    module_name: &String,
    location: &String,
    files: &Vec<ModuleFile>,
    expanded: &Vec<(Option<String>, String)>,
    listings: &Vec<Vec<String>>,
    home: &str,
    deploy_sys_files: bool,
    recorded: &Vec<String>,
    seen: &mut Vec<String>,
) -> (r: Result<FilePlan, PlanError>)
    requires
        expanded@.len() == files@.len(),
        listings@.len() == files@.len(),
    ensures
        match place_files(
            module_name@,
            location@,
            files@,
            expanded_views(expanded@),
            listings_view(listings@),
            home@,
            deploy_sys_files,
            recorded.deep_view(),
            old(seen).deep_view().to_set(),
            files@.len(),
        ) {
            Ok((setup, config, stale, claimed)) => r matches Ok(p) && files_view(p.setup@) == setup && files_view(p.config@) == config
                && p.stale.deep_view() == stale && final(seen).deep_view().to_set() == claimed,
            Err(e) => r is Err && r->Err_0 == e && *final(seen) == *old(seen),
        },
{
    let ghost set0 = seen.deep_view().to_set();
    let mut work = copy_names(seen);
    proof {
        assert forall|x: Seq<char>| work.deep_view().contains(x) <==> set0.contains(x) by {
        }
    }
    let mut setup: Vec<PhaseFile> = Vec::new();
    let mut config: Vec<PhaseFile> = Vec::new();
    let mut rec = copy_names(recorded);
    let ghost mut cur_set = set0;
    let mut i: usize = 0;
    assert(files_view(setup@) =~= Seq::<FileView>::empty());
    assert(files_view(config@) =~= Seq::<FileView>::empty());
    while i < files.len()
        invariant
            i <= files@.len(),
            expanded@.len() == files@.len(),
            listings@.len() == files@.len(),
            place_files(module_name@, location@, files@, expanded_views(expanded@), listings_view(listings@), home@,
                deploy_sys_files, recorded.deep_view(), set0, i as nat) == Ok::<PlanView, PlanError>(
                (files_view(setup@), files_view(config@), rec.deep_view(), cur_set),
            ),
            forall|x: Seq<char>| work.deep_view().contains(x) <==> cur_set.contains(x),
            *seen == *old(seen),
            set0 == old(seen).deep_view().to_set(),
        decreases files@.len() - i,
    {
        let f = &files[i];
        let ghost ev = expanded_views(expanded@)[i as int];
        assert(ev == expanded_view(expanded@[i as int]));
        assert(listings_view(listings@)[i as int] == listings@[i as int].deep_view());
        let placed = place_one(
            module_name,
            location,
            f,
            &expanded[i].0,
            &expanded[i].1,
            &listings[i],
            home,
            deploy_sys_files,
            &rec,
            &mut work,
            Ghost(cur_set),
        );
        let (mut new, rec2) = match placed {
            Ok(x) => x,
            Err(e) => {
                proof { lemma_place_files_error(module_name@, location@, files@, expanded_views(expanded@), listings_view(listings@), home@, deploy_sys_files, recorded.deep_view(), set0, i as nat + 1, e); }
                return Err(e);
            },
        };
        let ghost n0 = files_view(new@);
        match f.phase {
            DeployPhase::Setup => {
                let ghost s0 = files_view(setup@);
                setup.append(&mut new);
                assert(files_view(setup@) =~= s0 + n0);
            },
            DeployPhase::Config => {
                let ghost c0 = files_view(config@);
                config.append(&mut new);
                assert(files_view(config@) =~= c0 + n0);
            },
            _ => {
                proof { lemma_place_files_error(module_name@, location@, files@, expanded_views(expanded@), listings_view(listings@), home@, deploy_sys_files, recorded.deep_view(), set0, i as nat + 1, PlanError::InvalidPhase); }
                return Err(PlanError::InvalidPhase);
            },
        }
        rec = rec2;
        proof {
            let (_, _, sn2) = place_file(module_name@, location@, files@[i as int], ev.0, ev.1, listings@[i as int].deep_view(), home@,
                deploy_sys_files, place_files(module_name@, location@, files@, expanded_views(expanded@), listings_view(listings@), home@,
                deploy_sys_files, recorded.deep_view(), set0, i as nat)->Ok_0.2, cur_set)->Ok_0;
            cur_set = sn2;
        }
        i = i + 1;
    }
    proof {
        assert(work.deep_view().to_set() =~= cur_set) by {
            assert forall|x: Seq<char>| work.deep_view().to_set().contains(x) <==> cur_set.contains(x) by {
            }
        }
    }
    *seen = work;
    Ok(FilePlan { setup, config, stale: rec })
}

proof fn lemma_place_files_error(
    module: Seq<char>,
    location: Seq<char>,
    files: Seq<ModuleFile>,
    expanded: Seq<(Option<Seq<char>>, Seq<char>)>,
    listings: Seq<Seq<Seq<char>>>,
    home: Seq<char>,
    deploy_sys_files: bool,
    recorded: Seq<Seq<char>>,
    seen: Set<Seq<char>>,
    n: nat,
    e: PlanError,
)
    requires
        0 < n <= files.len(),
        place_files(module, location, files, expanded, listings, home, deploy_sys_files, recorded, seen, n) == Err::<PlanView, PlanError>(e),
    ensures
        place_files(module, location, files, expanded, listings, home, deploy_sys_files, recorded, seen, files.len()) == Err::<PlanView, PlanError>(e),
    decreases files.len() - n,
{
    if n < files.len() {
        lemma_place_files_error(module, location, files, expanded, listings, home, deploy_sys_files, recorded, seen, n + 1, e);
    }
}

/// A phase file carries the settings of the module file it was made from:
/// the module's name, the content, the operation (link, copy or create),
/// the template setting, the owner, the group and the permissions.
pub open spec fn carries(v: FileView, module: Seq<char>, f: ModuleFile) -> bool {
    &&& v.0 == module
    &&& v.3 == chars_of_opt(f.content)
    &&& v.4 == f.operation
    &&& f.template == Some(v.5)
    &&& v.6 == chars_of_opt(f.owner)
    &&& v.7 == chars_of_opt(f.group)
    &&& v.8 == chars_of_opt(f.permissions)
}

/// `v` was made from one of the first `n` files, one of the given phase.
pub open spec fn made_from(module: Seq<char>, files: Seq<ModuleFile>, n: nat, phase: DeployPhase, v: FileView) -> bool {
    exists|i: int| 0 <= i < n && files[i].phase == phase && #[trigger] carries(v, module, files[i])
}

proof fn lemma_place_pairs_carries(
    module: Seq<char>,
    f: ModuleFile,
    pairs: Seq<(Seq<char>, Seq<char>)>,
    recorded: Seq<Seq<char>>,
    seen: Set<Seq<char>>,
)
    ensures
        place_pairs(module, f, pairs, recorded, seen) matches Ok((out, _, _)) ==> forall|k: int|
            0 <= k < out.len() ==> carries(#[trigger] out[k], module, f),
    decreases pairs.len(),
{
    if pairs.len() > 0 {
        lemma_place_pairs_carries(module, f, pairs.drop_last(), recorded, seen);
        if let Ok((out, _, _)) = place_pairs(module, f, pairs, recorded, seen) {
            let (out0, _, _) = place_pairs(module, f, pairs.drop_last(), recorded, seen)->Ok_0;
            assert forall|k: int| 0 <= k < out.len() implies carries(#[trigger] out[k], module, f) by {
                if k < out0.len() {
                    assert(out[k] == out0[k]);
                }
            }
        }
    }
}

proof fn lemma_place_file_carries(
    module: Seq<char>,
    location: Seq<char>,
    f: ModuleFile,
    source: Option<Seq<char>>,
    target: Seq<char>,
    listing: Seq<Seq<char>>,
    home: Seq<char>,
    deploy_sys_files: bool,
    recorded: Seq<Seq<char>>,
    seen: Set<Seq<char>>,
)
    ensures
        place_file(module, location, f, source, target, listing, home, deploy_sys_files, recorded, seen) matches Ok((new, _, _))
            ==> forall|k: int| 0 <= k < new.len() ==> carries(#[trigger] new[k], module, f),
{
    let src = match source {
        Some(s) => Some(resolved_source(s, location)),
        None => None,
    };
    if is_absolute(target) && (deploy_sys_files || path_starts_with(target, home)) {
        if wildcard_decision(src, target) == Ok::<bool, PathError>(true) {
            if let Ok(pairs) = wildcard_pairs(src->Some_0, target, listing) {
                lemma_place_pairs_carries(module, f, pairs, without(recorded, target), seen);
            }
        }
    }
}

/// Every file that a phase deploys was made from a module file placed in
/// that phase, and carries that file's settings: a file to be copied is
/// copied, a file to be linked is linked, and its content, template
/// setting, owner, group and permissions are the ones written for it (for
/// each file of an expanded `*` entry too).
pub proof fn lemma_plan_keeps_file_settings(
    module: Seq<char>,
    location: Seq<char>,
    files: Seq<ModuleFile>,
    expanded: Seq<(Option<Seq<char>>, Seq<char>)>,
    listings: Seq<Seq<Seq<char>>>,
    home: Seq<char>,
    deploy_sys_files: bool,
    recorded: Seq<Seq<char>>,
    seen: Set<Seq<char>>,
    n: nat,
)
    requires
        n <= files.len(),
    ensures
        place_files(module, location, files, expanded, listings, home, deploy_sys_files, recorded, seen, n) matches Ok(
            (setup, config, _, _),
        ) ==> (forall|k: int| 0 <= k < setup.len() ==> made_from(module, files, n, DeployPhase::Setup, #[trigger] setup[k]))
            && (forall|k: int| 0 <= k < config.len() ==> made_from(module, files, n, DeployPhase::Config, #[trigger] config[k])),
    decreases n,
{
    if n > 0 {
        let m = (n - 1) as nat;
        lemma_plan_keeps_file_settings(module, location, files, expanded, listings, home, deploy_sys_files, recorded, seen, m);
        if let Ok((setup, config, _, _)) = place_files(module, location, files, expanded, listings, home, deploy_sys_files, recorded, seen, n) {
            let (setup0, config0, rec, sn) = place_files(module, location, files, expanded, listings, home, deploy_sys_files, recorded, seen, m)->Ok_0;
            let i = m as int;
            lemma_place_file_carries(module, location, files[i], expanded[i].0, expanded[i].1, listings[i], home, deploy_sys_files, rec, sn);
            let (new, _, _) = place_file(module, location, files[i], expanded[i].0, expanded[i].1, listings[i], home, deploy_sys_files, rec, sn)->Ok_0;
            assert forall|k: int| 0 <= k < setup.len() implies made_from(module, files, n, DeployPhase::Setup, #[trigger] setup[k]) by {
                if k < setup0.len() {
                    assert(setup[k] == setup0[k]);
                    assert(made_from(module, files, m, DeployPhase::Setup, setup0[k]));
                    let j = choose|j: int| 0 <= j < m && files[j].phase == DeployPhase::Setup && #[trigger] carries(setup0[k], module, files[j]);
                    assert(carries(setup[k], module, files[j]));
                } else {
                    assert(files[i].phase == DeployPhase::Setup);
                    assert(setup[k] == new[k - setup0.len()]);
                    assert(carries(setup[k], module, files[i]));
                }
            }
            assert forall|k: int| 0 <= k < config.len() implies made_from(module, files, n, DeployPhase::Config, #[trigger] config[k]) by {
                if k < config0.len() {
                    assert(config[k] == config0[k]);
                    assert(made_from(module, files, m, DeployPhase::Config, config0[k]));
                    let j = choose|j: int| 0 <= j < m && files[j].phase == DeployPhase::Config && #[trigger] carries(config0[k], module, files[j]);
                    assert(carries(config[k], module, files[j]));
                } else {
                    assert(files[i].phase == DeployPhase::Config);
                    assert(config[k] == new[k - config0.len()]);
                    assert(carries(config[k], module, files[i]));
                }
            }
        }
    }
}

} // verus!
