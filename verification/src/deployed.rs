//! Decisions about what is already deployed: which modules a removal takes
//! along, which automatically installed modules are no longer needed, which
//! recorded tasks are obsolete, and whether a deployed file needs work.

use vstd::prelude::*;
use crate::module::FileOperation;
use crate::text::{contains_str, str_eq};

verus! {

/// A deployed module as the store records it.
#[derive(Debug)]
pub struct StoredModule {
    pub name: String,
    /// `manual` or `automatic`.
    pub reason: String,
    pub depends: Option<Vec<String>>,
}

/// Name of the pseudo module that owns generated files.
pub open spec fn generated_module() -> Seq<char> {
    "__dotdeploy_generated"@
}

/// The name under which generated files are recorded.
pub fn generated_module_name() -> (s: &'static str)
    ensures
        s@ == generated_module(),
{
    "__dotdeploy_generated"
}

/// The dependencies recorded for a module.
pub open spec fn deps_of(m: StoredModule) -> Seq<Seq<char>> {
    match m.depends {
        Some(v) => v.deep_view(),
        None => Seq::empty(),
    }
}

/// `j` is the first stored module named `name`: the one a lookup by name finds.
pub open spec fn is_first(stored: Seq<StoredModule>, name: Seq<char>, j: int) -> bool {
    0 <= j < stored.len() && stored[j].name@ == name && forall|k: int| 0 <= k < j ==> (#[trigger] stored[k]).name@ != name
}

/// Some module of that name is deployed.
pub open spec fn is_deployed(stored: Seq<StoredModule>, name: Seq<char>) -> bool {
    exists|j: int| 0 <= j < stored.len() && (#[trigger] stored[j]).name@ == name
}

/// The recorded dependencies of the deployed module `name`.
pub open spec fn deployed_deps(stored: Seq<StoredModule>, name: Seq<char>) -> Seq<Seq<char>> {
    deps_of(stored[choose|j: int| is_first(stored, name, j)])
}

/// The modules a removal starts from: the deployed modules among those
/// requested, every deployed dependency of a module taken (recursively), and
/// nothing else: each module is requested or a dependency of one listed
/// before it.
pub open spec fn removal_closed(stored: Seq<StoredModule>, requested: Seq<Seq<char>>, r: Seq<Seq<char>>) -> bool {
    &&& forall|i: int, j: int| 0 <= i < r.len() && 0 <= j < r.len() && i != j ==> #[trigger] r[i] != #[trigger] r[j]
    &&& forall|i: int| 0 <= i < r.len() ==> is_deployed(stored, #[trigger] r[i])
    &&& forall|k: int| 0 <= k < requested.len() && is_deployed(stored, #[trigger] requested[k]) ==> r.contains(requested[k])
    &&& forall|i: int, k: int|
        0 <= i < r.len() && 0 <= k < deployed_deps(stored, r[i]).len() && is_deployed(
            stored,
            #[trigger] deployed_deps(stored, #[trigger] r[i])[k],
        ) ==> r.contains(deployed_deps(stored, r[i])[k])
    &&& forall|i: int|
        0 <= i < r.len() ==> requested.contains(#[trigger] r[i]) || exists|j: int|
            0 <= j < i && #[trigger] deployed_deps(stored, r[j]).contains(r[i])
}

fn find_first(stored: &Vec<StoredModule>, name: &String) -> (r: Option<usize>)
    ensures
        r is None ==> !is_deployed(stored@, name@),
        r matches Some(j) ==> is_first(stored@, name@, j as int),
{
    let mut i: usize = 0;
    while i < stored.len()
        invariant
            i <= stored@.len(),
            forall|k: int| 0 <= k < i ==> (#[trigger] stored@[k]).name@ != name@,
        decreases stored@.len() - i,
    {
        if stored[i].name == *name {
            return Some(i);
        }
        i = i + 1;
    }
    None
}

spec fn count_unflagged(flags: Seq<bool>) -> nat
    decreases flags.len(),
{
    if flags.len() == 0 {
        0
    } else {
        count_unflagged(flags.drop_last()) + if flags.last() { 0nat } else { 1nat }
    }
}

proof fn lemma_flag_decreases(flags: Seq<bool>, j: int)
    requires
        0 <= j < flags.len(),
        !flags[j],
    ensures
        count_unflagged(flags.update(j, true)) < count_unflagged(flags),
    decreases flags.len(),
{
    let u = flags.update(j, true);
    if j == flags.len() - 1 {
        assert(u.drop_last() =~= flags.drop_last());
    } else {
        assert(u.drop_last() =~= flags.drop_last().update(j, true));
        lemma_flag_decreases(flags.drop_last(), j);
    }
}

proof fn lemma_first_unique(stored: Seq<StoredModule>, name: Seq<char>, j1: int, j2: int)
    requires
        is_first(stored, name, j1),
        is_first(stored, name, j2),
    ensures
        j1 == j2,
{
    if j1 < j2 {
        assert(stored[j1].name@ == name);
    } else if j2 < j1 {
        assert(stored[j2].name@ == name);
    }
}

spec fn flagged_first(stored: Seq<StoredModule>, flags: Seq<bool>, name: Seq<char>) -> bool {
    exists|j: int| #[trigger] is_first(stored, name, j) && flags[j]
}

spec fn walk_inv(
    stored: Seq<StoredModule>,
    req: Seq<Seq<char>>,
    flags: Seq<bool>,
    result: Seq<Seq<char>>,
    stack: Seq<Seq<char>>,
) -> bool {
    &&& flags.len() == stored.len()
    &&& forall|a: int, b: int|
        0 <= a < result.len() && 0 <= b < result.len() && a != b ==> #[trigger] result[a] != #[trigger] result[b]
    &&& forall|a: int| 0 <= a < result.len() ==> flagged_first(stored, flags, #[trigger] result[a])
    &&& forall|j: int|
        0 <= j < flags.len() && #[trigger] flags[j] ==> result.contains(stored[j].name@) && is_first(
            stored,
            stored[j].name@,
            j,
        )
    &&& forall|a: int|
        0 <= a < result.len() ==> req.contains(#[trigger] result[a]) || exists|b: int|
            0 <= b < a && #[trigger] deployed_deps(stored, result[b]).contains(result[a])
    &&& forall|s: int|
        0 <= s < stack.len() ==> req.contains(#[trigger] stack[s]) || exists|b: int|
            0 <= b < result.len() && #[trigger] deployed_deps(stored, result[b]).contains(stack[s])
    &&& forall|a: int, k: int|
        0 <= a < result.len() && 0 <= k < deployed_deps(stored, result[a]).len() && is_deployed(
            stored,
            #[trigger] deployed_deps(stored, #[trigger] result[a])[k],
        ) ==> result.contains(deployed_deps(stored, result[a])[k]) || stack.contains(deployed_deps(stored, result[a])[k])
    &&& forall|k: int|
        0 <= k < req.len() && is_deployed(stored, #[trigger] req[k]) ==> result.contains(req[k]) || stack.contains(req[k])
}

proof fn lemma_drop_not_deployed(
    stored: Seq<StoredModule>,
    req: Seq<Seq<char>>,
    flags: Seq<bool>,
    result: Seq<Seq<char>>,
    stack: Seq<Seq<char>>,
)
    requires
        walk_inv(stored, req, flags, result, stack),
        stack.len() > 0,
        !is_deployed(stored, stack.last()) || result.contains(stack.last()),
    ensures
        walk_inv(stored, req, flags, result, stack.drop_last()),
{
    let st = stack.drop_last();
    let x = stack.last();
    assert forall|s: int| 0 <= s < st.len() implies req.contains(#[trigger] st[s]) || exists|b: int|
        0 <= b < result.len() && #[trigger] deployed_deps(stored, result[b]).contains(st[s]) by {
        assert(st[s] == stack[s]);
    }
    assert forall|y: Seq<char>| stack.contains(y) && is_deployed(stored, y) && !result.contains(y) implies #[trigger] st.contains(y) by {
        let i = choose|i: int| 0 <= i < stack.len() && stack[i] == y;
        if i == stack.len() - 1 {
            assert(y == x);
        } else {
            assert(st[i] == y);
        }
    }
}

proof fn lemma_flag_new(
    stored: Seq<StoredModule>,
    req: Seq<Seq<char>>,
    flags: Seq<bool>,
    result: Seq<Seq<char>>,
    stack: Seq<Seq<char>>,
    j: int,
    deps: Seq<Seq<char>>,
)
    requires
        walk_inv(stored, req, flags, result, stack),
        stack.len() > 0,
        is_first(stored, stack.last(), j),
        !flags[j],
        deps == deps_of(stored[j]),
    ensures
        walk_inv(stored, req, flags.update(j, true), result.push(stack.last()), stack.drop_last() + deps),
{
    let x = stack.last();
    let f2 = flags.update(j, true);
    let r2 = result.push(x);
    let s2 = stack.drop_last() + deps;
    assert(deployed_deps(stored, x) == deps) by {
        let jj = choose|jj: int| is_first(stored, x, jj);
        lemma_first_unique(stored, x, j, jj);
    }
    assert(!result.contains(x)) by {
        if result.contains(x) {
            let a = choose|a: int| 0 <= a < result.len() && result[a] == x;
            assert(flagged_first(stored, flags, result[a]));
            let jj = choose|jj: int| #[trigger] is_first(stored, result[a], jj) && flags[jj];
            lemma_first_unique(stored, x, j, jj);
        }
    }
    assert forall|a: int, b: int| 0 <= a < r2.len() && 0 <= b < r2.len() && a != b implies #[trigger] r2[a] != #[trigger] r2[b] by {
        if a < result.len() && b < result.len() {
        } else if a < result.len() {
            assert(result.contains(r2[a]));
        } else {
            assert(result.contains(r2[b]));
        }
    }
    assert forall|a: int| 0 <= a < r2.len() implies flagged_first(stored, f2, #[trigger] r2[a]) by {
        if a < result.len() {
            assert(flagged_first(stored, flags, result[a]));
            let jj = choose|jj: int| #[trigger] is_first(stored, result[a], jj) && flags[jj];
            assert(f2[jj]);
            assert(r2[a] == result[a]);
        } else {
            assert(is_first(stored, r2[a], j) && f2[j]);
        }
    }
    assert forall|jj: int| 0 <= jj < f2.len() && #[trigger] f2[jj] implies r2.contains(stored[jj].name@) && is_first(
        stored,
        stored[jj].name@,
        jj,
    ) by {
        if jj == j {
            assert(r2[result.len() as int] == x);
        } else {
            assert(flags[jj]);
            let a = choose|a: int| 0 <= a < result.len() && result[a] == stored[jj].name@;
            assert(r2[a] == result[a]);
        }
    }
    assert forall|a: int| 0 <= a < r2.len() implies req.contains(#[trigger] r2[a]) || exists|b: int|
        0 <= b < a && #[trigger] deployed_deps(stored, r2[b]).contains(r2[a]) by {
        if a < result.len() {
            assert(r2[a] == result[a]);
            if !req.contains(result[a]) {
                let b = choose|b: int| 0 <= b < a && #[trigger] deployed_deps(stored, result[b]).contains(result[a]);
                assert(r2[b] == result[b]);
            }
        } else {
            let s = stack.len() - 1;
            assert(stack[s] == x);
            if !req.contains(x) {
                let b = choose|b: int| 0 <= b < result.len() && #[trigger] deployed_deps(stored, result[b]).contains(stack[s]);
                assert(r2[b] == result[b]);
            }
        }
    }
    assert forall|s: int| 0 <= s < s2.len() implies req.contains(#[trigger] s2[s]) || exists|b: int|
        0 <= b < r2.len() && #[trigger] deployed_deps(stored, r2[b]).contains(s2[s]) by {
        if s < stack.len() - 1 {
            assert(s2[s] == stack[s]);
            if !req.contains(stack[s]) {
                let b = choose|b: int| 0 <= b < result.len() && #[trigger] deployed_deps(stored, result[b]).contains(stack[s]);
                assert(r2[b] == result[b]);
            }
        } else {
            let k = s - (stack.len() - 1);
            assert(s2[s] == deps[k]);
            assert(deps.contains(deps[k]));
            assert(r2[result.len() as int] == x);
        }
    }
    assert forall|y: Seq<char>| (result.contains(y) || stack.contains(y)) implies #[trigger] r2.contains(y) || s2.contains(y) by {
        if result.contains(y) {
            let a = choose|a: int| 0 <= a < result.len() && result[a] == y;
            assert(r2[a] == y);
        } else {
            let i = choose|i: int| 0 <= i < stack.len() && stack[i] == y;
            if i == stack.len() - 1 {
                assert(r2[result.len() as int] == y);
            } else {
                assert(s2[i] == y);
            }
        }
    }
    assert forall|a: int, k: int|
        0 <= a < r2.len() && 0 <= k < deployed_deps(stored, r2[a]).len() && is_deployed(
            stored,
            #[trigger] deployed_deps(stored, #[trigger] r2[a])[k],
        ) implies r2.contains(deployed_deps(stored, r2[a])[k]) || s2.contains(deployed_deps(stored, r2[a])[k]) by {
        if a < result.len() {
            assert(r2[a] == result[a]);
            let y = deployed_deps(stored, result[a])[k];
            assert(result.contains(y) || stack.contains(y));
        } else {
            assert(r2[a] == x);
            assert(s2[stack.len() - 1 + k] == deps[k]);
        }
    }
    assert forall|k: int| 0 <= k < req.len() && is_deployed(stored, #[trigger] req[k]) implies r2.contains(req[k])
        || s2.contains(req[k]) by {
        assert(result.contains(req[k]) || stack.contains(req[k]));
    }
}

/// Collects the requested modules with their deployed dependencies (see
/// [`removal_closed`]); a removal takes along those of them that no module
/// staying deployed needs (see [`pruned_removal`]).
pub fn removal_set(requested: &Vec<String>, stored: &Vec<StoredModule>) -> (r: Vec<String>)
    ensures
        removal_closed(stored@, requested.deep_view(), r.deep_view()),
{
    let n = stored.len();
    let mut flags: Vec<bool> = Vec::new();
    while flags.len() < n
        invariant
            flags@.len() <= n,
            n == stored@.len(),
            forall|k: int| 0 <= k < flags@.len() ==> !flags@[k],
        decreases n - flags@.len(),
    {
        flags.push(false);
    }
    let mut stack: Vec<String> = Vec::new();
    let mut i: usize = 0;
    while i < requested.len()
        invariant
            i <= requested@.len(),
            stack@.len() == i,
            forall|k: int| 0 <= k < i ==> (#[trigger] stack@[k])@ == requested@[k]@,
        decreases requested@.len() - i,
    {
        stack.push(requested[i].clone());
        i = i + 1;
    }
    let ghost req = requested.deep_view();
    assert(stack.deep_view() =~= req);
    let mut result: Vec<String> = Vec::new();
    proof {
        assert(result.deep_view() =~= Seq::<Seq<char>>::empty());
        assert forall|k: int| 0 <= k < req.len() && is_deployed(stored@, #[trigger] req[k]) implies result.deep_view().contains(
            req[k],
        ) || stack.deep_view().contains(req[k]) by {
            assert(stack.deep_view()[k] == req[k]);
        }
        assert forall|s: int| 0 <= s < stack.deep_view().len() implies req.contains(#[trigger] stack.deep_view()[s]) || exists|b: int|
            0 <= b < result.deep_view().len() && #[trigger] deployed_deps(stored@, result.deep_view()[b]).contains(stack.deep_view()[s]) by {
            assert(req[s] == stack.deep_view()[s]);
        }
    }
    while stack.len() > 0
        invariant
            n == stored@.len(),
            req == requested.deep_view(),
            walk_inv(stored@, req, flags@, result.deep_view(), stack.deep_view()),
        decreases count_unflagged(flags@), stack@.len(),
    {
        let ghost st0 = stack.deep_view();
        let name = stack.pop().unwrap();
        proof {
            assert(stack.deep_view() =~= st0.drop_last());
            assert(st0.last() == name@);
        }
        match find_first(stored, &name) {
            None => {
                proof { lemma_drop_not_deployed(stored@, req, flags@, result.deep_view(), st0); }
            },
            Some(j) => {
                if !flags[j] {
                    let ghost deps = deps_of(stored@[j as int]);
                    proof {
                        lemma_flag_new(stored@, req, flags@, result.deep_view(), st0, j as int, deps);
                        lemma_flag_decreases(flags@, j as int);
                    }
                    let ghost r0 = result.deep_view();
                    flags.set(j, true);
                    result.push(name);
                    assert(result.deep_view() =~= r0.push(st0.last()));
                    let ghost base = stack.deep_view();
                    if let Some(ds) = &stored[j].depends {
                        let ghost base_v = stack@;
                        let mut k: usize = 0;
                        while k < ds.len()
                            invariant
                                k <= ds@.len(),
                                stack@.len() == base_v.len() + k,
                                forall|m: int| 0 <= m < base_v.len() ==> #[trigger] stack@[m] == base_v[m],
                                forall|m: int| 0 <= m < k ==> (#[trigger] stack@[base_v.len() + m])@ == ds@[m]@,
                            decreases ds@.len() - k,
                        {
                            stack.push(ds[k].clone());
                            k = k + 1;
                        }
                        assert(stack.deep_view() =~= base + deps) by {
                            assert(deps == ds.deep_view());
                            assert forall|m: int| 0 <= m < stack.deep_view().len() implies stack.deep_view()[m] == (base + deps)[m] by {
                                if m < base_v.len() {
                                    assert(stack@[m] == base_v[m]);
                                } else {
                                    assert(stack@[base_v.len() + (m - base_v.len())]@ == ds@[m - base_v.len()]@);
                                }
                            }
                        }
                    } else {
                        assert(stack.deep_view() =~= base + deps);
                    }
                } else {
                    proof {
                        assert(result.deep_view().contains(stored@[j as int].name@));
                        lemma_drop_not_deployed(stored@, req, flags@, result.deep_view(), st0);
                    }
                }
            },
        }
    }
    proof {
        let r = result.deep_view();
        assert forall|k: int| 0 <= k < req.len() && is_deployed(stored@, #[trigger] req[k]) implies r.contains(req[k]) by {
            assert(!stack.deep_view().contains(req[k]));
        }
        assert forall|i: int| 0 <= i < r.len() implies is_deployed(stored@, #[trigger] r[i]) by {
            assert(flagged_first(stored@, flags@, r[i]));
            let j = choose|j: int| #[trigger] is_first(stored@, r[i], j) && flags@[j];
            assert(stored@[j].name@ == r[i]);
        }
        assert forall|a: int, k: int|
            0 <= a < r.len() && 0 <= k < deployed_deps(stored@, r[a]).len() && is_deployed(
                stored@,
                #[trigger] deployed_deps(stored@, #[trigger] r[a])[k],
            ) implies r.contains(deployed_deps(stored@, r[a])[k]) by {
            assert(!stack.deep_view().contains(deployed_deps(stored@, r[a])[k]));
        }
    }
    result
}

/// Some deployed module that is not in `r` depends on `m`.
pub open spec fn needed_outside(stored: Seq<StoredModule>, r: Seq<Seq<char>>, m: Seq<char>) -> bool {
    exists|j: int| 0 <= j < stored.len() && !r.contains(stored[j].name@) && #[trigger] deps_of(stored[j]).contains(m)
}

/// No module of `r` that was not requested is still needed by a deployed
/// module outside `r`.
pub open spec fn keeps_needed(stored: Seq<StoredModule>, requested: Seq<Seq<char>>, r: Seq<Seq<char>>) -> bool {
    forall|i: int| 0 <= i < r.len() && !requested.contains(r[i]) ==> !needed_outside(stored, r, #[trigger] r[i])
}

/// Every module of `a` is in `b`.
pub open spec fn seq_subset(a: Seq<Seq<char>>, b: Seq<Seq<char>>) -> bool {
    forall|x: Seq<char>| #[trigger] a.contains(x) ==> b.contains(x)
}

/// `r` is what a removal takes along of `c` (the requested modules and all
/// their deployed dependencies): the requested ones, and the dependencies
/// that no module staying deployed needs. It is the largest part of `c`
/// that takes along nothing still needed, each module once.
pub open spec fn pruned_removal(stored: Seq<StoredModule>, requested: Seq<Seq<char>>, c: Seq<Seq<char>>, r: Seq<Seq<char>>) -> bool {
    &&& r.no_duplicates()
    &&& seq_subset(r, c)
    &&& forall|x: Seq<char>| #[trigger] c.contains(x) && requested.contains(x) ==> r.contains(x)
    &&& keeps_needed(stored, requested, r)
    &&& forall|t: Seq<Seq<char>>| #[trigger] keeps_needed(stored, requested, t) && seq_subset(t, c) ==> seq_subset(t, r)
}

/// Whether a deployed module outside `r` depends on `m`.
fn needed_by_outside(stored: &Vec<StoredModule>, r: &Vec<String>, m: &String) -> (b: bool)
    ensures
        b == needed_outside(stored@, r.deep_view(), m@),
{
    let mut j: usize = 0;
    while j < stored.len()
        invariant
            j <= stored@.len(),
            forall|k: int| 0 <= k < j ==> !(!r.deep_view().contains(stored@[k].name@) && #[trigger] deps_of(stored@[k]).contains(m@)),
        decreases stored@.len() - j,
    {
        if !contains_str(r, stored[j].name.as_str()) {
            match &stored[j].depends {
                Some(d) => {
                    if contains_str(d, m.as_str()) {
                        assert(deps_of(stored@[j as int]) == d.deep_view());
                        return true;
                    }
                },
                None => {},
            }
        }
        j = j + 1;
    }
    false
}

/// The first module of `r` that was not requested and that a deployed module
/// outside `r` still needs, if any.
fn first_needed(requested: &Vec<String>, stored: &Vec<StoredModule>, r: &Vec<String>) -> (f: Option<usize>)
    ensures
        f is None ==> keeps_needed(stored@, requested.deep_view(), r.deep_view()),
        f matches Some(i) ==> i < r@.len() && !requested.deep_view().contains(r.deep_view()[i as int]) && needed_outside(
            stored@,
            r.deep_view(),
            r.deep_view()[i as int],
        ),
{
    let mut i: usize = 0;
    while i < r.len()
        invariant
            i <= r@.len(),
            forall|k: int|
                0 <= k < i && !requested.deep_view().contains(r.deep_view()[k]) ==> !needed_outside(
                    stored@,
                    r.deep_view(),
                    #[trigger] r.deep_view()[k],
                ),
        decreases r@.len() - i,
    {
        assert(r.deep_view()[i as int] == r@[i as int]@);
        if !contains_str(requested, r[i].as_str()) && needed_by_outside(stored, r, &r[i]) {
            return Some(i);
        }
        i = i + 1;
    }
    None
}

proof fn lemma_remove_contains(s: Seq<Seq<char>>, i: int, x: Seq<char>)
    requires
        0 <= i < s.len(),
    ensures
        s.remove(i).contains(x) ==> s.contains(x),
        s.contains(x) && x != s[i] ==> s.remove(i).contains(x),
        s.no_duplicates() ==> s.remove(i).no_duplicates(),
{
    let t = s.remove(i);
    assert(t.len() == s.len() - 1);
    assert forall|k: int| 0 <= k < t.len() implies #[trigger] t[k] == (if k < i { s[k] } else { s[k + 1] }) by {}
    if t.contains(x) {
        let k = choose|k: int| 0 <= k < t.len() && t[k] == x;
        if k < i {
            assert(s[k] == x);
        } else {
            assert(s[k + 1] == x);
        }
    }
    if s.contains(x) && x != s[i] {
        let k = choose|k: int| 0 <= k < s.len() && s[k] == x;
        if k < i {
            assert(t[k] == x);
        } else {
            assert(k != i);
            assert(t[k - 1] == x);
        }
    }
    if s.no_duplicates() {
        assert forall|a: int, b: int| 0 <= a < t.len() && 0 <= b < t.len() && a != b implies t[a] != t[b] by {
            let a1 = if a < i { a } else { a + 1 };
            let b1 = if b < i { b } else { b + 1 };
            assert(t[a] == s[a1]);
            assert(t[b] == s[b1]);
        }
    }
}

/// Takes out of `c` (the requested modules with all their deployed
/// dependencies) the dependencies that modules staying deployed still need
/// (see [`pruned_removal`]).
fn keep_needed(requested: &Vec<String>, stored: &Vec<StoredModule>, c: Vec<String>) -> (r: Vec<String>)
    requires
        c.deep_view().no_duplicates(),
    ensures
        pruned_removal(stored@, requested.deep_view(), c.deep_view(), r.deep_view()),
{
    let ghost c0 = c.deep_view();
    let ghost req = requested.deep_view();
    let mut r = c;
    let mut done = false;
    while !done
        invariant
            r.deep_view().no_duplicates(),
            seq_subset(r.deep_view(), c0),
            forall|x: Seq<char>| #[trigger] c0.contains(x) && req.contains(x) ==> r.deep_view().contains(x),
            forall|t: Seq<Seq<char>>| #[trigger] keeps_needed(stored@, req, t) && seq_subset(t, c0) ==> seq_subset(t, r.deep_view()),
            done ==> keeps_needed(stored@, req, r.deep_view()),
            req == requested.deep_view(),
        decreases r@.len() + if done { 0int } else { 1int },
    {
        match first_needed(requested, stored, &r) {
            None => {
                done = true;
            },
            Some(i) => {
                let ghost before = r.deep_view();
                let ghost m = before[i as int];
                let ghost j = choose|j: int| 0 <= j < stored@.len() && !before.contains(stored@[j].name@) && #[trigger] deps_of(stored@[j]).contains(m);
                r.remove(i);
                proof {
                    assert(r.deep_view() =~= before.remove(i as int));
                    lemma_remove_contains(before, i as int, m);
                    assert forall|x: Seq<char>| #[trigger] r.deep_view().contains(x) implies c0.contains(x) by {
                        lemma_remove_contains(before, i as int, x);
                    }
                    assert forall|x: Seq<char>| #[trigger] c0.contains(x) && req.contains(x) implies r.deep_view().contains(x) by {
                        lemma_remove_contains(before, i as int, x);
                    }
                    assert forall|t: Seq<Seq<char>>| #[trigger] keeps_needed(stored@, req, t) && seq_subset(t, c0) implies seq_subset(t, r.deep_view()) by {
                        assert forall|x: Seq<char>| #[trigger] t.contains(x) implies r.deep_view().contains(x) by {
                            assert(before.contains(x));
                            if x == m {
                                let k = choose|k: int| 0 <= k < t.len() && t[k] == x;
                                assert(!t.contains(stored@[j].name@));
                                assert(needed_outside(stored@, t, t[k]));
                            }
                            lemma_remove_contains(before, i as int, x);
                        }
                    }
                }
            },
        }
    }
    r
}

/// The module `name` is deployed and was installed explicitly.
pub open spec fn installed_manually(stored: Seq<StoredModule>, name: Seq<char>) -> bool {
    exists|j: int| #[trigger] is_first(stored, name, j) && stored[j].reason@ == "manual"@
}

/// The modules among `names` that were installed explicitly but not requested, in order.
pub open spec fn explicit_unrequested(stored: Seq<StoredModule>, requested: Seq<Seq<char>>, names: Seq<Seq<char>>) -> Seq<Seq<char>>
    decreases names.len(),
{
    if names.len() == 0 {
        Seq::empty()
    } else {
        let rest = explicit_unrequested(stored, requested, names.drop_last());
        if installed_manually(stored, names.last()) && !requested.contains(names.last()) {
            rest.push(names.last())
        } else {
            rest
        }
    }
}

/// The modules a removal takes along, with the pseudo module of generated files.
pub open spec fn with_generated(names: Seq<Seq<char>>) -> Seq<Seq<char>> {
    if names.contains(generated_module()) {
        names
    } else {
        names.push(generated_module())
    }
}

/// What a removal request comes to.
#[derive(Debug)]
pub enum RemovalPlan {
    /// None of the requested modules is deployed: nothing is removed.
    NothingDeployed,
    /// These modules would go along as dependencies but were installed
    /// explicitly and not requested: the removal is refused.
    ExplicitlyInstalled(Vec<String>),
    /// Remove these modules; the list ends with the pseudo module of
    /// generated files unless it was among them already.
    Remove(Vec<String>),
}

fn explicit_among(stored: &Vec<StoredModule>, requested: &Vec<String>, names: &Vec<String>) -> (v: Vec<String>)
    ensures
        v.deep_view() == explicit_unrequested(stored@, requested.deep_view(), names.deep_view()),
{
    let mut v: Vec<String> = Vec::new();
    let mut i: usize = 0;
    while i < names.len()
        invariant
            i <= names@.len(),
            v.deep_view() == explicit_unrequested(stored@, requested.deep_view(), names.deep_view().take(i as int)),
        decreases names@.len() - i,
    {
        let ghost pre = names.deep_view().take(i as int);
        let ghost next = names.deep_view().take(i as int + 1);
        assert(next.drop_last() =~= pre);
        assert(next.last() == names@[i as int]@);
        let name = &names[i];
        let mut manual = false;
        match find_first(stored, name) {
            Some(j) => {
                manual = str_eq(stored[j].reason.as_str(), "manual");
                proof {
                    if installed_manually(stored@, name@) {
                        let jj = choose|jj: int| #[trigger] is_first(stored@, name@, jj) && stored@[jj].reason@ == "manual"@;
                        lemma_first_unique(stored@, name@, j as int, jj);
                    }
                }
            },
            None => {},
        }
        assert(manual == installed_manually(stored@, name@));
        if manual && !contains_str(requested, name.as_str()) {
            let ghost v0 = v.deep_view();
            v.push(name.clone());
            assert(v.deep_view() =~= v0.push(name@));
        }
        i = i + 1;
    }
    assert(names.deep_view().take(names@.len() as int) =~= names.deep_view());
    v
}

/// Decides what removing `requested` does, given the deployed modules:
/// nothing, a refusal naming the explicitly installed modules that would go
/// along, or the list of modules to remove. Besides the requested modules, a
/// removal takes along their dependencies (recursively) that no module
/// staying deployed needs (see [`pruned_removal`]).
pub fn plan_removal(requested: &Vec<String>, stored: &Vec<StoredModule>) -> (plan: RemovalPlan)
    ensures
        (plan is NothingDeployed) <==> (forall|k: int| 0 <= k < requested@.len() ==> !is_deployed(stored@, #[trigger] requested@[k]@)),
        plan matches RemovalPlan::ExplicitlyInstalled(v) ==> v@.len() > 0 && exists|c: Seq<Seq<char>>, r: Seq<Seq<char>>|
            #![trigger pruned_removal(stored@, requested.deep_view(), c, r)]
            removal_closed(stored@, requested.deep_view(), c) && pruned_removal(stored@, requested.deep_view(), c, r)
                && v.deep_view() == explicit_unrequested(stored@, requested.deep_view(), with_generated(r)),
        plan matches RemovalPlan::Remove(v) ==> exists|c: Seq<Seq<char>>, r: Seq<Seq<char>>|
            #![trigger pruned_removal(stored@, requested.deep_view(), c, r)]
            removal_closed(stored@, requested.deep_view(), c) && pruned_removal(stored@, requested.deep_view(), c, r)
                && v.deep_view() == with_generated(r) && explicit_unrequested(stored@, requested.deep_view(), v.deep_view()).len()
                == 0,
{
    let closure = removal_set(requested, stored);
    let ghost r = closure.deep_view();
    let ghost req = requested.deep_view();
    if closure.len() == 0 {
        proof {
            assert forall|k: int| 0 <= k < requested@.len() implies !is_deployed(stored@, #[trigger] requested@[k]@) by {
                assert(req[k] == requested@[k]@);
                if is_deployed(stored@, req[k]) {
                    assert(r.contains(req[k]));
                }
            }
        }
        return RemovalPlan::NothingDeployed;
    }
    proof {
        let x = r[0];
        assert(req.contains(x) || exists|j: int| 0 <= j < 0 && #[trigger] deployed_deps(stored@, r[j]).contains(r[0]));
        let k = choose|k: int| 0 <= k < req.len() && req[k] == x;
        assert(requested@[k]@ == x);
        assert(is_deployed(stored@, r[0]));
    }
    proof {
        assert(r.no_duplicates()) by {
            assert forall|i: int, j: int| 0 <= i < r.len() && 0 <= j < r.len() && i != j implies r[i] != r[j] by {}
        }
    }
    let mut full = keep_needed(requested, stored, closure);
    let ghost kept = full.deep_view();
    let generated = generated_module_name();
    if !contains_str(&full, generated) {
        full.push(generated.to_string());
        assert(full.deep_view() =~= kept.push(generated_module()));
    }
    assert(full.deep_view() == with_generated(kept));
    assert(pruned_removal(stored@, req, r, kept));
    let manual = explicit_among(stored, requested, &full);
    if manual.len() > 0 {
        RemovalPlan::ExplicitlyInstalled(manual)
    } else {
        RemovalPlan::Remove(full)
    }
}

/// The modules among `names` that are not deployed, in order.
pub open spec fn not_deployed(stored: Seq<StoredModule>, names: Seq<Seq<char>>) -> Seq<Seq<char>>
    decreases names.len(),
{
    if names.len() == 0 {
        Seq::empty()
    } else {
        let rest = not_deployed(stored, names.drop_last());
        if is_deployed(stored, names.last()) {
            rest
        } else {
            rest.push(names.last())
        }
    }
}

/// The queued modules that are not deployed yet; a sync of deployed modules
/// refuses to go on while this is not empty.
pub fn undeployed_modules(names: &Vec<String>, stored: &Vec<StoredModule>) -> (v: Vec<String>)
    ensures
        v.deep_view() == not_deployed(stored@, names.deep_view()),
{
    let mut v: Vec<String> = Vec::new();
    let mut i: usize = 0;
    while i < names.len()
        invariant
            i <= names@.len(),
            v.deep_view() == not_deployed(stored@, names.deep_view().take(i as int)),
        decreases names@.len() - i,
    {
        let ghost next = names.deep_view().take(i as int + 1);
        assert(next.drop_last() =~= names.deep_view().take(i as int));
        assert(next.last() == names@[i as int]@);
        if find_first(stored, &names[i]).is_none() {
            let ghost v0 = v.deep_view();
            v.push(names[i].clone());
            assert(v.deep_view() =~= v0.push(names@[i as int]@));
        }
        i = i + 1;
    }
    assert(names.deep_view().take(names@.len() as int) =~= names.deep_view());
    v
}

/// All dependencies recorded by the stored modules, in order.
pub open spec fn all_deps(stored: Seq<StoredModule>) -> Seq<Seq<char>>
    decreases stored.len(),
{
    if stored.len() == 0 {
        Seq::empty()
    } else {
        all_deps(stored.drop_last()) + deps_of(stored.last())
    }
}

proof fn lemma_all_deps(stored: Seq<StoredModule>, name: Seq<char>)
    ensures
        all_deps(stored).contains(name) <==> exists|i: int| 0 <= i < stored.len() && #[trigger] deps_of(stored[i]).contains(name),
    decreases stored.len(),
{
    if stored.len() > 0 {
        let init = stored.drop_last();
        lemma_all_deps(init, name);
        let a = all_deps(init);
        let d = deps_of(stored.last());
        if all_deps(stored).contains(name) {
            let k = choose|k: int| 0 <= k < (a + d).len() && (a + d)[k] == name;
            if k < a.len() {
                assert(a.contains(name));
                let i = choose|i: int| 0 <= i < init.len() && #[trigger] deps_of(init[i]).contains(name);
                assert(stored[i] == init[i]);
            } else {
                assert(d[k - a.len()] == name);
                assert(deps_of(stored[stored.len() - 1]).contains(name));
            }
        }
        if exists|i: int| 0 <= i < stored.len() && #[trigger] deps_of(stored[i]).contains(name) {
            let i = choose|i: int| 0 <= i < stored.len() && #[trigger] deps_of(stored[i]).contains(name);
            if i < init.len() {
                assert(init[i] == stored[i]);
                assert(a.contains(name));
                let k = choose|k: int| 0 <= k < a.len() && a[k] == name;
                assert((a + d)[k] == name);
            } else {
                let k = choose|k: int| 0 <= k < d.len() && d[k] == name;
                assert((a + d)[a.len() + k] == name);
            }
        }
    }
}

/// A module installed only as a dependency that no deployed module depends on any more.
pub open spec fn is_obsolete(stored: Seq<StoredModule>, name: Seq<char>) -> bool {
    &&& exists|j: int| 0 <= j < stored.len() && #[trigger] stored[j].name@ == name && stored[j].reason@ == "automatic"@
    &&& name != generated_module()
    &&& forall|i: int| 0 <= i < stored.len() ==> !(#[trigger] deps_of(stored[i])).contains(name)
}

fn collect_all_deps(stored: &Vec<StoredModule>) -> (v: Vec<String>)
    ensures
        v.deep_view() == all_deps(stored@),
{
    let mut v: Vec<String> = Vec::new();
    let mut i: usize = 0;
    while i < stored.len()
        invariant
            i <= stored@.len(),
            v.deep_view() == all_deps(stored@.take(i as int)),
        decreases stored@.len() - i,
    {
        let ghost next = stored@.take(i as int + 1);
        assert(next.drop_last() =~= stored@.take(i as int));
        let ghost v0 = v.deep_view();
        if let Some(ds) = &stored[i].depends {
            let mut k: usize = 0;
            while k < ds.len()
                invariant
                    k <= ds@.len(),
                    v.deep_view() == v0 + ds.deep_view().take(k as int),
                decreases ds@.len() - k,
            {
                let ghost before = v.deep_view();
                v.push(ds[k].clone());
                assert(v.deep_view() =~= before.push(ds@[k as int]@));
                k = k + 1;
                assert(v.deep_view() =~= v0 + ds.deep_view().take(k as int));
            }
            assert(ds.deep_view().take(k as int) =~= ds.deep_view());
        } else {
            assert(v.deep_view() =~= v0 + deps_of(stored@[i as int]));
        }
        i = i + 1;
    }
    assert(stored@.take(stored@.len() as int) =~= stored@);
    v
}

/// The automatically installed modules that no deployed module depends on
/// any more, each once (the pseudo module of generated files never counts).
pub fn obsolete_modules(stored: &Vec<StoredModule>) -> (v: Vec<String>)
    ensures
        v.deep_view().no_duplicates(),
        forall|i: int| 0 <= i < v@.len() ==> is_obsolete(stored@, #[trigger] v.deep_view()[i]),
        forall|name: Seq<char>| is_obsolete(stored@, name) ==> v.deep_view().contains(name),
{
    let deps = collect_all_deps(stored);
    let generated = generated_module_name();
    let mut v: Vec<String> = Vec::new();
    let mut i: usize = 0;
    while i < stored.len()
        invariant
            i <= stored@.len(),
            deps.deep_view() == all_deps(stored@),
            generated@ == generated_module(),
            v.deep_view().no_duplicates(),
            forall|k: int| 0 <= k < v@.len() ==> is_obsolete(stored@, #[trigger] v.deep_view()[k]),
            forall|j: int|
                0 <= j < i && stored@[j].reason@ == "automatic"@ && is_obsolete(stored@, #[trigger] stored@[j].name@)
                    ==> v.deep_view().contains(stored@[j].name@),
        decreases stored@.len() - i,
    {
        let m = &stored[i];
        let ghost v_before = v.deep_view();
        proof { lemma_all_deps(stored@, m.name@); }
        if str_eq(m.reason.as_str(), "automatic") && !str_eq(m.name.as_str(), generated) && !contains_str(&deps, m.name.as_str())
            && !contains_str(&v, m.name.as_str()) {
            let ghost v0 = v.deep_view();
            v.push(m.name.clone());
            proof {
                assert(v.deep_view() =~= v0.push(m.name@));
                assert(is_obsolete(stored@, m.name@));
                assert(v.deep_view()[v0.len() as int] == m.name@);
            }
        }
        proof {
            assert forall|y: Seq<char>| v_before.contains(y) implies #[trigger] v.deep_view().contains(y) by {
                let k = choose|k: int| 0 <= k < v_before.len() && v_before[k] == y;
                assert(v.deep_view()[k] == y);
            }
        }
        i = i + 1;
    }
    proof {
        assert forall|name: Seq<char>| is_obsolete(stored@, name) implies v.deep_view().contains(name) by {
            let j = choose|j: int| 0 <= j < stored@.len() && #[trigger] stored@[j].name@ == name && stored@[j].reason@ == "automatic"@;
            assert(is_obsolete(stored@, stored@[j].name@));
        }
    }
    v
}

/// Identifies a task definition by the name-based UUID (version 5, in the
/// OID namespace) of its serialized form.
pub uninterp spec fn uuid_v5_oid(name: Seq<u8>) -> u128;

/// Trusted: `uuid::Uuid::new_v5(&Uuid::NAMESPACE_OID, name)` read as a `u128`
/// with `Uuid::as_u128`. The value depends on the bytes alone (a SHA-1 based
/// name UUID); nothing more is claimed of it.
#[verifier::external_body]
fn new_v5_oid(name: &[u8]) -> (id: u128)
    ensures
        id == uuid_v5_oid(name@),
{
    uuid::Uuid::new_v5(&uuid::Uuid::NAMESPACE_OID, name).as_u128()
}

/// The identifiers of recorded tasks that are no longer among the current
/// ones, each once, in the order first recorded.
pub fn obsolete_task_ids(recorded: &Vec<u128>, current: &Vec<u128>) -> (v: Vec<u128>)
    ensures
        v@.no_duplicates(),
        forall|x: u128| v@.contains(x) <==> (recorded@.contains(x) && !current@.contains(x)),
{
    let mut v: Vec<u128> = Vec::new();
    let mut i: usize = 0;
    while i < recorded.len()
        invariant
            i <= recorded@.len(),
            v@.no_duplicates(),
            forall|x: u128|
                v@.contains(x) <==> ((exists|m: int| 0 <= m < i && #[trigger] recorded@[m] == x) && !current@.contains(x)),
        decreases recorded@.len() - i,
    {
        let x = recorded[i];
        let seen = contains_id(current, x);
        let dup = contains_id(&v, x);
        let ghost v0 = v@;
        if !seen && !dup {
            v.push(x);
            proof {
                assert forall|a: int, b: int| 0 <= a < v@.len() && 0 <= b < v@.len() && a != b implies v@[a] != v@[b] by {
                    if b == v@.len() - 1 {
                        assert(v0[a] == v@[a]);
                    } else if a == v@.len() - 1 {
                        assert(v0[b] == v@[b]);
                    } else {
                        assert(v0[a] == v@[a] && v0[b] == v@[b]);
                    }
                }
            }
        }
        proof {
            assert forall|y: u128|
                v@.contains(y) <==> ((exists|m: int| 0 <= m < i + 1 && #[trigger] recorded@[m] == y) && !current@.contains(y)) by {
                if v@.contains(y) {
                    let k = choose|k: int| 0 <= k < v@.len() && v@[k] == y;
                    if k < v0.len() {
                        assert(v0[k] == y);
                        assert(v0.contains(y));
                    } else {
                        assert(recorded@[i as int] == y);
                    }
                }
                if (exists|m: int| 0 <= m < i + 1 && #[trigger] recorded@[m] == y) && !current@.contains(y) {
                    let m = choose|m: int| 0 <= m < i + 1 && #[trigger] recorded@[m] == y;
                    if m < i {
                        assert(v0.contains(y));
                        let k = choose|k: int| 0 <= k < v0.len() && v0[k] == y;
                        assert(v@[k] == y);
                    } else if !dup {
                        assert(v@[v0.len() as int] == y);
                    }
                }
            }
        }
        i = i + 1;
    }
    proof {
        assert forall|x: u128| v@.contains(x) <==> (recorded@.contains(x) && !current@.contains(x)) by {
            if recorded@.contains(x) {
                let m = choose|m: int| 0 <= m < recorded@.len() && recorded@[m] == x;
                assert(recorded@[m] == x);
            }
        }
    }
    v
}

fn contains_id(ids: &Vec<u128>, x: u128) -> (b: bool)
    ensures
        b == ids@.contains(x),
{
    let mut k: usize = 0;
    while k < ids.len()
        invariant
            k <= ids@.len(),
            forall|m: int| 0 <= m < k ==> ids@[m] != x,
        decreases ids@.len() - k,
    {
        if ids[k] == x {
            assert(ids@[k as int] == x);
            return true;
        }
        k = k + 1;
    }
    false
}

/// The identifiers of the current task definitions, each given serialized.
pub fn task_ids(serialized: &Vec<Vec<u8>>) -> (ids: Vec<u128>)
    ensures
        ids@.len() == serialized@.len(),
        forall|i: int| 0 <= i < ids@.len() ==> ids@[i] == uuid_v5_oid(#[trigger] serialized@[i]@),
{
    let mut ids: Vec<u128> = Vec::new();
    let mut i: usize = 0;
    while i < serialized.len()
        invariant
            i <= serialized@.len(),
            ids@.len() == i,
            forall|k: int| 0 <= k < i ==> ids@[k] == uuid_v5_oid(#[trigger] serialized@[k]@),
        decreases serialized@.len() - i,
    {
        ids.push(new_v5_oid(serialized[i].as_slice()));
        i = i + 1;
    }
    ids
}

/// Deployed files written by dotdeploy itself (created from content or
/// generated) are removed before every sync and written again.
pub fn is_dynamic_operation(operation: &str) -> (b: bool)
    ensures
        b == (operation@ == "create"@ || operation@ == "generate"@),
{
    str_eq(operation, "create") || str_eq(operation, "generate")
}

/// A deployed target counts as modified outside dotdeploy when a checksum was
/// recorded for it and the file's current checksum differs.
pub fn target_modified(current: &str, recorded: &Option<String>) -> (b: bool)
    ensures
        b == (recorded matches Some(r) && r@ != current@),
{
    match recorded {
        Some(r) => !str_eq(r.as_str(), current),
        None => false,
    }
}

/// The name under which a file operation is recorded.
pub open spec fn operation_name_spec(op: FileOperation) -> Seq<char> {
    match op {
        FileOperation::Copy => "copy"@,
        FileOperation::Link => "link"@,
        FileOperation::Create => "create"@,
    }
}

/// The name under which a file operation is recorded.
pub fn operation_name(op: FileOperation) -> (s: &'static str)
    ensures
        s@ == operation_name_spec(op),
{
    match op {
        FileOperation::Copy => "copy",
        FileOperation::Link => "link",
        FileOperation::Create => "create",
    }
}

/// A deployed file is deployed anew, its old target removed first, when it
/// was recorded with another operation than the one now configured.
pub fn operation_changed(recorded: &Option<String>, op: FileOperation) -> (b: bool)
    ensures
        b == (recorded matches Some(r) && r@ != operation_name_spec(op)),
{
    match recorded {
        Some(r) => !str_eq(r.as_str(), operation_name(op)),
        None => false,
    }
}

/// Whether two optional checksums are equal.
fn same_checksum(a: &Option<String>, b: &Option<String>) -> (r: bool)
    ensures
        r == (opt_chars(*a) == opt_chars(*b)),
{
    match (a, b) {
        (Some(x), Some(y)) => str_eq(x.as_str(), y.as_str()),
        (None, None) => true,
        _ => false,
    }
}

/// The characters of an optional string.
pub open spec fn opt_chars(o: Option<String>) -> Option<Seq<char>> {
    match o {
        Some(s) => Some(s@),
        None => None,
    }
}

/// A copied file is up to date, and not copied again, when the recorded
/// checksums of its source and target equal their current ones (a target
/// that does not exist has none).
pub fn copy_up_to_date(
    recorded_source: &Option<String>,
    current_source: &Option<String>,
    recorded_target: &Option<String>,
    current_target: &Option<String>,
) -> (b: bool)
    ensures
        b == (opt_chars(*recorded_source) == opt_chars(*current_source) && opt_chars(*recorded_target) == opt_chars(
            *current_target,
        )),
{
    same_checksum(recorded_source, current_source) && same_checksum(recorded_target, current_target)
}

/// What is kept of a target before it is overwritten.
#[derive(Debug, Clone, Copy, PartialEq, Eq, Structural)]
pub enum BackupAction {
    /// A backup exists already.
    Keep,
    /// Back up the existing target.
    Backup,
    /// Record that there was no target, so that removal deletes it.
    Placeholder,
}

/// A target is backed up once, before it is first overwritten; a target
/// that did not exist gets a placeholder backup.
pub fn backup_action(backup_exists: bool, target_exists: bool) -> (a: BackupAction)
    ensures
        backup_exists ==> a == BackupAction::Keep,
        !backup_exists && target_exists ==> a == BackupAction::Backup,
        !backup_exists && !target_exists ==> a == BackupAction::Placeholder,
{
    if backup_exists {
        BackupAction::Keep
    } else if target_exists {
        BackupAction::Backup
    } else {
        BackupAction::Placeholder
    }
}

/// Where a file is deployed: under the user's home, or elsewhere (which
/// takes elevated rights).
#[derive(Debug)]
pub enum Destination {
    Home(String),
    Root(String),
}

impl Destination {
    /// The path, whichever the kind of destination.
    pub fn path(&self) -> (p: &String)
        ensures
            *p == match *self {
                Destination::Home(q) => q,
                Destination::Root(q) => q,
            },
    {
        match self {
            Destination::Home(p) => p,
            Destination::Root(p) => p,
        }
    }
}

/// What becomes of a module's message after a deployment.
#[derive(Debug, Clone, Copy, PartialEq, Eq, Structural)]
pub enum MessageRoute {
    /// Shown now (when messages are shown) and kept for the deploy command.
    Deploy,
    /// Kept to be shown on update.
    Update,
    /// Kept to be shown on removal.
    Remove,
}

/// The command a message is for: `deploy`, `update` or `remove`.
pub open spec fn route_of(on_command: Seq<char>) -> MessageRoute {
    if on_command == "deploy"@ {
        MessageRoute::Deploy
    } else if on_command == "update"@ {
        MessageRoute::Update
    } else {
        MessageRoute::Remove
    }
}

/// Where a message goes, by the command it is for.
pub fn route_message(on_command: &Option<String>) -> (r: MessageRoute)
    requires
        on_command matches Some(c) && (c@ == "deploy"@ || c@ == "update"@ || c@ == "remove"@),
    ensures
        r == route_of(on_command->Some_0@),
{
    match on_command {
        Some(c) => if str_eq(c.as_str(), "deploy") {
            MessageRoute::Deploy
        } else if str_eq(c.as_str(), "update") {
            MessageRoute::Update
        } else {
            MessageRoute::Remove
        },
        None => MessageRoute::Remove,
    }
}

/// Which cached tasks to keep when the current modules' tasks replace
/// theirs: those of modules not deployed now.
pub fn keep_cached_tasks(cached_modules: &Vec<String>, current: &Vec<String>) -> (keep: Vec<bool>)
    ensures
        keep@.len() == cached_modules@.len(),
        forall|i: int| 0 <= i < keep@.len() ==> keep@[i] == !current.deep_view().contains(#[trigger] cached_modules@[i]@),
{
    let mut keep: Vec<bool> = Vec::new();
    let mut i: usize = 0;
    while i < cached_modules.len()
        invariant
            i <= cached_modules@.len(),
            keep@.len() == i,
            forall|k: int| 0 <= k < i ==> keep@[k] == !current.deep_view().contains(#[trigger] cached_modules@[k]@),
        decreases cached_modules@.len() - i,
    {
        keep.push(!contains_str(current, cached_modules[i].as_str()));
        i = i + 1;
    }
    keep
}

/// Whether copying a file is due: a template always is; otherwise when no
/// source checksum is recorded or the source's checksum differs from it.
pub fn copy_due(template: bool, recorded_source: &Option<String>, current_source: &Option<String>) -> (b: bool)
    ensures
        b == (template || recorded_source is None || opt_chars(*recorded_source) != opt_chars(*current_source)),
{
    if template {
        true
    } else {
        match recorded_source {
            None => true,
            Some(r) => match current_source {
                Some(c) => !str_eq(r.as_str(), c.as_str()),
                None => true,
            },
        }
    }
}

/// Whether a link is deployed and up to date, so that linking it again is
/// not needed: the target exists, is a link to the source, and is recorded.
pub fn link_up_to_date(target_exists: bool, link_to: &Option<String>, source: &str, recorded: bool) -> (b: bool)
    ensures
        b == (target_exists && opt_chars(*link_to) == Some(source@) && recorded),
{
    target_exists && recorded && match link_to {
        Some(l) => str_eq(l.as_str(), source),
        None => false,
    }
}

proof fn lemma_removal_within(stored: Seq<StoredModule>, requested: Seq<Seq<char>>, r1: Seq<Seq<char>>, r2: Seq<Seq<char>>, i: int)
    requires
        removal_closed(stored, requested, r1),
        removal_closed(stored, requested, r2),
        0 <= i < r1.len(),
    ensures
        r2.contains(r1[i]),
    decreases i,
{
    let x = r1[i];
    assert(is_deployed(stored, x));
    if requested.contains(x) {
        let k = choose|k: int| 0 <= k < requested.len() && requested[k] == x;
        assert(is_deployed(stored, requested[k]));
    } else {
        let j = choose|j: int| 0 <= j < i && #[trigger] deployed_deps(stored, r1[j]).contains(r1[i]);
        lemma_removal_within(stored, requested, r1, r2, j);
        let a = choose|a: int| 0 <= a < r2.len() && r2[a] == r1[j];
        let deps = deployed_deps(stored, r1[j]);
        let k = choose|k: int| 0 <= k < deps.len() && deps[k] == x;
        assert(deployed_deps(stored, r2[a])[k] == x);
        assert(is_deployed(stored, deployed_deps(stored, r2[a])[k]));
    }
}

/// Any two lists that meet [`removal_closed`] hold the same modules, each
/// once, so they have the same length.
proof fn lemma_closure_determined(
    stored: Seq<StoredModule>,
    requested: Seq<Seq<char>>,
    r1: Seq<Seq<char>>,
    r2: Seq<Seq<char>>,
)
    requires
        removal_closed(stored, requested, r1),
        removal_closed(stored, requested, r2),
    ensures
        r1.to_set() == r2.to_set(),
        r1.len() == r2.len(),
{
    assert forall|x: Seq<char>| r1.to_set().contains(x) <==> r2.to_set().contains(x) by {
        if r1.contains(x) {
            let i = choose|i: int| 0 <= i < r1.len() && r1[i] == x;
            lemma_removal_within(stored, requested, r1, r2, i);
        }
        if r2.contains(x) {
            let i = choose|i: int| 0 <= i < r2.len() && r2[i] == x;
            lemma_removal_within(stored, requested, r2, r1, i);
        }
    }
    assert(r1.to_set() =~= r2.to_set());
    assert(r1.no_duplicates()) by {
        assert forall|i: int, j: int| 0 <= i < r1.len() && 0 <= j < r1.len() && i != j implies r1[i] != r1[j] by {}
    }
    assert(r2.no_duplicates()) by {
        assert forall|i: int, j: int| 0 <= i < r2.len() && 0 <= j < r2.len() && i != j implies r2[i] != r2[j] by {}
    }
    r1.unique_seq_to_set();
    r2.unique_seq_to_set();
}

/// What a removal takes along is determined by the request and the
/// deployed modules: whichever order the dependencies are walked in, the
/// modules removed are the same, each once.
pub proof fn lemma_removal_set_determined(
    stored: Seq<StoredModule>,
    requested: Seq<Seq<char>>,
    c1: Seq<Seq<char>>,
    r1: Seq<Seq<char>>,
    c2: Seq<Seq<char>>,
    r2: Seq<Seq<char>>,
)
    requires
        removal_closed(stored, requested, c1),
        pruned_removal(stored, requested, c1, r1),
        removal_closed(stored, requested, c2),
        pruned_removal(stored, requested, c2, r2),
    ensures
        r1.to_set() == r2.to_set(),
        r1.len() == r2.len(),
{
    lemma_closure_determined(stored, requested, c1, c2);
    assert(seq_subset(r1, c2)) by {
        assert forall|x: Seq<char>| #[trigger] r1.contains(x) implies c2.contains(x) by {
            assert(c1.contains(x));
            assert(c1.to_set().contains(x));
            assert(c2.to_set().contains(x));
        }
    }
    assert(seq_subset(r2, c1)) by {
        assert forall|x: Seq<char>| #[trigger] r2.contains(x) implies c1.contains(x) by {
            assert(c2.contains(x));
            assert(c2.to_set().contains(x));
            assert(c1.to_set().contains(x));
        }
    }
    assert(keeps_needed(stored, requested, r1));
    assert(keeps_needed(stored, requested, r2));
    assert(seq_subset(r1, r2));
    assert(seq_subset(r2, r1));
    assert forall|x: Seq<char>| r1.to_set().contains(x) <==> r2.to_set().contains(x) by {
        if r1.contains(x) {
            assert(r2.contains(x));
        }
        if r2.contains(x) {
            assert(r1.contains(x));
        }
    }
    assert(r1.to_set() =~= r2.to_set());
    r1.unique_seq_to_set();
    r2.unique_seq_to_set();
}

/// A removal leaves every module that a module staying deployed depends on:
/// what it takes along besides the modules requested is needed by no
/// deployed module outside the removal.
pub proof fn lemma_removal_keeps_needed(
    stored: Seq<StoredModule>,
    requested: Seq<Seq<char>>,
    c: Seq<Seq<char>>,
    r: Seq<Seq<char>>,
    x: Seq<char>,
    j: int,
)
    requires
        pruned_removal(stored, requested, c, r),
        r.contains(x),
        !requested.contains(x),
        0 <= j < stored.len(),
        !r.contains(stored[j].name@),
    ensures
        !deps_of(stored[j]).contains(x),
{
    let i = choose|i: int| 0 <= i < r.len() && r[i] == x;
    assert(!needed_outside(stored, r, r[i]));
}

/// The modules an update runs: those named, else every deployed one; each once.
pub fn update_modules(named: Option<Vec<String>>, stored: &Vec<StoredModule>) -> (r: Vec<String>)
    ensures
        r.deep_view().no_duplicates(),
        named matches Some(n) ==> forall|x: Seq<char>| #[trigger] r.deep_view().contains(x) <==> n.deep_view().contains(x),
        named is None ==> forall|x: Seq<char>| #[trigger] r.deep_view().contains(x) <==> is_deployed(stored@, x),
{
    let mut all: Vec<String> = Vec::new();
    match named {
        Some(n) => {
            all = n;
        },
        None => {
            let mut i: usize = 0;
            while i < stored.len()
                invariant
                    i <= stored@.len(),
                    all@.len() == i,
                    forall|k: int| 0 <= k < i ==> (#[trigger] all@[k])@ == stored@[k].name@,
                decreases stored@.len() - i,
            {
                all.push(stored[i].name.clone());
                i = i + 1;
            }
        },
    }
    let ghost src = all.deep_view();
    let mut r: Vec<String> = Vec::new();
    let mut i: usize = 0;
    while i < all.len()
        invariant
            i <= all@.len(),
            src == all.deep_view(),
            r.deep_view().no_duplicates(),
            forall|x: Seq<char>| #[trigger] r.deep_view().contains(x) <==> src.take(i as int).contains(x),
        decreases all@.len() - i,
    {
        let ghost r0 = r.deep_view();
        let ghost x = src[i as int];
        let ghost pre = src.take(i as int);
        assert(src.take(i as int + 1) =~= pre.push(x));
        proof {
            assert(pre.push(x)[i as int] == x);
            assert forall|y: Seq<char>| pre.push(x).contains(y) <==> (pre.contains(y) || y == x) by {
                if pre.push(x).contains(y) && y != x {
                    let k = choose|k: int| 0 <= k < pre.push(x).len() && pre.push(x)[k] == y;
                    assert(pre[k] == y);
                }
                if pre.contains(y) {
                    let k = choose|k: int| 0 <= k < pre.len() && pre[k] == y;
                    assert(pre.push(x)[k] == y);
                }
            }
        }
        if !contains_str(&r, all[i].as_str()) {
            r.push(all[i].clone());
            proof {
                assert(r.deep_view() =~= r0.push(x));
                assert(r.deep_view()[r0.len() as int] == x);
                assert forall|y: Seq<char>| r.deep_view().contains(y) <==> (r0.contains(y) || y == x) by {
                    if r0.contains(y) {
                        let k = choose|k: int| 0 <= k < r0.len() && r0[k] == y;
                        assert(r.deep_view()[k] == y);
                    }
                    if r.deep_view().contains(y) && y != x {
                        let k = choose|k: int| 0 <= k < r.deep_view().len() && r.deep_view()[k] == y;
                        assert(r0[k] == y);
                    }
                }
            }
        } else {
            proof {
                assert(r0.contains(x));
            }
        }
        proof {
            assert forall|y: Seq<char>| #[trigger] r.deep_view().contains(y) <==> src.take(i as int + 1).contains(y) by {
                assert(pre.push(x).contains(y) <==> (pre.contains(y) || y == x));
                assert(r0.contains(y) <==> pre.contains(y));
            }
        }
        i = i + 1;
    }
    proof {
        assert(src.take(i as int) =~= src);
        if named is None {
            assert forall|x: Seq<char>| #[trigger] r.deep_view().contains(x) <==> is_deployed(stored@, x) by {
                if src.contains(x) {
                    let k = choose|k: int| 0 <= k < src.len() && src[k] == x;
                    assert(stored@[k].name@ == x);
                }
                if is_deployed(stored@, x) {
                    let k = choose|k: int| 0 <= k < stored@.len() && stored@[k].name@ == x;
                    assert(src[k] == x);
                }
            }
        }
    }
    r
}

/// The file a lookup names: the recorded source of a deployed target, else
/// the path asked about.
pub fn lookup_source(file: String, recorded_source: Option<String>) -> (r: String)
    ensures
        r == match recorded_source {
            Some(s) => s,
            None => file,
        },
{
    match recorded_source {
        Some(s) => s,
        None => file,
    }
}

} // verus!
