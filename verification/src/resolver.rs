//! Dependency resolution for the modules requested by the user.
//!
//! Reading a module's configuration from disk is left to the caller: the
//! resolver is a state machine that asks for one module at a time
//! ([`ResolveStep::Load`]) and is told the module's dependencies in return
//! ([`ModuleResolver::module_loaded`]). The walk is depth-first:
//! dependencies are queued before the module that needs them, a module
//! requested by the user is recorded as `manual` (and replaces an earlier
//! `automatic` entry), and cycles are cut at modules that are already known.

use vstd::prelude::*;

verus! {

/// Why a module is part of the deployment.
#[derive(Debug, Clone, Copy, PartialEq, Eq, Structural)]
pub enum Reason {
    /// Requested by the user.
    Manual,
    /// Pulled in as a dependency.
    Automatic,
}

impl Reason {
    /// The textual form kept in the store.
    pub fn as_str(&self) -> (s: &'static str)
        ensures
            *self == Reason::Manual ==> s@ == "manual"@,
            *self == Reason::Automatic ==> s@ == "automatic"@,
    {
        proof {
            reveal_strlit("manual");
            reveal_strlit("automatic");
        }
        match self {
            Reason::Manual => "manual",
            Reason::Automatic => "automatic",
        }
    }
}

/// A module placed in the deployment queue.
#[derive(Debug)]
pub struct QueuedModule {
    pub name: String,
    pub reason: Reason,
    /// The dependencies reported when the module was loaded.
    pub depends_on: Vec<String>,
}

/// A module whose dependencies are being walked.
struct Frame {
    name: String,
    reason: Reason,
    deps: Vec<String>,
    next: usize,
}

/// What the resolver needs next.
#[derive(Debug)]
pub enum ResolveStep {
    /// Read the configuration of this module and report its dependencies.
    Load { name: String, reason: Reason },
    /// Every module has been resolved.
    Done,
}

/// Error of [`ModulesQueueBuilder::build`].
#[derive(Debug, PartialEq, Eq, Structural)]
pub enum QueueError {
    /// No module list was given to the builder.
    NoModules,
}

/// Collects the modules the user asked for.
#[derive(Debug)]
pub struct ModulesQueueBuilder {
    /// Modules to be processed (in raw, unprocessed form)
    pub modules: Option<Vec<String>>,
}

impl ModulesQueueBuilder {
    /// A builder without modules.
    pub fn new() -> (b: Self)
        ensures
            b.modules is None,
    {
        ModulesQueueBuilder { modules: None }
    }

    /// Sets the modules to resolve.
    pub fn with_modules(&mut self, modules: Vec<String>)
        ensures
            final(self).modules == Some(modules),
    {
        self.modules = Some(modules);
    }

    /// Starts the resolution of the requested modules, in the given order.
    pub fn build(self) -> (r: Result<ModuleResolver, QueueError>)
        ensures
            self.modules is None ==> r == Err::<ModuleResolver, QueueError>(QueueError::NoModules),
            self.modules matches Some(m) ==> (r matches Ok(res) && res.wf()
                && res.requests_view() == m.deep_view() && res.queue_view().len() == 0
                && res.reported() == Set::<Seq<char>>::empty() && !res.is_loading()),
    {
        match self.modules {
            Some(m) => Ok(ModuleResolver::new(m)),
            None => Err(QueueError::NoModules),
        }
    }
}

/// The resolution state.
pub struct ModuleResolver {
    requests: Vec<String>,
    next_request: usize,
    queue: Vec<QueuedModule>,
    stack: Vec<Frame>,
    pending: Option<(String, Reason)>,
    reported: Ghost<Set<Seq<char>>>,
}

/// `name` is the name of some module in `queue`.
pub open spec fn queue_has(queue: Seq<QueuedModule>, name: Seq<char>) -> bool {
    exists|k: int| 0 <= k < queue.len() && #[trigger] queue[k].name@ == name
}

/// `name` is a module of `queue` with the given reason.
pub open spec fn queue_has_with(queue: Seq<QueuedModule>, name: Seq<char>, reason: Reason) -> bool {
    exists|k: int| 0 <= k < queue.len() && #[trigger] queue[k].name@ == name && queue[k].reason == reason
}

/// What holds of the queue once resolution is done: every requested module
/// is there as `manual`, only requested modules are `manual`, no module is
/// there twice, the dependencies of every queued module are queued, and every
/// queued module was requested or reported as a dependency.
pub open spec fn resolution_complete(
    queue: Seq<QueuedModule>,
    requests: Seq<Seq<char>>,
    reported: Set<Seq<char>>,
) -> bool {
    &&& forall|i: int, j: int|
        0 <= i < queue.len() && 0 <= j < queue.len() && i != j ==> #[trigger] queue[i].name@
            != #[trigger] queue[j].name@
    &&& forall|k: int| 0 <= k < requests.len() ==> queue_has_with(queue, #[trigger] requests[k], Reason::Manual)
    &&& forall|i: int|
        0 <= i < queue.len() && #[trigger] queue[i].reason == Reason::Manual ==> requests.contains(queue[i].name@)
    &&& forall|i: int, j: int|
        0 <= i < queue.len() && 0 <= j < queue[i].depends_on.len() ==> queue_has(
            queue,
            #[trigger] queue[i].depends_on@[j]@,
        )
    &&& forall|i: int|
        0 <= i < queue.len() ==> requests.contains(#[trigger] queue[i].name@) || reported.contains(queue[i].name@)
}

spec fn in_queue(m: QueuedModule, q: Seq<QueuedModule>) -> bool {
    exists|k: int| 0 <= k < q.len() && q[k] == m
}

spec fn frame_entry(f: Frame) -> (Seq<char>, Reason) {
    (f.name@, f.reason)
}

spec fn queued_entry(m: QueuedModule) -> (Seq<char>, Reason) {
    (m.name@, m.reason)
}

spec fn has_name(es: Seq<(Seq<char>, Reason)>, name: Seq<char>) -> bool {
    exists|k: int| 0 <= k < es.len() && (#[trigger] es[k]).0 == name
}

spec fn has_entry(es: Seq<(Seq<char>, Reason)>, name: Seq<char>, reason: Reason) -> bool {
    exists|k: int| 0 <= k < es.len() && #[trigger] es[k] == (name, reason)
}

spec fn unique_names(es: Seq<(Seq<char>, Reason)>) -> bool {
    forall|i: int, j: int|
        0 <= i < es.len() && 0 <= j < es.len() && i != j ==> (#[trigger] es[i]).0 != (#[trigger] es[j]).0
}

/// Steps of work left in the frames: one per unread dependency and one per frame.
spec fn frames_work(s: Seq<Frame>) -> nat
    decreases s.len(),
{
    if s.len() == 0 {
        0
    } else {
        frames_work(s.drop_last()) + (s.last().deps.len() - s.last().next) as nat + 1
    }
}

impl ModuleResolver {
    /// The requested module names.
    pub closed spec fn requests_view(self) -> Seq<Seq<char>> {
        self.requests.deep_view()
    }

    /// The modules queued so far.
    pub closed spec fn queue_view(self) -> Seq<QueuedModule> {
        self.queue@
    }

    /// Every dependency name reported so far.
    pub closed spec fn reported(self) -> Set<Seq<char>> {
        self.reported@
    }

    /// A module has been asked for and its dependencies are awaited.
    pub closed spec fn is_loading(self) -> bool {
        self.pending is Some
    }

    /// The module that is awaited.
    pub closed spec fn loading(self) -> (Seq<char>, Reason) {
        (self.pending.unwrap().0@, self.pending.unwrap().1)
    }

    spec fn entries(self) -> Seq<(Seq<char>, Reason)> {
        self.queue@.map_values(|m: QueuedModule| queued_entry(m)) + self.stack@.map_values(
            |f: Frame| frame_entry(f),
        )
    }

    spec fn pend_name(self) -> Seq<char> {
        match self.pending { Some((n, _)) => n@, None => Seq::empty() }
    }

    spec fn pend_reason(self) -> Reason {
        match self.pending { Some((_, r)) => r, None => Reason::Automatic }
    }

    spec fn taken(self) -> Seq<Seq<char>> {
        self.requests.deep_view().take(self.next_request as int)
    }

    spec fn pending_is(self, name: Seq<char>, reason: Reason) -> bool {
        self.pending matches Some(p) && p.0@ == name && p.1 == reason
    }

    spec fn pending_named(self, name: Seq<char>) -> bool {
        self.pending matches Some(p) && p.0@ == name
    }

    proof fn lemma_entries(self)
        ensures
            self.entries().len() == self.queue@.len() + self.stack@.len(),
            forall|k: int| 0 <= k < self.queue@.len() ==> #[trigger] self.entries()[k] == queued_entry(self.queue@[k]),
            forall|k: int|
                0 <= k < self.stack@.len() ==> #[trigger] self.entries()[self.queue@.len() + k] == frame_entry(
                    self.stack@[k],
                ),
    {
        let qm = self.queue@.map_values(|m: QueuedModule| queued_entry(m));
        let sm = self.stack@.map_values(|f: Frame| frame_entry(f));
        assert forall|k: int| 0 <= k < self.stack@.len() implies #[trigger] self.entries()[self.queue@.len() + k]
            == frame_entry(self.stack@[k]) by {
            assert((qm + sm)[qm.len() + k] == sm[k]);
        }
    }

    /// The internal consistency of the resolution state.
    pub closed spec fn wf(self) -> bool {
        let es = self.entries();
        &&& self.next_request <= self.requests.len()
        &&& unique_names(es)
        &&& forall|i: int| 0 <= i < self.stack.len() ==> #[trigger] self.stack@[i].next <= self.stack@[i].deps.len()
        &&& forall|k: int|
            0 <= k < self.next_request ==> has_entry(es, #[trigger] self.requests@[k]@, Reason::Manual)
                || self.pending_is(self.requests@[k]@, Reason::Manual)
        &&& forall|n: Seq<char>| #[trigger] has_entry(es, n, Reason::Manual) ==> self.taken().contains(n)
        &&& forall|i: int, j: int|
            0 <= i < self.queue.len() && 0 <= j < self.queue@[i].depends_on.len() ==> has_name(
                es,
                #[trigger] self.queue@[i].depends_on@[j]@,
            ) || self.pending_named(self.queue@[i].depends_on@[j]@)
        &&& forall|i: int, j: int|
            0 <= i < self.stack.len() && 0 <= j < self.stack@[i].next ==> has_name(
                es,
                #[trigger] self.stack@[i].deps@[j]@,
            ) || self.pending_named(self.stack@[i].deps@[j]@)
        &&& forall|i: int, j: int|
            0 <= i < self.stack.len() && 0 <= j < self.stack@[i].deps.len() ==> self.reported@.contains(
                #[trigger] self.stack@[i].deps@[j]@,
            )
        &&& forall|n: Seq<char>| #[trigger] has_name(es, n) ==> self.taken().contains(n) || self.reported@.contains(n)
        &&& self.pending matches Some(p) ==> {
            &&& p.1 == Reason::Manual ==> self.stack.len() == 0 && self.taken().contains(p.0@)
            &&& p.1 == Reason::Automatic ==> !has_name(es, p.0@) && self.reported@.contains(p.0@)
        }
    }

    fn new(requests: Vec<String>) -> (r: Self)
        ensures
            r.wf(),
            r.requests_view() == requests.deep_view(),
            r.queue_view().len() == 0,
            r.reported() == Set::<Seq<char>>::empty(),
            !r.is_loading(),
    {
        let r = ModuleResolver {
            requests,
            next_request: 0,
            queue: Vec::new(),
            stack: Vec::new(),
            pending: None,
            reported: Ghost(Set::empty()),
        };
        assert(r.entries() =~= Seq::<(Seq<char>, Reason)>::empty());
        r
    }

    /// The reason under which `name` is already known, if it is.
    fn lookup(&self, name: &String) -> (r: Option<Reason>)
        requires
            unique_names(self.entries()),
        ensures
            r is None <==> !has_name(self.entries(), name@),
            r matches Some(x) ==> has_entry(self.entries(), name@, x),
            forall|x: Reason| has_entry(self.entries(), name@, x) ==> r == Some(x),
    {
        let ghost es = self.entries();
        let ghost nq = self.queue@.len();
        proof { self.lemma_entries(); }
        let mut i: usize = 0;
        while i < self.queue.len()
            invariant
                es == self.entries(),
                unique_names(es),
                nq == self.queue@.len(),
                i <= self.queue.len(),
                forall|k: int| 0 <= k < i ==> (#[trigger] es[k]).0 != name@,
            decreases self.queue.len() - i,
        {
            assert(es[i as int] == queued_entry(self.queue@[i as int]));
            if self.queue[i].name == *name {
                let reason = self.queue[i].reason;
                proof {
                    assert(es[i as int] == (name@, reason));
                    assert forall|x: Reason| has_entry(es, name@, x) implies Some(reason) == Some(x) by {
                        let k = choose|k: int| 0 <= k < es.len() && #[trigger] es[k] == (name@, x);
                        assert(es[k].0 == es[i as int].0);
                        assert(k == i);
                    }
                }
                return Some(reason);
            }
            i = i + 1;
        }
        let mut j: usize = 0;
        while j < self.stack.len()
            invariant
                es == self.entries(),
                unique_names(es),
                nq == self.queue@.len(),
                es.len() == nq + self.stack@.len(),
                j <= self.stack.len(),
                forall|k: int| 0 <= k < nq + j ==> (#[trigger] es[k]).0 != name@,
            decreases self.stack.len() - j,
        {
            assert(es[nq + j] == frame_entry(self.stack@[j as int]));
            if self.stack[j].name == *name {
                let reason = self.stack[j].reason;
                proof {
                    assert(es[nq + j] == (name@, reason));
                    assert forall|x: Reason| has_entry(es, name@, x) implies Some(reason) == Some(x) by {
                        let k = choose|k: int| 0 <= k < es.len() && #[trigger] es[k] == (name@, x);
                        assert(es[k].0 == es[nq + j].0);
                        assert(k == nq + j);
                    }
                }
                return Some(reason);
            }
            j = j + 1;
        }
        None
    }

    /// Advances the resolution until a module configuration is needed or every
    /// module is resolved. While a module is awaited, it is asked for again.
    pub fn next_step(&mut self) -> (step: ResolveStep)
        requires
            old(self).wf(),
        ensures
            final(self).wf(),
            final(self).requests_view() == old(self).requests_view(),
            final(self).reported() == old(self).reported(),
            old(self).is_loading() ==> *final(self) == *old(self),
            step matches ResolveStep::Load { name, reason } ==> final(self).is_loading()
                && final(self).loading() == (name@, reason),
            step matches ResolveStep::Load { name, reason } ==> (reason == Reason::Manual ==> final(self).requests_view().contains(name@)),
            step matches ResolveStep::Load { name, reason } ==> (reason == Reason::Automatic ==> final(self).reported().contains(name@)
                && !queue_has(final(self).queue_view(), name@)),
            step is Done ==> !final(self).is_loading() && resolution_complete(
                final(self).queue_view(),
                final(self).requests_view(),
                final(self).reported(),
            ),
    {
        if let Some(p) = &self.pending {
            proof { self.lemma_pending_due(); }
            return ResolveStep::Load { name: p.0.clone(), reason: p.1 };
        }
        loop
            invariant
                self.wf(),
                self.pending is None,
                old(self).pending is None,
                self.requests@ == old(self).requests@,
                self.reported@ == old(self).reported@,
            decreases (self.requests.len() - self.next_request) + frames_work(self.stack@),
        {
            let ghost before = *self;
            if self.stack.len() > 0 {
                let mut top = self.stack.pop().unwrap();
                proof {
                    assert(before.stack@ == self.stack@.push(top));
                    assert(self.stack@ =~= before.stack@.drop_last());
                }
                if top.next < top.deps.len() {
                    let dep = top.deps[top.next].clone();
                    top.next = top.next + 1;
                    self.stack.push(top);
                    proof {
                        assert(self.stack@ =~= before.stack@.update(before.stack@.len() - 1, self.stack@.last()));
                        assert(self.entries() =~= before.entries());
                        assert(self.stack@.drop_last() =~= before.stack@.drop_last());
                    }
                    let known = self.lookup(&dep);
                    match known {
                        Some(_) => {
                            proof { self.lemma_frame_step(before); }
                        },
                        None => {
                            proof {
                                let nt = before.stack@.len() - 1;
                                assert(before.reported@.contains(before.stack@[nt].deps@[before.stack@[nt].next as int]@));
                            }
                            let name = dep.clone();
                            self.pending = Some((dep, Reason::Automatic));
                            proof {
                                self.lemma_frame_step(before);
                                self.lemma_pending_due();
                            }
                            return ResolveStep::Load { name, reason: Reason::Automatic };
                        },
                    }
                } else {
                    self.queue.push(QueuedModule { name: top.name, reason: top.reason, depends_on: top.deps });
                    assert(self.queue@.drop_last() =~= before.queue@);
                    proof { self.lemma_frame_done(before); }
                }
            } else if self.next_request < self.requests.len() {
                let req = self.requests[self.next_request].clone();
                self.next_request = self.next_request + 1;
                let known = self.lookup(&req);
                match known {
                    Some(Reason::Manual) => {
                        proof { self.lemma_request_step(before, req@, false); }
                    },
                    _ => {
                        let name = req.clone();
                        self.pending = Some((req, Reason::Manual));
                        proof {
                            self.lemma_request_step(before, name@, true);
                            self.lemma_pending_due();
                        }
                        return ResolveStep::Load { name, reason: Reason::Manual };
                    },
                }
            } else {
                proof { self.lemma_done(); }
                return ResolveStep::Done;
            }
        }
    }

    proof fn lemma_pending_due(self)
        requires
            self.wf(),
            self.pending is Some,
        ensures
            self.pend_reason() == Reason::Manual ==> self.requests_view().contains(self.pend_name()),
            self.pend_reason() == Reason::Automatic ==> self.reported().contains(self.pend_name()) && !queue_has(
                self.queue_view(),
                self.pend_name(),
            ),
    {
        let n = self.pend_name();
        if self.pend_reason() == Reason::Manual {
            let k = choose|k: int| 0 <= k < self.taken().len() && self.taken()[k] == n;
            assert(self.requests_view()[k] == n);
        } else {
            self.lemma_entries();
            if queue_has(self.queue@, n) {
                let k = choose|k: int| 0 <= k < self.queue@.len() && #[trigger] self.queue@[k].name@ == n;
                assert(self.entries()[k] == queued_entry(self.queue@[k]));
                assert(self.entries()[k].0 == n);
            }
        }
    }

    proof fn lemma_frame_step(self, before: Self)
        requires
            before.wf(),
            before.pending is None,
            before.stack.len() > 0,
            ({
                let nt = before.stack@.len() - 1;
                let t = before.stack@[nt];
                &&& t.next < t.deps.len()
                &&& self.stack@ == before.stack@.update(nt, Frame { next: (t.next + 1) as usize, ..t })
                &&& self.queue@ == before.queue@
                &&& self.requests@ == before.requests@
                &&& self.next_request == before.next_request
                &&& self.reported@ == before.reported@
                &&& match self.pending {
                    None => has_name(before.entries(), t.deps@[t.next as int]@),
                    Some(p) => p.1 == Reason::Automatic && p.0@ == t.deps@[t.next as int]@
                        && !has_name(before.entries(), p.0@),
                }
            }),
        ensures
            self.wf(),
            frames_work(self.stack@) < frames_work(before.stack@),
    {
        let nt = before.stack@.len() - 1;
        assert(self.entries() =~= before.entries());
        assert(self.stack@.drop_last() =~= before.stack@.drop_last());
        assert forall|i: int, j: int|
            0 <= i < self.stack.len() && 0 <= j < self.stack@[i].next implies has_name(
                self.entries(),
                #[trigger] self.stack@[i].deps@[j]@,
            ) || self.pending_named(self.stack@[i].deps@[j]@) by {
            if i != nt || j < before.stack@[nt].next {
                assert(self.stack@[i].deps@[j] == before.stack@[i].deps@[j]);
            }
        }
        assert forall|i: int, j: int|
            0 <= i < self.queue.len() && 0 <= j < self.queue@[i].depends_on.len() implies has_name(
                self.entries(),
                #[trigger] self.queue@[i].depends_on@[j]@,
            ) || self.pending_named(self.queue@[i].depends_on@[j]@) by {
            assert(self.queue@[i] == before.queue@[i]);
        }
        assert forall|i: int, j: int|
            0 <= i < self.stack.len() && 0 <= j < self.stack@[i].deps.len() implies self.reported@.contains(
                #[trigger] self.stack@[i].deps@[j]@,
            ) by {
            assert(self.stack@[i].deps@[j] == before.stack@[i].deps@[j]);
        }
        assert forall|i: int| 0 <= i < self.stack.len() implies #[trigger] self.stack@[i].next
            <= self.stack@[i].deps.len() by {
            if i != nt {
                assert(self.stack@[i] == before.stack@[i]);
            }
        }
        if let Some(p) = self.pending {
            assert(self.reported@.contains(before.stack@[nt].deps@[before.stack@[nt].next as int]@));
        }
    }

    proof fn lemma_frame_done(self, before: Self)
        requires
            before.wf(),
            before.pending is None,
            before.stack.len() > 0,
            ({
                let nt = before.stack@.len() - 1;
                let t = before.stack@[nt];
                &&& t.next >= t.deps.len()
                &&& self.stack@ == before.stack@.drop_last()
                &&& self.queue@.len() == before.queue@.len() + 1
                &&& self.queue@.drop_last() == before.queue@
                &&& self.queue@.last().name == t.name
                &&& self.queue@.last().reason == t.reason
                &&& self.queue@.last().depends_on == t.deps
                &&& self.requests@ == before.requests@
                &&& self.next_request == before.next_request
                &&& self.reported@ == before.reported@
                &&& self.pending is None
            }),
        ensures
            self.wf(),
            frames_work(self.stack@) < frames_work(before.stack@),
    {
        let nt = before.stack@.len() - 1;
        let nq = before.queue@.len() as int;
        self.lemma_entries();
        before.lemma_entries();
        let es = self.entries();
        let bs = before.entries();
        // the finished frame moves from the end of the stack to the end of the queue
        let pos = |k: int| if k < nq { k } else if k == nq { nq + nt } else { k - 1 };
        assert forall|k: int| 0 <= k < es.len() implies #[trigger] es[k] == bs[pos(k)] by {
            if k < nq {
                assert(self.queue@[k] == before.queue@[k]);
            } else if k == nq {
                assert(es[nq] == queued_entry(self.queue@[nq]));
                assert(bs[nq + nt] == frame_entry(before.stack@[nt]));
            } else {
                let kk = k - nq - 1;
                assert(es[(nq + 1) + kk] == frame_entry(self.stack@[kk]));
                assert(bs[nq + kk] == frame_entry(before.stack@[kk]));
                assert(self.stack@[kk] == before.stack@[kk]);
            }
        }
        assert forall|k: int| 0 <= k < bs.len() implies exists|j: int| 0 <= j < es.len() && #[trigger] es[j] == #[trigger] bs[k] && pos(j) == k by {
            if k < nq {
                assert(es[k] == bs[pos(k)]);
            } else if k == nq + nt {
                assert(es[nq] == bs[pos(nq)]);
            } else {
                assert(es[k + 1] == bs[pos(k + 1)]);
            }
        }
        assert(unique_names(es)) by {
            assert forall|i: int, j: int| 0 <= i < es.len() && 0 <= j < es.len() && i != j implies (#[trigger] es[i]).0
                != (#[trigger] es[j]).0 by {
                assert(es[i] == bs[pos(i)]);
                assert(es[j] == bs[pos(j)]);
            }
        }
        assert forall|m: Seq<char>, r: Reason| #[trigger] has_entry(es, m, r) <==> has_entry(bs, m, r) by {
            if has_entry(es, m, r) {
                let k = choose|k: int| 0 <= k < es.len() && #[trigger] es[k] == (m, r);
                assert(bs[pos(k)] == (m, r));
            }
            if has_entry(bs, m, r) {
                let k = choose|k: int| 0 <= k < bs.len() && #[trigger] bs[k] == (m, r);
                let j = choose|j: int| 0 <= j < es.len() && #[trigger] es[j] == bs[k] && pos(j) == k;
            }
        }
        assert forall|m: Seq<char>| #[trigger] has_name(es, m) <==> has_name(bs, m) by {
            if has_name(es, m) {
                let k = choose|k: int| 0 <= k < es.len() && (#[trigger] es[k]).0 == m;
                assert(bs[pos(k)].0 == m);
            }
            if has_name(bs, m) {
                let k = choose|k: int| 0 <= k < bs.len() && (#[trigger] bs[k]).0 == m;
                let j = choose|j: int| 0 <= j < es.len() && #[trigger] es[j] == bs[k] && pos(j) == k;
                assert(es[j].0 == m);
            }
        }
        assert forall|k: int|
            0 <= k < self.next_request implies has_entry(es, #[trigger] self.requests@[k]@, Reason::Manual)
                || self.pending_is(self.requests@[k]@, Reason::Manual) by {
            assert(has_entry(bs, self.requests@[k]@, Reason::Manual));
        }
        assert forall|i: int, j: int|
            0 <= i < self.queue.len() && 0 <= j < self.queue@[i].depends_on.len() implies has_name(
                self.entries(),
                #[trigger] self.queue@[i].depends_on@[j]@,
            ) || self.pending_named(self.queue@[i].depends_on@[j]@) by {
            if i < nq {
                assert(self.queue@[i] == before.queue@[i]);
            } else {
                assert(self.queue@[i].depends_on@[j] == before.stack@[nt].deps@[j]);
            }
        }
        assert forall|i: int, j: int|
            0 <= i < self.stack.len() && 0 <= j < self.stack@[i].next implies has_name(
                self.entries(),
                #[trigger] self.stack@[i].deps@[j]@,
            ) || self.pending_named(self.stack@[i].deps@[j]@) by {
            assert(self.stack@[i] == before.stack@[i]);
        }
        assert forall|i: int, j: int|
            0 <= i < self.stack.len() && 0 <= j < self.stack@[i].deps.len() implies self.reported@.contains(
                #[trigger] self.stack@[i].deps@[j]@,
            ) by {
            assert(self.stack@[i] == before.stack@[i]);
        }
        assert forall|i: int| 0 <= i < self.stack.len() implies #[trigger] self.stack@[i].next
            <= self.stack@[i].deps.len() by {
            assert(self.stack@[i] == before.stack@[i]);
        }
    }

    proof fn lemma_request_step(self, before: Self, req: Seq<char>, loading: bool)
        requires
            before.wf(),
            before.pending is None,
            before.stack.len() == 0,
            before.next_request < before.requests.len(),
            req == before.requests@[before.next_request as int]@,
            self.stack@ == before.stack@,
            self.queue@ == before.queue@,
            self.requests@ == before.requests@,
            self.next_request == before.next_request + 1,
            self.reported@ == before.reported@,
            loading ==> self.pending_is(req, Reason::Manual),
            !loading ==> self.pending is None && has_entry(before.entries(), req, Reason::Manual),
        ensures
            self.wf(),
    {
        assert(self.entries() =~= before.entries());
        let nr = before.next_request as int;
        assert(self.requests.deep_view()[nr] == req);
        assert(self.taken() =~= before.taken().push(req));
        assert forall|x: Seq<char>| before.taken().contains(x) implies self.taken().contains(x) by {
            let k = choose|k: int| 0 <= k < before.taken().len() && before.taken()[k] == x;
            assert(self.taken()[k] == x);
        }
        assert(self.taken()[nr] == req);
        assert forall|k: int|
            0 <= k < self.next_request implies has_entry(self.entries(), #[trigger] self.requests@[k]@, Reason::Manual)
                || self.pending_is(self.requests@[k]@, Reason::Manual) by {
            if k < nr {
                assert(before.pending is None);
            }
        }
    }

    proof fn lemma_done(self)
        requires
            self.wf(),
            self.pending is None,
            self.stack.len() == 0,
            self.next_request >= self.requests.len(),
        ensures
            resolution_complete(self.queue_view(), self.requests_view(), self.reported()),
    {
        let es = self.entries();
        let q = self.queue@;
        self.lemma_entries();
        assert(self.stack@.map_values(|f: Frame| frame_entry(f)) =~= Seq::<(Seq<char>, Reason)>::empty());
        assert(es =~= q.map_values(|m: QueuedModule| queued_entry(m)));
        assert(self.taken() =~= self.requests_view());
        assert forall|i: int, j: int|
            0 <= i < q.len() && 0 <= j < q.len() && i != j implies #[trigger] q[i].name@ != #[trigger] q[j].name@ by {
            assert(es[i].0 == q[i].name@);
            assert(es[j].0 == q[j].name@);
        }
        assert forall|k: int| 0 <= k < self.requests_view().len() implies queue_has_with(
            q,
            #[trigger] self.requests_view()[k],
            Reason::Manual,
        ) by {
            assert(self.requests_view()[k] == self.requests@[k]@);
            let i = choose|i: int| 0 <= i < es.len() && #[trigger] es[i] == (self.requests@[k]@, Reason::Manual);
            assert(q[i].name@ == self.requests@[k]@);
        }
        assert forall|i: int| 0 <= i < q.len() && #[trigger] q[i].reason == Reason::Manual implies self.requests_view().contains(
            q[i].name@,
        ) by {
            assert(es[i] == queued_entry(q[i]));
            assert(has_entry(es, q[i].name@, Reason::Manual));
        }
        assert forall|i: int, j: int|
            0 <= i < q.len() && 0 <= j < q[i].depends_on.len() implies queue_has(q, #[trigger] q[i].depends_on@[j]@) by {
            let d = q[i].depends_on@[j]@;
            let k = choose|k: int| 0 <= k < es.len() && (#[trigger] es[k]).0 == d;
            assert(q[k].name@ == d);
        }
        assert forall|i: int| 0 <= i < q.len() implies self.requests_view().contains(#[trigger] q[i].name@)
            || self.reported().contains(q[i].name@) by {
            assert(es[i] == queued_entry(q[i]));
            assert(has_name(es, q[i].name@));
        }
    }

    /// Records the dependencies of the module that was asked for. Without a
    /// module awaited, nothing changes.
    pub fn module_loaded(&mut self, depends_on: Vec<String>)
        requires
            old(self).wf(),
        ensures
            final(self).wf(),
            !final(self).is_loading(),
            final(self).requests_view() == old(self).requests_view(),
            !old(self).is_loading() ==> *final(self) == *old(self),
            old(self).is_loading() ==> final(self).reported() == old(self).reported()
                + depends_on.deep_view().to_set(),
    {
        let p = self.pending.take();
        match p {
            None => {},
            Some((name, reason)) => {
                let ghost before = *old(self);
                let ghost deps_view = depends_on.deep_view();
                proof {
                    self.reported@ = self.reported@ + deps_view.to_set();
                }
                if reason == Reason::Manual {
                    let known = self.lookup(&name);
                    if known.is_some() {
                        let idx = self.queue_index(&name);
                        let removed = self.queue.remove(idx);
                        proof { self.lemma_upgrade_removed(before, idx as int); }
                    } else {
                        proof { self.lemma_nothing_removed(before); }
                    }
                }
                let ghost mid = *self;
                self.stack.push(Frame { name, reason, deps: depends_on, next: 0 });
                assert(self.stack@.drop_last() =~= mid.stack@);
                proof { self.lemma_loaded(before, mid, deps_view); }
            },
        }
    }

    /// Position in the queue of a module known to be queued.
    fn queue_index(&self, name: &String) -> (idx: usize)
        requires
            self.stack.len() == 0,
            has_name(self.entries(), name@),
        ensures
            idx < self.queue.len(),
            self.queue@[idx as int].name@ == name@,
    {
        let ghost es = self.entries();
        assert(es =~= self.queue@.map_values(|m: QueuedModule| queued_entry(m)));
        let mut i: usize = 0;
        while i < self.queue.len()
            invariant
                es == self.entries(),
                es.len() == self.queue@.len(),
                i <= self.queue.len(),
                has_name(es, name@),
                forall|k: int| 0 <= k < i ==> (#[trigger] es[k]).0 != name@,
            decreases self.queue.len() - i,
        {
            if self.queue[i].name == *name {
                return i;
            }
            assert(es[i as int] == queued_entry(self.queue@[i as int]));
            i = i + 1;
        }
        proof {
            let k = choose|k: int| 0 <= k < es.len() && (#[trigger] es[k]).0 == name@;
            assert(false);
        }
        0
    }

    proof fn lemma_nothing_removed(self, before: Self)
        requires
            before.wf(),
            before.pending is Some,
            self.queue@ == before.queue@,
            self.stack@ == before.stack@,
            !has_name(self.entries(), before.pend_name()),
        ensures
            forall|n: Seq<char>, r: Reason| #[trigger] has_entry(self.entries(), n, r) ==> has_entry(before.entries(), n, r),
            forall|n: Seq<char>| n != before.pend_name() && has_name(before.entries(), n) ==> #[trigger] has_name(self.entries(), n),
            unique_names(self.entries()),
            forall|i: int| 0 <= i < self.queue.len() ==> in_queue(#[trigger] self.queue@[i], before.queue@),
    {
        assert(self.entries() =~= before.entries());
        assert forall|i: int| 0 <= i < self.queue.len() implies in_queue(#[trigger] self.queue@[i], before.queue@) by {
            assert(self.queue@[i] == before.queue@[i]);
        }
    }

    proof fn lemma_upgrade_removed(self, before: Self, idx: int)
        requires
            before.wf(),
            before.pending is Some,
            before.pend_reason() == Reason::Manual,
            0 <= idx < before.queue.len(),
            before.queue@[idx].name@ == before.pend_name(),
            self.queue@ == before.queue@.remove(idx),
            self.stack@ == before.stack@,
            self.requests@ == before.requests@,
            self.next_request == before.next_request,
            self.pending is None,
        ensures
            !has_name(self.entries(), before.pend_name()),
            forall|n: Seq<char>, r: Reason| #[trigger] has_entry(self.entries(), n, r) ==> has_entry(before.entries(), n, r),
            forall|n: Seq<char>| n != before.pend_name() && has_name(before.entries(), n) ==> #[trigger] has_name(self.entries(), n),
            unique_names(self.entries()),
            forall|i: int| 0 <= i < self.queue.len() ==> in_queue(#[trigger] self.queue@[i], before.queue@),
    {
        let es = self.entries();
        let bs = before.entries();
        let n = before.pend_name();
        assert(before.stack.len() == 0);
        assert(es =~= self.queue@.map_values(|m: QueuedModule| queued_entry(m)));
        assert(bs =~= before.queue@.map_values(|m: QueuedModule| queued_entry(m)));
        assert forall|k: int| 0 <= k < es.len() implies #[trigger] es[k] == bs[if k < idx { k } else { k + 1 }] by {}
        assert(!has_name(es, n)) by {
            if has_name(es, n) {
                let k = choose|k: int| 0 <= k < es.len() && (#[trigger] es[k]).0 == n;
                let kk = if k < idx { k } else { k + 1 };
                assert(bs[kk].0 == n);
                assert(bs[idx].0 == n);
            }
        }
        assert forall|m: Seq<char>, r: Reason| #[trigger] has_entry(es, m, r) implies has_entry(bs, m, r) by {
            let k = choose|k: int| 0 <= k < es.len() && #[trigger] es[k] == (m, r);
            let kk = if k < idx { k } else { k + 1 };
            assert(bs[kk] == (m, r));
        }
        assert forall|m: Seq<char>| m != n && has_name(bs, m) implies #[trigger] has_name(es, m) by {
            let k = choose|k: int| 0 <= k < bs.len() && (#[trigger] bs[k]).0 == m;
            assert(k != idx);
            let kk = if k < idx { k } else { k - 1 };
            assert(es[kk].0 == m);
        }
        assert forall|i: int, j: int| 0 <= i < es.len() && 0 <= j < es.len() && i != j implies (#[trigger] es[i]).0
            != (#[trigger] es[j]).0 by {
            let ii = if i < idx { i } else { i + 1 };
            let jj = if j < idx { j } else { j + 1 };
            assert(bs[ii].0 != bs[jj].0);
        }
        assert forall|i: int| 0 <= i < self.queue.len() implies in_queue(#[trigger] self.queue@[i], before.queue@) by {
            let ii = if i < idx { i } else { i + 1 };
            assert(self.queue@[i] == before.queue@[ii]);
        }
    }

    proof fn lemma_loaded(self, before: Self, mid: Self, deps: Seq<Seq<char>>)
        requires
            before.wf(),
            before.pending is Some,
            mid.pending is None,
            mid.requests@ == before.requests@,
            mid.next_request == before.next_request,
            mid.stack@ == before.stack@,
            mid.reported@ == before.reported@ + deps.to_set(),
            before.pend_reason() == Reason::Automatic ==> mid.queue@ == before.queue@,
            before.pend_reason() == Reason::Manual ==> {
                &&& !has_name(mid.entries(), before.pend_name())
                &&& forall|n: Seq<char>, r: Reason| #[trigger] has_entry(mid.entries(), n, r) ==> has_entry(before.entries(), n, r)
                &&& forall|n: Seq<char>| n != before.pend_name() && has_name(before.entries(), n) ==> #[trigger] has_name(mid.entries(), n)
                &&& unique_names(mid.entries())
                &&& forall|i: int| 0 <= i < mid.queue.len() ==> in_queue(#[trigger] mid.queue@[i], before.queue@)
            },
            self.queue@ == mid.queue@,
            self.requests@ == before.requests@,
            self.next_request == before.next_request,
            self.reported@ == mid.reported@,
            self.pending is None,
            self.stack@.len() == mid.stack@.len() + 1,
            self.stack@.drop_last() == mid.stack@,
            self.stack@.last().name@ == before.pend_name(),
            self.stack@.last().reason == before.pend_reason(),
            self.stack@.last().deps.deep_view() == deps,
            self.stack@.last().next == 0,
        ensures
            self.wf(),
    {
        let n = before.pend_name();
        let r = before.pend_reason();
        let bs = before.entries();
        let ms = mid.entries();
        let es = self.entries();
        let ns = mid.stack@.len() as int;
        let nq = self.queue@.len() as int;
        assert(es =~= ms.push((n, r)));
        if r == Reason::Automatic {
            assert(ms =~= bs);
        }
        // entries of mid are entries of before
        assert forall|m: Seq<char>, x: Reason| #[trigger] has_entry(ms, m, x) implies has_entry(bs, m, x) by {
            if r == Reason::Automatic {
                assert(ms == bs);
            }
        }
        assert(!has_name(ms, n));
        assert forall|m: Seq<char>| m != n && has_name(bs, m) implies #[trigger] has_name(ms, m) by {
            if r == Reason::Automatic {
                assert(ms == bs);
            }
        }
        assert(unique_names(ms)) by {
            if r == Reason::Automatic {
                assert(ms == bs);
            }
        }
        assert forall|m: Seq<char>| has_name(bs, m) implies #[trigger] has_name(es, m) by {
            if m == n {
                assert(es[es.len() - 1].0 == n);
            } else {
                assert(has_name(ms, m));
                let k = choose|k: int| 0 <= k < ms.len() && (#[trigger] ms[k]).0 == m;
                assert(es[k].0 == m);
            }
        }
        assert(has_name(es, n)) by {
            assert(es[es.len() - 1].0 == n);
        }
        // uniqueness
        assert forall|i: int, j: int| 0 <= i < es.len() && 0 <= j < es.len() && i != j implies (#[trigger] es[i]).0
            != (#[trigger] es[j]).0 by {
            if i < ms.len() && j < ms.len() {
            } else if i < ms.len() {
                assert(!has_name(ms, n));
                assert(ms[i] == es[i]);
            } else {
                assert(!has_name(ms, n));
                assert(ms[j] == es[j]);
            }
        }
        // frame bounds
        assert forall|i: int| 0 <= i < self.stack.len() implies #[trigger] self.stack@[i].next <= self.stack@[i].deps.len() by {
            if i < ns {
                assert(self.stack@[i] == mid.stack@[i]);
            }
        }
        // requests
        assert forall|k: int| 0 <= k < self.next_request implies has_entry(es, #[trigger] self.requests@[k]@, Reason::Manual)
            || self.pending_is(self.requests@[k]@, Reason::Manual) by {
            let q = self.requests@[k]@;
            if before.pending_is(q, Reason::Manual) {
                assert(es[es.len() - 1] == (q, Reason::Manual));
            } else {
                let kk = choose|kk: int| 0 <= kk < bs.len() && #[trigger] bs[kk] == (q, Reason::Manual);
                assert(has_name(bs, q));
                assert(q != n) by {
                    if q == n {
                        if r == Reason::Automatic {
                            assert(!has_name(bs, n));
                        }
                    }
                }
                assert(has_name(ms, q));
                let j = choose|j: int| 0 <= j < ms.len() && (#[trigger] ms[j]).0 == q;
                assert(has_entry(ms, q, ms[j].1));
                assert(has_entry(bs, q, ms[j].1));
                let jj = choose|jj: int| 0 <= jj < bs.len() && #[trigger] bs[jj] == (q, ms[j].1);
                assert(jj == kk);
                assert(es[j] == (q, Reason::Manual));
            }
        }
        // manual entries were requested
        assert forall|m: Seq<char>| #[trigger] has_entry(es, m, Reason::Manual) implies self.taken().contains(m) by {
            let i = choose|i: int| 0 <= i < es.len() && #[trigger] es[i] == (m, Reason::Manual);
            if i < ms.len() {
                assert(has_entry(ms, m, Reason::Manual));
                assert(has_entry(bs, m, Reason::Manual));
            }
        }
        // origin of every entry
        assert forall|m: Seq<char>| #[trigger] has_name(es, m) implies self.taken().contains(m) || self.reported@.contains(m) by {
            let i = choose|i: int| 0 <= i < es.len() && (#[trigger] es[i]).0 == m;
            if i < ms.len() {
                assert(has_entry(ms, ms[i].0, ms[i].1));
                assert(has_entry(bs, ms[i].0, ms[i].1));
                let kk = choose|kk: int| 0 <= kk < bs.len() && #[trigger] bs[kk] == (ms[i].0, ms[i].1);
                assert(has_name(bs, m));
            }
        }
        // queue closure
        assert forall|i: int, j: int|
            0 <= i < self.queue.len() && 0 <= j < self.queue@[i].depends_on.len() implies has_name(
                es,
                #[trigger] self.queue@[i].depends_on@[j]@,
            ) || self.pending_named(self.queue@[i].depends_on@[j]@) by {
            let d = self.queue@[i].depends_on@[j]@;
            if r == Reason::Automatic {
                assert(self.queue@[i] == before.queue@[i]);
            } else {
                let k = choose|k: int| 0 <= k < before.queue.len() && mid.queue@[i] == #[trigger] before.queue@[k];
                assert(before.queue@[k].depends_on@[j]@ == d);
            }
            assert(has_name(bs, d) || d == n);
        }
        // frame closure
        assert forall|i: int, j: int|
            0 <= i < self.stack.len() && 0 <= j < self.stack@[i].next implies has_name(
                es,
                #[trigger] self.stack@[i].deps@[j]@,
            ) || self.pending_named(self.stack@[i].deps@[j]@) by {
            assert(i < ns);
            assert(self.stack@[i] == before.stack@[i]);
            let d = self.stack@[i].deps@[j]@;
            assert(has_name(bs, d) || d == n);
        }
        // reported frame deps
        assert forall|i: int, j: int|
            0 <= i < self.stack.len() && 0 <= j < self.stack@[i].deps.len() implies self.reported@.contains(
                #[trigger] self.stack@[i].deps@[j]@,
            ) by {
            if i < ns {
                assert(self.stack@[i] == before.stack@[i]);
            } else {
                assert(self.stack@[i].deps.deep_view()[j] == self.stack@[i].deps@[j]@);
                assert(deps.contains(self.stack@[i].deps@[j]@));
            }
        }
    }

    /// Hands out the queue in resolution order.
    pub fn into_queue(self) -> (q: Vec<QueuedModule>)
        ensures
            q@ == self.queue_view(),
    {
        self.queue
    }
}

} // verus!
