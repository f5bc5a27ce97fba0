use crate::command::{Error, ErrorModel, Step, StepModel, copy_texts, plan_model};
use crate::device::PathKind;
use vstd::prelude::*;

verus! {

/// What the caller saw when it performed a step.
#[derive(Clone, Copy, Debug, PartialEq, Eq, Structural)]
pub enum Observation {
    /// The kind of what the checked path holds.
    Found(PathKind),
    /// The program's exit code; `None` where it could not run or had none.
    Exited(Option<i32>),
}

/// The step did what it is for.
pub open spec fn step_passes(s: StepModel, o: Observation) -> bool {
    match s {
        StepModel::RequireBlockDevice(_) => o == Observation::Found(PathKind::BlockDevice),
        StepModel::RequireDirectory(_) => o == Observation::Found(PathKind::Directory),
        StepModel::EnsureDirectory(_) => o == Observation::Found(PathKind::Directory),
        StepModel::Run(_) => o == Observation::Exited(Some(0i32)),
        StepModel::TryRun(_) => o == Observation::Exited(Some(0i32)),
    }
}

/// The step failed and its failure ends the work.
pub open spec fn aborts(s: StepModel, o: Observation) -> bool {
    !step_passes(s, o) && !(s is TryRun)
}

pub open spec fn exit_code(o: Observation) -> Option<i32> {
    match o {
        Observation::Exited(c) => c,
        Observation::Found(_) => None,
    }
}

/// The error that a failed step reports.
pub open spec fn step_error(s: StepModel, o: Observation) -> ErrorModel {
    match s {
        StepModel::RequireBlockDevice(p) => ErrorModel::InvalidDevice(p),
        StepModel::RequireDirectory(p) => ErrorModel::InvalidMountpoint(p),
        StepModel::EnsureDirectory(p) => ErrorModel::DirectoryUnavailable(p),
        StepModel::Run(c) => ErrorModel::CommandFailed { operation: c.program, args: c.args, code: exit_code(o) },
        StepModel::TryRun(c) => ErrorModel::CommandFailed { operation: c.program, args: c.args, code: exit_code(o) },
    }
}

/// Where work made of `steps` stands once the first steps were performed and
/// gave `obs`: `None` while a step is still to be performed, else the result.
/// The work stops at the first step whose failure is not ignored.
pub open spec fn status(steps: Seq<StepModel>, obs: Seq<Observation>) -> Option<Result<(), ErrorModel>>
    decreases obs.len(),
{
    if steps.len() == 0 {
        Some(Ok(()))
    } else if obs.len() == 0 {
        None
    } else if aborts(steps[0], obs[0]) {
        Some(Err(step_error(steps[0], obs[0])))
    } else {
        status(steps.drop_first(), obs.drop_first())
    }
}

pub open spec fn result_model(r: Result<(), Error>) -> Result<(), ErrorModel> {
    match r {
        Ok(()) => Ok(()),
        Err(e) => Err(e@),
    }
}

/// One more observation, on the step that was pending.
pub proof fn lemma_status_push(steps: Seq<StepModel>, obs: Seq<Observation>, o: Observation)
    requires
        status(steps, obs) is None,
    ensures
        obs.len() < steps.len(),
        status(steps, obs.push(o)) == (if aborts(steps[obs.len() as int], o) {
            Some(Err(step_error(steps[obs.len() as int], o)))
        } else if obs.len() + 1 == steps.len() {
            Some(Ok(()))
        } else {
            None
        }),
    decreases obs.len(),
{
    let obs2 = obs.push(o);
    assert(obs2[0] == if obs.len() > 0 { obs[0] } else { o });
    if obs.len() > 0 {
        assert(obs2.drop_first() =~= obs.drop_first().push(o));
        lemma_status_push(steps.drop_first(), obs.drop_first(), o);
        assert(steps.drop_first()[obs.len() - 1] == steps[obs.len() as int]);
    } else {
        assert(obs2.drop_first() =~= Seq::<Observation>::empty());
        if !aborts(steps[0], o) {
            assert(status(steps, obs2) == status(steps.drop_first(), Seq::<Observation>::empty()));
        }
    }
}

/// A running piece of work: its steps, and what was seen of those performed.
pub struct Session {
    steps: Vec<Step>,
    pos: usize,
    outcome: Option<Result<(), Error>>,
    seen: Ghost<Seq<Observation>>,
}

impl Session {
    pub closed spec fn plan(&self) -> Seq<StepModel> {
        plan_model(self.steps@)
    }

    /// The observations reported so far, one per step performed.
    pub closed spec fn seen(&self) -> Seq<Observation> {
        self.seen@
    }

    pub closed spec fn wf(&self) -> bool {
        &&& self.pos == self.seen@.len()
        &&& self.pos <= self.steps@.len()
        &&& status(self.plan(), self.seen@) == match self.outcome {
            Some(r) => Some(result_model(r)),
            None => None::<Result<(), ErrorModel>>,
        }
    }

    pub open spec fn finished(&self) -> bool {
        status(self.plan(), self.seen()) is Some
    }

    pub fn new(steps: Vec<Step>) -> (r: Session)
        ensures
            r.wf(),
            r.plan() == plan_model(steps@),
            r.seen() == Seq::<Observation>::empty(),
    {
        let outcome = if steps.len() == 0 {
            Some(Ok(()))
        } else {
            None
        };
        Session { steps, pos: 0, outcome, seen: Ghost(Seq::empty()) }
    }

    /// The step to perform next, if the work is not over.
    pub fn pending(&self) -> (r: Option<&Step>)
        requires
            self.wf(),
        ensures
            r is None <==> self.finished(),
            r is Some ==> self.seen().len() < self.plan().len() && r->0@ == self.plan()[self.seen().len() as int],
    {
        if self.outcome.is_some() {
            None
        } else {
            proof {
                lemma_status_push(self.plan(), self.seen@, Observation::Exited(None));
            }
            Some(&self.steps[self.pos])
        }
    }

    /// Report what the pending step gave.
    pub fn observe(&mut self, o: Observation)
        requires
            old(self).wf(),
            !old(self).finished(),
        ensures
            final(self).wf(),
            final(self).plan() == old(self).plan(),
            final(self).seen() == old(self).seen().push(o),
    {
        proof {
            lemma_status_push(self.plan(), self.seen@, o);
        }
        assert(self.plan().len() == self.steps@.len());
        let n = self.steps.len();
        assert(self.pos < n);
        let ghost s = self.steps@[self.pos as int]@;
        assert(s == self.plan()[self.pos as int]);
        let failure: Option<Error> = match &self.steps[self.pos] {
            Step::RequireBlockDevice(p) => if o == Observation::Found(PathKind::BlockDevice) {
                None
            } else {
                Some(Error::InvalidDevice(p.clone()))
            },
            Step::RequireDirectory(p) => if o == Observation::Found(PathKind::Directory) {
                None
            } else {
                Some(Error::InvalidMountpoint(p.clone()))
            },
            Step::EnsureDirectory(p) => if o == Observation::Found(PathKind::Directory) {
                None
            } else {
                Some(Error::DirectoryUnavailable(p.clone()))
            },
            Step::Run(i) => if o == Observation::Exited(Some(0i32)) {
                None
            } else {
                let code = match o {
                    Observation::Exited(c) => c,
                    Observation::Found(_) => None,
                };
                Some(Error::CommandFailed { operation: i.program.clone(), args: copy_texts(&i.args), code })
            },
            Step::TryRun(_) => None,
        };
        assert(failure is Some <==> aborts(s, o));
        assert(failure matches Some(e) ==> e@ == step_error(s, o));
        self.pos = self.pos + 1;
        self.seen = Ghost(self.seen@.push(o));
        match failure {
            Some(e) => {
                self.outcome = Some(Err(e));
            },
            None => {
                if self.pos == n {
                    self.outcome = Some(Ok(()));
                }
            },
        }
    }

    /// Whether the work is over and succeeded.
    pub fn succeeded(&self) -> (r: bool)
        requires
            self.wf(),
        ensures
            r == (status(self.plan(), self.seen()) == Some(Ok::<(), ErrorModel>(()))),
    {
        match &self.outcome {
            Some(Ok(())) => true,
            _ => false,
        }
    }

    pub fn is_finished(&self) -> (r: bool)
        requires
            self.wf(),
        ensures
            r == self.finished(),
    {
        self.outcome.is_some()
    }

    /// The result of finished work.
    pub fn into_outcome(self) -> (r: Result<(), Error>)
        requires
            self.wf(),
            self.finished(),
        ensures
            Some(result_model(r)) == status(self.plan(), self.seen()),
    {
        match self.outcome {
            Some(r) => r,
            None => Ok(()),
        }
    }
}

/// Whether a session's work is over and succeeded.
pub open spec fn succeeded(s: Session) -> bool {
    status(s.plan(), s.seen()) == Some(Ok::<(), ErrorModel>(()))
}

/// Work done while something is held: acquire it; if that succeeded, do
/// the work, then release it, whatever the work gave.
pub struct Scope {
    acquire: Session,
    work: Session,
    release: Session,
}

/// The result of a scope: the acquiring error, else the work's error, else
/// the release's result.
pub open spec fn scope_result(a: Session, w: Session, r: Session) -> Option<Result<(), ErrorModel>> {
    match status(a.plan(), a.seen()) {
        None => None,
        Some(Err(e)) => Some(Err(e)),
        Some(Ok(())) => match (status(w.plan(), w.seen()), status(r.plan(), r.seen())) {
            (Some(Err(e)), Some(_)) => Some(Err(e)),
            (Some(Ok(())), Some(x)) => Some(x),
            _ => None,
        },
    }
}

impl Scope {
    pub closed spec fn acquiring(&self) -> Session {
        self.acquire
    }

    pub closed spec fn working(&self) -> Session {
        self.work
    }

    pub closed spec fn releasing(&self) -> Session {
        self.release
    }

    pub closed spec fn wf(&self) -> bool {
        &&& self.acquire.wf()
        &&& self.work.wf()
        &&& self.release.wf()
        &&& !succeeded(self.acquire) ==> self.work.seen().len() == 0 && self.release.seen().len() == 0
        &&& !self.work.finished() ==> self.release.seen().len() == 0
    }

    pub open spec fn finished(&self) -> bool {
        scope_result(self.acquiring(), self.working(), self.releasing()) is Some
    }

    pub fn new(acquire: Vec<Step>, work: Vec<Step>, release: Vec<Step>) -> (r: Scope)
        ensures
            r.wf(),
            r.acquiring().plan() == plan_model(acquire@),
            r.working().plan() == plan_model(work@),
            r.releasing().plan() == plan_model(release@),
            r.acquiring().seen().len() == 0,
            r.working().seen().len() == 0,
            r.releasing().seen().len() == 0,
    {
        Scope { acquire: Session::new(acquire), work: Session::new(work), release: Session::new(release) }
    }

    /// The step to perform next, if the scope is not over.
    pub fn pending(&self) -> (r: Option<&Step>)
        requires
            self.wf(),
        ensures
            r is None <==> self.finished(),
    {
        if !self.acquire.is_finished() {
            self.acquire.pending()
        } else if !self.acquire.succeeded() {
            None
        } else if !self.work.is_finished() {
            self.work.pending()
        } else {
            self.release.pending()
        }
    }

    /// Report what the pending step gave: it belongs to the acquiring while
    /// that goes on, then to the work, then to the release.
    pub fn observe(&mut self, o: Observation)
        requires
            old(self).wf(),
            !old(self).finished(),
        ensures
            final(self).wf(),
            final(self).acquiring().plan() == old(self).acquiring().plan(),
            final(self).working().plan() == old(self).working().plan(),
            final(self).releasing().plan() == old(self).releasing().plan(),
            !old(self).acquiring().finished() ==> final(self).acquiring().seen() == old(self).acquiring().seen().push(o)
                && final(self).working().seen() == old(self).working().seen()
                && final(self).releasing().seen() == old(self).releasing().seen(),
            old(self).acquiring().finished() && !old(self).working().finished() ==>
                final(self).acquiring().seen() == old(self).acquiring().seen()
                && final(self).working().seen() == old(self).working().seen().push(o)
                && final(self).releasing().seen() == old(self).releasing().seen(),
            old(self).acquiring().finished() && old(self).working().finished() ==>
                final(self).acquiring().seen() == old(self).acquiring().seen()
                && final(self).working().seen() == old(self).working().seen()
                && final(self).releasing().seen() == old(self).releasing().seen().push(o),
    {
        if !self.acquire.is_finished() {
            self.acquire.observe(o);
        } else if !self.work.is_finished() {
            self.work.observe(o);
        } else {
            self.release.observe(o);
        }
    }

    pub fn is_finished(&self) -> (r: bool)
        requires
            self.wf(),
        ensures
            r == self.finished(),
    {
        self.pending().is_none()
    }

    /// The result of a finished scope.
    pub fn into_outcome(self) -> (r: Result<(), Error>)
        requires
            self.wf(),
            self.finished(),
        ensures
            Some(result_model(r)) == scope_result(self.acquiring(), self.working(), self.releasing()),
    {
        let Scope { acquire, work, release } = self;
        if !acquire.succeeded() {
            acquire.into_outcome()
        } else if !work.succeeded() {
            work.into_outcome()
        } else {
            release.into_outcome()
        }
    }
}

/// A scope whose acquiring failed performs nothing more; one whose
/// acquiring succeeded, once over, has performed the release steps once
/// (up to the first failing one, which ends them), whatever the work gave.
pub proof fn lemma_scope_releases_once(s: Scope)
    requires
        s.wf(),
        s.finished(),
    ensures
        !succeeded(s.acquiring()) ==> s.working().seen().len() == 0 && s.releasing().seen().len() == 0,
        succeeded(s.acquiring()) ==> s.working().finished() && s.releasing().finished(),
        s.releasing().seen().len() <= s.releasing().plan().len(),
{
    if s.releasing().seen().len() > s.releasing().plan().len() {
        lemma_status_long(s.releasing().plan(), s.releasing().seen());
    }
}

/// Once there are more observations than steps, the work has ended.
proof fn lemma_status_long(steps: Seq<StepModel>, obs: Seq<Observation>)
    requires
        obs.len() > steps.len(),
    ensures
        status(steps, obs) is Some,
    decreases steps.len(),
{
    if steps.len() > 0 && !aborts(steps[0], obs[0]) {
        lemma_status_long(steps.drop_first(), obs.drop_first());
    }
}

} // verus!
