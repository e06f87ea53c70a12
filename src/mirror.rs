//! Downloading one artifact from an ordered list of mirror templates.
//!
//! `MirrorDownload` holds the decisions; whoever drives it checks the disk and
//! talks to the network. It asks first whether the file that the current
//! template names is already saved (`Probe`), then for that template's URL to
//! be fetched (`Fetch`). A saved file ends the download; a failed fetch moves
//! on to the next template; a successful one ends it. Templates are tried
//! strictly left to right.
use vstd::prelude::*;

use crate::template::{location_spec, mirror_location, TemplateError};

verus! {

/// How a download ended.
#[derive(Debug, Clone, Copy, PartialEq, Eq, Structural)]
pub enum DownloadOutcome {
    /// A mirror served the artifact and it was saved.
    Downloaded,
    /// The file was already saved; nothing was fetched for it.
    AlreadyPresent,
    /// Every template was tried and none served the artifact.
    NotFound,
}

/// Where a download stands.
#[derive(Debug, Clone, Copy, PartialEq, Eq, Structural)]
pub enum Phase {
    /// Waiting to learn whether the current template's file is saved.
    Probing,
    /// Waiting for the current template's URL to be fetched.
    Fetching,
    /// Ended with an outcome.
    Finished(DownloadOutcome),
    /// Ended on a template that cannot be used.
    Failed(TemplateError),
}

/// What the driver reports back.
#[derive(Debug, Clone, Copy, PartialEq, Eq, Structural)]
pub enum MirrorEvent {
    /// The probed file exists.
    Present,
    /// The probed file does not exist.
    Absent,
    /// The URL was fetched with a success status and its body saved.
    Fetched,
    /// The fetch failed or its status was not a success.
    Missed,
}

/// What the driver is asked to do next.
#[derive(Debug, PartialEq, Eq)]
pub enum MirrorAction {
    /// Check whether `file_name` exists in the destination directory.
    Probe { file_name: String },
    /// Fetch `url`; on success save the body as `file_name`.
    Fetch { url: String, file_name: String },
    /// The download has ended.
    Finish(DownloadOutcome),
    /// A template cannot be used.
    Fail(TemplateError),
}

/// `MirrorAction` as mathematical values.
pub enum MirrorStep {
    Probe(Seq<char>),
    Fetch(Seq<char>, Seq<char>),
    Finish(DownloadOutcome),
    Fail(TemplateError),
}

impl MirrorAction {
    pub open spec fn view(&self) -> MirrorStep {
        match self {
            MirrorAction::Probe { file_name } => MirrorStep::Probe(file_name@),
            MirrorAction::Fetch { url, file_name } => MirrorStep::Fetch(url@, file_name@),
            MirrorAction::Finish(o) => MirrorStep::Finish(*o),
            MirrorAction::Fail(e) => MirrorStep::Fail(*e),
        }
    }
}

/// The state of a download as mathematical values.
pub struct MirrorModel {
    pub identifier: Seq<char>,
    pub templates: Seq<Seq<char>>,
    pub cursor: int,
    pub phase: Phase,
}

/// The phase reached on arriving at template `cursor`: past the last
/// template nothing was found; a template that cannot be used fails the
/// download; otherwise its file is probed.
pub open spec fn arrive(m: MirrorModel, cursor: int) -> MirrorModel {
    let phase = if cursor >= m.templates.len() {
        Phase::Finished(DownloadOutcome::NotFound)
    } else {
        match location_spec(m.templates[cursor], m.identifier) {
            Err(e) => Phase::Failed(e),
            Ok(_) => Phase::Probing,
        }
    };
    MirrorModel { cursor, phase, ..m }
}

/// A fresh download of `identifier` over `templates`.
pub open spec fn initial(identifier: Seq<char>, templates: Seq<Seq<char>>) -> MirrorModel {
    arrive(MirrorModel { identifier, templates, cursor: 0, phase: Phase::Probing }, 0)
}

/// The state after `e`. An event that does not answer the pending action is
/// ignored.
pub open spec fn next(m: MirrorModel, e: MirrorEvent) -> MirrorModel {
    match (m.phase, e) {
        (Phase::Probing, MirrorEvent::Present) => MirrorModel {
            phase: Phase::Finished(DownloadOutcome::AlreadyPresent),
            ..m
        },
        (Phase::Probing, MirrorEvent::Absent) => MirrorModel { phase: Phase::Fetching, ..m },
        (Phase::Fetching, MirrorEvent::Fetched) => MirrorModel {
            phase: Phase::Finished(DownloadOutcome::Downloaded),
            ..m
        },
        (Phase::Fetching, MirrorEvent::Missed) => arrive(m, m.cursor + 1),
        _ => m,
    }
}

/// The action that a state asks for.
pub open spec fn pending(m: MirrorModel) -> MirrorStep {
    match m.phase {
        Phase::Finished(o) => MirrorStep::Finish(o),
        Phase::Failed(e) => MirrorStep::Fail(e),
        _ => match location_spec(m.templates[m.cursor], m.identifier) {
            Err(e) => MirrorStep::Fail(e),
            Ok((u, f)) => if m.phase is Probing {
                MirrorStep::Probe(f)
            } else {
                MirrorStep::Fetch(u, f)
            },
        },
    }
}

/// A state that is waiting on a template has one that can be used.
pub open spec fn model_wf(m: MirrorModel) -> bool {
    (m.phase is Probing || m.phase is Fetching) ==> {
        &&& 0 <= m.cursor < m.templates.len()
        &&& location_spec(m.templates[m.cursor], m.identifier) is Ok
    }
}

/// The answer that a world gives to the pending action, where the files of
/// `saved` exist and the URLs of `served` are fetched with success.
pub open spec fn answer(m: MirrorModel, saved: Set<Seq<char>>, served: Set<Seq<char>>) -> MirrorEvent {
    match pending(m) {
        MirrorStep::Probe(f) => if saved.contains(f) {
            MirrorEvent::Present
        } else {
            MirrorEvent::Absent
        },
        MirrorStep::Fetch(u, _) => if served.contains(u) {
            MirrorEvent::Fetched
        } else {
            MirrorEvent::Missed
        },
        _ => MirrorEvent::Absent,
    }
}

/// Drives a download in such a world for at most `fuel` steps: the state
/// reached and the URLs fetched, in order.
pub open spec fn drive(m: MirrorModel, saved: Set<Seq<char>>, served: Set<Seq<char>>, fuel: nat) -> (
    MirrorModel,
    Seq<Seq<char>>,
)
    decreases fuel,
{
    if fuel == 0 {
        (m, seq![])
    } else {
        match pending(m) {
            MirrorStep::Probe(_) => drive(next(m, answer(m, saved, served)), saved, served, (fuel - 1) as nat),
            MirrorStep::Fetch(u, _) => {
                let r = drive(next(m, answer(m, saved, served)), saved, served, (fuel - 1) as nat);
                (r.0, seq![u] + r.1)
            },
            _ => (m, seq![]),
        }
    }
}

/// Steps enough for a download over `templates` to end: two per template.
pub open spec fn steps_for(templates: Seq<Seq<char>>) -> nat {
    2 * templates.len() + 1
}

/// The file name that the current template gives.
pub open spec fn current_file(m: MirrorModel) -> Seq<char> {
    match location_spec(m.templates[m.cursor], m.identifier) {
        Ok((_, f)) => f,
        Err(_) => seq![],
    }
}

/// Mirror priority: when the first template misses and the second serves the
/// artifact, the first is probed and fetched, then the second, and the
/// download ends as downloaded; every later event leaves it there, so no
/// later template is ever asked for.
pub proof fn lemma_mirror_priority(
    identifier: Seq<char>,
    templates: Seq<Seq<char>>,
    u0: Seq<char>,
    f0: Seq<char>,
    u1: Seq<char>,
    f1: Seq<char>,
)
    requires
        templates.len() >= 2,
        location_spec(templates[0], identifier) == Ok::<_, TemplateError>((u0, f0)),
        location_spec(templates[1], identifier) == Ok::<_, TemplateError>((u1, f1)),
    ensures
        ({
            let s0 = initial(identifier, templates);
            let s1 = next(s0, MirrorEvent::Absent);
            let s2 = next(s1, MirrorEvent::Missed);
            let s3 = next(s2, MirrorEvent::Absent);
            let s4 = next(s3, MirrorEvent::Fetched);
            &&& pending(s0) == MirrorStep::Probe(f0)
            &&& pending(s1) == MirrorStep::Fetch(u0, f0)
            &&& pending(s2) == MirrorStep::Probe(f1)
            &&& pending(s3) == MirrorStep::Fetch(u1, f1)
            &&& pending(s4) == MirrorStep::Finish(DownloadOutcome::Downloaded)
            &&& forall|e: MirrorEvent| #[trigger] next(s4, e) == s4
        }),
{
}

proof fn lemma_rerun(
    m: MirrorModel,
    saved: Set<Seq<char>>,
    served: Set<Seq<char>>,
    fuel: nat,
)
    requires
        model_wf(m),
        m.phase is Probing,
        drive(m, saved, served, fuel).0.phase == Phase::Finished(DownloadOutcome::Downloaded),
    ensures
        ({
            let (m1, r1) = drive(m, saved, served, fuel);
            let (m2, r2) = drive(m, saved.insert(current_file(m1)), served, fuel);
            &&& m2.phase == Phase::Finished(DownloadOutcome::AlreadyPresent)
            &&& r2.len() < r1.len()
            &&& r2 == r1.take(r2.len() as int)
        }),
    decreases fuel,
{
    let (m1, r1) = drive(m, saved, served, fuel);
    let f = current_file(m1);
    let saved2 = saved.insert(f);
    let (u, fk) = location_spec(m.templates[m.cursor], m.identifier)->Ok_0;
    assert(fuel > 0);
    assert(pending(m) == MirrorStep::Probe(fk));
    if saved.contains(fk) {
        let p = next(m, MirrorEvent::Present);
        assert(drive(p, saved, served, (fuel - 1) as nat) == (p, Seq::<Seq<char>>::empty()));
    }
    let a = next(m, MirrorEvent::Absent);
    assert(drive(m, saved, served, fuel) == drive(a, saved, served, (fuel - 1) as nat));
    if fuel - 1 == 0 {
        assert(drive(a, saved, served, 0) == (a, Seq::<Seq<char>>::empty()));
    }
    assert(pending(a) == MirrorStep::Fetch(u, fk));
    if served.contains(u) {
        let d = next(a, MirrorEvent::Fetched);
        assert(drive(d, saved, served, (fuel - 2) as nat) == (d, Seq::<Seq<char>>::empty()));
        assert(f == fk);
        assert(saved2.contains(fk));
        let p = next(m, MirrorEvent::Present);
        assert(drive(p, saved2, served, (fuel - 1) as nat) == (p, Seq::<Seq<char>>::empty()));
        assert(drive(m, saved2, served, fuel) == (p, Seq::<Seq<char>>::empty()));
        assert(drive(a, saved, served, (fuel - 1) as nat) == (d, seq![u]));
    } else {
        let b = next(a, MirrorEvent::Missed);
        let rest = drive(b, saved, served, (fuel - 2) as nat);
        assert(r1 == seq![u] + rest.1);
        if b.phase is Probing {
            if fk == f {
                let p = next(m, MirrorEvent::Present);
                assert(drive(p, saved2, served, (fuel - 1) as nat) == (p, Seq::<Seq<char>>::empty()));
                assert(drive(m, saved2, served, fuel) == (p, Seq::<Seq<char>>::empty()));
            } else {
                lemma_rerun(b, saved, served, (fuel - 2) as nat);
                let rest2 = drive(b, saved2, served, (fuel - 2) as nat);
                assert(!saved2.contains(fk));
                assert(answer(m, saved2, served) == MirrorEvent::Absent);
                assert(drive(m, saved2, served, fuel) == drive(a, saved2, served, (fuel - 1) as nat));
                assert(answer(a, saved2, served) == MirrorEvent::Missed);
                assert(drive(a, saved2, served, (fuel - 1) as nat) == (rest2.0, seq![u] + rest2.1));
                let (m2, r2) = drive(m, saved2, served, fuel);
                assert(r2 == seq![u] + rest2.1);
                assert(r2 =~= r1.take(r2.len() as int));
            }
        } else {
            assert(drive(b, saved, served, (fuel - 2) as nat) == (b, Seq::<Seq<char>>::empty()));
        }
    }
}

/// Idempotence: once a download has saved the artifact, downloading the same
/// identifier over the same templates again ends as already present, and what
/// it fetches on the way is a strict prefix of what the first download fetched
/// (nothing at all where the first template served it).
pub proof fn lemma_download_idempotent(
    identifier: Seq<char>,
    templates: Seq<Seq<char>>,
    saved: Set<Seq<char>>,
    served: Set<Seq<char>>,
)
    requires
        drive(initial(identifier, templates), saved, served, steps_for(templates)).0.phase
            == Phase::Finished(DownloadOutcome::Downloaded),
    ensures
        ({
            let m0 = initial(identifier, templates);
            let (m1, r1) = drive(m0, saved, served, steps_for(templates));
            let (m2, r2) = drive(m0, saved.insert(current_file(m1)), served, steps_for(templates));
            &&& m2.phase == Phase::Finished(DownloadOutcome::AlreadyPresent)
            &&& r2.len() < r1.len()
            &&& r2 == r1.take(r2.len() as int)
        }),
{
    let m0 = initial(identifier, templates);
    if !(m0.phase is Probing) {
        assert(drive(m0, saved, served, steps_for(templates)) == (m0, Seq::<Seq<char>>::empty()));
    } else {
        lemma_rerun(m0, saved, served, steps_for(templates));
    }
}

/// The download of one identifier over an ordered list of templates.
pub struct MirrorDownload {
    identifier: String,
    templates: Vec<String>,
    cursor: usize,
    phase: Phase,
}

impl MirrorDownload {
    pub closed spec fn view(&self) -> MirrorModel {
        MirrorModel {
            identifier: self.identifier@,
            templates: self.templates.deep_view(),
            cursor: self.cursor as int,
            phase: self.phase,
        }
    }

    #[verifier::type_invariant]
    spec fn inv(&self) -> bool {
        model_wf(self.view())
    }

    fn arrive_at(&mut self, cursor: usize)
        requires
            cursor <= old(self).templates@.len(),
        ensures
            final(self).view() == arrive(old(self).view(), cursor as int),
            model_wf(final(self).view()),
    {
        let phase = if cursor >= self.templates.len() {
            Phase::Finished(DownloadOutcome::NotFound)
        } else {
            proof {
                assert(self.templates.deep_view()[cursor as int] == self.templates@[cursor as int]@);
            }
            match mirror_location(self.templates[cursor].as_str(), self.identifier.as_str()) {
                Err(e) => Phase::Failed(e),
                Ok(_) => Phase::Probing,
            }
        };
        self.phase = Phase::Finished(DownloadOutcome::NotFound);
        self.cursor = cursor;
        self.phase = phase;
    }

    /// Starts a download of `identifier`, at the first template.
    pub fn new(identifier: String, templates: Vec<String>) -> (r: MirrorDownload)
        ensures
            r@ == initial(identifier@, templates.deep_view()),
    {
        let mut d = MirrorDownload { identifier, templates, cursor: 0, phase: Phase::Finished(DownloadOutcome::NotFound) };
        d.arrive_at(0);
        d
    }

    /// The action that the download waits on.
    pub fn pending(&self) -> (r: MirrorAction)
        ensures
            r@ == pending(self@),
    {
        proof {
            use_type_invariant(self);
        }
        match self.phase {
            Phase::Finished(o) => MirrorAction::Finish(o),
            Phase::Failed(e) => MirrorAction::Fail(e),
            _ => {
                proof {
                    assert(self.templates.deep_view()[self.cursor as int] == self.templates@[self.cursor as int]@);
                }
                match mirror_location(self.templates[self.cursor].as_str(), self.identifier.as_str()) {
                    Err(e) => MirrorAction::Fail(e),
                    Ok((url, file_name)) => {
                        if matches!(self.phase, Phase::Probing) {
                            MirrorAction::Probe { file_name }
                        } else {
                            MirrorAction::Fetch { url, file_name }
                        }
                    },
                }
            },
        }
    }

    /// Takes in the answer to the pending action.
    pub fn step(&mut self, e: MirrorEvent)
        ensures
            final(self)@ == next(old(self)@, e),
    {
        proof {
            use_type_invariant(&*self);
        }
        match self.phase {
            Phase::Probing => match e {
                MirrorEvent::Present => {
                    self.phase = Phase::Finished(DownloadOutcome::AlreadyPresent);
                },
                MirrorEvent::Absent => {
                    self.phase = Phase::Fetching;
                },
                _ => {},
            },
            Phase::Fetching => match e {
                MirrorEvent::Fetched => {
                    self.phase = Phase::Finished(DownloadOutcome::Downloaded);
                },
                MirrorEvent::Missed => {
                    let n = self.templates.len();
                    assert(self.templates.deep_view().len() == n);
                    let c = self.cursor + 1;
                    self.arrive_at(c);
                },
                _ => {},
            },
            _ => {},
        }
    }

    /// Whether the download has ended.
    pub fn is_done(&self) -> (r: bool)
        ensures
            r == !(self@.phase is Probing || self@.phase is Fetching),
    {
        match self.phase {
            Phase::Probing | Phase::Fetching => false,
            _ => true,
        }
    }
}

} // verus!
