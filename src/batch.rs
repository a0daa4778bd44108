//! The batch merge: one video for each (audio, subtitle) pair, over one
//! shared background image.
//!
//! A [`Merger`] makes the decisions and the caller does the work. Each call
//! of [`Merger::step`] takes what happened last and returns what to do next:
//! stage a subtitle into the working directory, run the transcoder, release
//! the staged copy, or finish. Pairs are processed one after another; the
//! cancellation flag is read only between pairs; the first failure ends the
//! batch, after the staged copy is released.
use vstd::prelude::*;

use crate::command::{views, CONTAINER_EXTENSION};
use crate::paths::{extension_of, has_extension, with_extension, with_extension_of};
use crate::text::push_char;

verus! {

/// The files chosen for a batch. Audio and subtitle files pair by position;
/// the unpaired tail of the longer list is ignored.
#[derive(Debug, Clone)]
pub struct Files {
    pub audio: Vec<String>,
    pub image: Option<String>,
    pub subtitle: Vec<String>,
}

impl Default for Files {
    /// Nothing chosen yet.
    fn default() -> (r: Files)
        ensures
            r.audio@.len() == 0,
            r.image is None,
            r.subtitle@.len() == 0,
    {
        Files { audio: Vec::new(), image: None, subtitle: Vec::new() }
    }
}

/// What a display shows of a running batch.
#[derive(Debug, Clone, Copy, PartialEq, Eq, Structural)]
pub struct Progress {
    pub active: bool,
    /// The pair being processed, counted from one.
    pub completed: usize,
    pub total: usize,
}

/// One video to make.
pub struct MergeJob {
    pub audio: String,
    pub image: String,
    pub subtitle: String,
    pub output: String,
}

/// What the caller is to do next.
pub enum Action {
    /// Copy `source` to `dest` in the working directory, unless a file is
    /// already there; then report the outcome.
    Stage { source: String, dest: String },
    /// Run the transcoder passes of the job and wait for them; then report
    /// whether all of them exited with success.
    Invoke(MergeJob),
    /// Remove `staged` and the scratch output, ignoring failures; then ask
    /// for the next step.
    Release { staged: String },
    /// The batch is over.
    Finish,
}

/// What happened since the last action.
#[derive(Debug, Clone, Copy, PartialEq, Eq, Structural)]
pub enum Event {
    /// Ready for the next pair; `cancelled` is the user's cancellation flag.
    Next { cancelled: bool },
    /// The outcome of the last staging or transcoder run.
    Outcome { ok: bool },
}

pub enum ActionView {
    Stage { source: Seq<char>, dest: Seq<char> },
    Invoke { audio: Seq<char>, image: Seq<char>, subtitle: Seq<char>, output: Seq<char> },
    Release { staged: Seq<char> },
    Finish,
}

impl Action {
    pub open spec fn view(&self) -> ActionView {
        match self {
            Action::Stage { source, dest } => ActionView::Stage { source: source@, dest: dest@ },
            Action::Invoke(job) => ActionView::Invoke {
                audio: job.audio@,
                image: job.image@,
                subtitle: job.subtitle@,
                output: job.output@,
            },
            Action::Release { staged } => ActionView::Release { staged: staged@ },
            Action::Finish => ActionView::Finish,
        }
    }
}

pub enum PhaseView {
    /// Between pairs.
    Ready,
    /// Waiting for the copy of the subtitle to this name.
    Staging(Seq<char>),
    /// Waiting for the transcoder, with the subtitle staged under this name.
    Running(Seq<char>),
    /// A step failed; its staged copy is being released.
    Aborting,
    Done,
}

pub struct MergerView {
    pub image: Seq<char>,
    pub audio: Seq<Seq<char>>,
    pub subtitle: Seq<Seq<char>>,
    /// Pairs finished so far.
    pub index: nat,
    pub progress: Progress,
    pub phase: PhaseView,
}

pub open spec fn idle() -> Progress {
    Progress { active: false, completed: 0, total: 0 }
}

pub open spec fn running_progress(completed: nat, total: nat) -> Progress {
    Progress { active: true, completed: completed as usize, total: total as usize }
}

impl MergerView {
    pub open spec fn wf(self) -> bool {
        &&& self.audio.len() == self.subtitle.len()
        &&& self.audio.len() <= usize::MAX
        &&& match self.phase {
            PhaseView::Ready => self.index <= self.audio.len() && self.progress == running_progress(
                self.index,
                self.audio.len(),
            ),
            PhaseView::Staging(_) | PhaseView::Running(_) => self.index < self.audio.len()
                && self.progress == running_progress(self.index + 1, self.audio.len()),
            _ => self.progress == idle(),
        }
    }

    pub open spec fn with_phase(self, phase: PhaseView, progress: Progress) -> MergerView {
        MergerView { phase, progress, ..self }
    }
}

/// The name under which a subtitle is staged: the token with the
/// subtitle's extension.
pub open spec fn staged_name_of(token: Seq<char>, subtitle: Seq<char>) -> Seq<char> {
    token + seq!['.'] + extension_of(subtitle)
}

/// The video made from `audio`: the audio path with the container extension.
pub open spec fn output_of(audio: Seq<char>) -> Seq<char> {
    with_extension_of(audio, CONTAINER_EXTENSION@)
}

/// The batch over `files`, before its first step.
pub open spec fn initial(image: Seq<char>, audio: Seq<Seq<char>>, subtitle: Seq<Seq<char>>) -> MergerView {
    let n = if audio.len() <= subtitle.len() {
        audio.len()
    } else {
        subtitle.len()
    };
    MergerView {
        image,
        audio: audio.take(n as int),
        subtitle: subtitle.take(n as int),
        index: 0,
        progress: running_progress(0, n),
        phase: PhaseView::Ready,
    }
}

/// One step of the batch: the state after event `e`, and the action to
/// take. `token` is the fresh name that a staging would use.
pub open spec fn next(s: MergerView, e: Event, token: Seq<char>) -> (MergerView, ActionView) {
    match s.phase {
        PhaseView::Ready => match e {
            Event::Next { cancelled } => {
                if cancelled || s.index >= s.audio.len() || !has_extension(s.subtitle[s.index as int]) {
                    (s.with_phase(PhaseView::Done, idle()), ActionView::Finish)
                } else {
                    let dest = staged_name_of(token, s.subtitle[s.index as int]);
                    (
                        s.with_phase(
                            PhaseView::Staging(dest),
                            running_progress(s.index + 1, s.audio.len()),
                        ),
                        ActionView::Stage { source: s.subtitle[s.index as int], dest },
                    )
                }
            },
            Event::Outcome { .. } => (s.with_phase(PhaseView::Done, idle()), ActionView::Finish),
        },
        PhaseView::Staging(dest) => {
            if e == (Event::Outcome { ok: true }) {
                (
                    s.with_phase(PhaseView::Running(dest), s.progress),
                    ActionView::Invoke {
                        audio: s.audio[s.index as int],
                        image: s.image,
                        subtitle: dest,
                        output: output_of(s.audio[s.index as int]),
                    },
                )
            } else {
                (s.with_phase(PhaseView::Aborting, idle()), ActionView::Release { staged: dest })
            }
        },
        PhaseView::Running(dest) => {
            if e == (Event::Outcome { ok: true }) {
                (
                    MergerView {
                        index: s.index + 1,
                        phase: PhaseView::Ready,
                        progress: running_progress(s.index + 1, s.audio.len()),
                        ..s
                    },
                    ActionView::Release { staged: dest },
                )
            } else {
                (s.with_phase(PhaseView::Aborting, idle()), ActionView::Release { staged: dest })
            }
        },
        PhaseView::Aborting => (s.with_phase(PhaseView::Done, idle()), ActionView::Finish),
        PhaseView::Done => (s, ActionView::Finish),
    }
}

pub open spec fn token_char(c: char) -> bool {
    ('0' <= c && c <= '9') || ('a' <= c && c <= 'f') || c == '-'
}

/// A random identifier: 36 lower-case hexadecimal digits and hyphens.
pub open spec fn is_token(t: Seq<char>) -> bool {
    t.len() == 36 && forall|i: int| 0 <= i < 36 ==> token_char(#[trigger] t[i])
}

/// Relies on `uuid::Uuid::new_v4` and the `Display` of `uuid::Uuid`: a random
/// UUID, written hyphenated in lower case.
#[verifier::external_body]
fn new_token() -> (r: String)
    ensures
        is_token(r@),
{
    uuid::Uuid::new_v4().to_string()
}

/// The name under which `subtitle` is staged with `token`; none where the
/// subtitle has no extension.
pub fn staged_name(token: &str, subtitle: &str) -> (r: Option<String>)
    ensures
        r is Some <==> has_extension(subtitle@),
        r matches Some(n) ==> n@ == staged_name_of(token@, subtitle@),
{
    match crate::paths::extension(subtitle) {
        None => None,
        Some(ext) => {
            let mut name = String::from_str(token);
            push_char(&mut name, '.');
            name.append(ext.as_str());
            Some(name)
        },
    }
}

/// The video made from `audio`.
pub fn output_path(audio: &str) -> (r: String)
    ensures
        r@ == output_of(audio@),
{
    with_extension(audio, CONTAINER_EXTENSION)
}

enum Phase {
    Ready,
    Staging { staged: String },
    Running { staged: String },
    Aborting,
    Done,
}

/// The state of one batch.
pub struct Merger {
    image: String,
    audio: Vec<String>,
    subtitle: Vec<String>,
    index: usize,
    progress: Progress,
    phase: Phase,
}

impl View for Merger {
    type V = MergerView;

    closed spec fn view(&self) -> MergerView {
        MergerView {
            image: self.image@,
            audio: views(self.audio@),
            subtitle: views(self.subtitle@),
            index: self.index as nat,
            progress: self.progress,
            phase: match self.phase {
                Phase::Ready => PhaseView::Ready,
                Phase::Staging { staged } => PhaseView::Staging(staged@),
                Phase::Running { staged } => PhaseView::Running(staged@),
                Phase::Aborting => PhaseView::Aborting,
                Phase::Done => PhaseView::Done,
            },
        }
    }
}

fn copy_prefix(v: &Vec<String>, n: usize) -> (r: Vec<String>)
    requires
        n <= v@.len(),
    ensures
        r@.len() == n,
        views(r@) == views(v@).take(n as int),
{
    let mut r: Vec<String> = Vec::new();
    for i in 0..n
        invariant
            n <= v@.len(),
            r@.len() == i,
            views(r@) == views(v@).take(i as int),
    {
        r.push(v[i].clone());
        assert(r@[i as int]@ == v@[i as int]@);
        assert(views(r@) =~= views(v@).take(i + 1));
    }
    r
}

impl Merger {
    pub closed spec fn wf(&self) -> bool {
        &&& self@.wf()
        &&& self.audio@.len() == self.subtitle@.len()
    }

    /// A batch over a snapshot of `files`; none without an image, since
    /// then there is nothing to make.
    pub fn start(files: &Files) -> (r: Option<Merger>)
        ensures
            r is None <==> files.image is None,
            r matches Some(m) ==> m.wf() && m@ == initial(
                files.image->0@,
                views(files.audio@),
                views(files.subtitle@),
            ),
    {
        match &files.image {
            None => None,
            Some(image) => {
                let n = if files.audio.len() <= files.subtitle.len() {
                    files.audio.len()
                } else {
                    files.subtitle.len()
                };
                let m = Merger {
                    image: image.clone(),
                    audio: copy_prefix(&files.audio, n),
                    subtitle: copy_prefix(&files.subtitle, n),
                    index: 0,
                    progress: Progress { active: true, completed: 0, total: n },
                    phase: Phase::Ready,
                };
                assert(m@ =~= initial(image@, views(files.audio@), views(files.subtitle@)));
                Some(m)
            },
        }
    }

    /// What a display shows of the batch.
    pub fn progress(&self) -> (r: Progress)
        ensures
            r == self@.progress,
    {
        self.progress
    }

    fn end(&mut self, phase: Phase)
        requires
            phase is Aborting || phase is Done,
            old(self).wf(),
        ensures
            final(self)@ == old(self)@.with_phase(
                if phase is Aborting {
                    PhaseView::Aborting
                } else {
                    PhaseView::Done
                },
                idle(),
            ),
            final(self).wf(),
    {
        self.progress = Progress { active: false, completed: 0, total: 0 };
        self.phase = phase;
    }

    /// The step after `event`, staging under `token` where a pair starts.
    /// An event that does not answer the last action ends the batch as a
    /// failure would.
    pub fn advance(&mut self, event: Event, token: &str) -> (a: Action)
        requires
            old(self).wf(),
        ensures
            final(self).wf(),
            (final(self)@, a@) == next(old(self)@, event, token@),
    {
        match &self.phase {
            Phase::Ready => match event {
                Event::Next { cancelled } => {
                    if cancelled || self.index >= self.audio.len() {
                        self.end(Phase::Done);
                        return Action::Finish;
                    }
                    let i = self.index;
                    match staged_name(token, self.subtitle[i].as_str()) {
                        None => {
                            self.end(Phase::Done);
                            Action::Finish
                        },
                        Some(dest) => {
                            self.progress = Progress {
                                active: true,
                                completed: i + 1,
                                total: self.audio.len(),
                            };
                            self.phase = Phase::Staging { staged: dest.clone() };
                            Action::Stage { source: self.subtitle[i].clone(), dest }
                        },
                    }
                },
                Event::Outcome { .. } => {
                    self.end(Phase::Done);
                    Action::Finish
                },
            },
            Phase::Staging { staged } => {
                let dest = staged.clone();
                match event {
                    Event::Outcome { ok: true } => {
                        let i = self.index;
                        let job = MergeJob {
                            audio: self.audio[i].clone(),
                            image: self.image.clone(),
                            subtitle: dest.clone(),
                            output: output_path(self.audio[i].as_str()),
                        };
                        self.phase = Phase::Running { staged: dest };
                        Action::Invoke(job)
                    },
                    _ => {
                        self.end(Phase::Aborting);
                        Action::Release { staged: dest }
                    },
                }
            },
            Phase::Running { staged } => {
                let dest = staged.clone();
                match event {
                    Event::Outcome { ok: true } => {
                        let i = self.index + 1;
                        self.index = i;
                        self.progress = Progress {
                            active: true,
                            completed: i,
                            total: self.audio.len(),
                        };
                        self.phase = Phase::Ready;
                        Action::Release { staged: dest }
                    },
                    _ => {
                        self.end(Phase::Aborting);
                        Action::Release { staged: dest }
                    },
                }
            },
            Phase::Aborting => {
                self.end(Phase::Done);
                Action::Finish
            },
            Phase::Done => Action::Finish,
        }
    }

    /// The step after `event`, staging under a fresh random name where a
    /// pair starts.
    pub fn step(&mut self, event: Event) -> (a: Action)
        requires
            old(self).wf(),
        ensures
            final(self).wf(),
            exists|t: Seq<char>| is_token(t) && (final(self)@, a@) == next(old(self)@, event, t),
    {
        let token = new_token();
        self.advance(event, token.as_str())
    }
}

} // verus!
