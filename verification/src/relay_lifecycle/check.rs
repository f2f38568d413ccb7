//! Looking for newer images.
use crate::error::{ErrorView, RustmoteError};
use crate::relay_lifecycle::compose::{latest, pick_latest_semver};
use crate::relay_lifecycle::load::{
    load_begin, load_step, load_wait, LoadPhase, LoadStep, LoadView, StateLoad,
};
use crate::relay_lifecycle::state::{ImagePin, PinView, RelayState};
use crate::relay_lifecycle::step::{
    awaits, fits, wait_for, Action, ActionView, Reply, ReplyView, Step, Wait,
};
use crate::text::{lemma_views_push, text_eq, views};
use vstd::prelude::*;

verus! {

/// The image that a service runs, and the latest that there is.
#[derive(Debug, PartialEq, Eq)]
pub struct ImageUpdate<T = String> {
    pub service: T,
    pub repo: T,
    pub current_tag: T,
    pub current_digest: T,
    pub latest_tag: T,
    pub latest_digest: T,
}

/// The view of a [`ImageUpdate`].
pub type ImageUpdateView = ImageUpdate<Seq<char>>;

impl View for ImageUpdate {
    type V = ImageUpdate<Seq<char>>;

    open spec fn view(&self) -> ImageUpdate<Seq<char>> {
        ImageUpdate {
            service: self.service@,
            repo: self.repo@,
            current_tag: self.current_tag@,
            current_digest: self.current_digest@,
            latest_tag: self.latest_tag@,
            latest_digest: self.latest_digest@,
        }
    }
}

impl Clone for ImageUpdate {
    fn clone(&self) -> (r: ImageUpdate)
        ensures
            r == *self,
    {
        ImageUpdate {
            service: self.service.clone(),
            repo: self.repo.clone(),
            current_tag: self.current_tag.clone(),
            current_digest: self.current_digest.clone(),
            latest_tag: self.latest_tag.clone(),
            latest_digest: self.latest_digest.clone(),
        }
    }
}

/// Whether the latest image is another than the one that runs.
pub open spec fn is_newer(u: ImageUpdateView) -> bool {
    u.current_digest != u.latest_digest
}

impl ImageUpdate {
    /// Whether the latest image is another than the one that runs.
    pub fn update_available(&self) -> (r: bool)
        ensures
            r == is_newer(self@),
    {
        !text_eq(self.current_digest.as_str(), self.latest_digest.as_str())
    }
}

/// The images of a relay and the latest that there are.
#[derive(Debug, PartialEq, Eq)]
pub struct CheckUpdatesReport<T = String, L = Vec<ImageUpdate>> {
    pub install_path: T,
    pub images: L,
}

/// The view of a [`CheckUpdatesReport`].
pub type CheckReportView = CheckUpdatesReport<Seq<char>, Seq<ImageUpdateView>>;

impl View for CheckUpdatesReport {
    type V = CheckReportView;

    open spec fn view(&self) -> CheckReportView {
        CheckUpdatesReport { install_path: self.install_path@, images: views(self.images@) }
    }
}

/// Whether any image has a newer one.
pub open spec fn any_newer(images: Seq<ImageUpdateView>) -> bool {
    exists|i: int| 0 <= i < images.len() && is_newer(#[trigger] images[i])
}

impl CheckUpdatesReport {
    /// Whether any image has a newer one.
    pub fn any_update_available(&self) -> (r: bool)
        ensures
            r == any_newer(self@.images),
    {
        let mut i: usize = 0;
        while i < self.images.len()
            invariant
                i <= self.images@.len(),
                forall|j: int| 0 <= j < i ==> !is_newer(#[trigger] self@.images[j]),
            decreases self.images@.len() - i,
        {
            assert(self@.images[i as int] == self.images@[i as int]@);
            if self.images[i].update_available() {
                return true;
            }
            i += 1;
        }
        false
    }
}

/// What the check waits for.
#[derive(Debug, Clone, Copy, PartialEq, Eq, Structural)]
pub enum CheckPhase {
    /// The relay's record.
    Load,
    /// The tags of the next image.
    Tags,
    /// The digest of its latest tag.
    Digest,
    /// Nothing more.
    Over,
}

/// Looks for newer images, one service after the other.
#[derive(Debug, PartialEq, Eq)]
pub struct UpdateCheck<
    T = String,
    D = StateLoad,
    P = Vec<ImagePin>,
    L = Vec<ImageUpdate>,
> {
    pub load: D,
    pub phase: CheckPhase,
    /// The pins of the record, once it is read.
    pub pins: P,
    /// The latest tag of the image in hand.
    pub latest_tag: T,
    /// The images looked up.
    pub images: L,
}

/// The view of a [`UpdateCheck`].
pub type CheckView = UpdateCheck<Seq<char>, LoadView, Seq<PinView>, Seq<ImageUpdateView>>;

/// A step of a check.
pub type CheckStep = Step<ActionView, CheckReportView, ErrorView>;

impl View for UpdateCheck {
    type V = CheckView;

    open spec fn view(&self) -> CheckView {
        UpdateCheck {
            load: self.load@,
            phase: self.phase,
            pins: views(self.pins@),
            latest_tag: self.latest_tag@,
            images: views(self.images@),
        }
    }
}

/// What the check waits for.
pub open spec fn check_wait(m: CheckView) -> Wait {
    match m.phase {
        CheckPhase::Load => load_wait(m.load),
        CheckPhase::Tags => Wait::Tags,
        CheckPhase::Digest => Wait::Digest,
        CheckPhase::Over => Wait::Nothing,
    }
}

/// Whether there is an image in hand where one is needed.
pub open spec fn check_ok(m: CheckView) -> bool {
    match m.phase {
        CheckPhase::Tags | CheckPhase::Digest => m.images.len() < m.pins.len(),
        _ => true,
    }
}

/// Takes the next image in hand, or reports where there is none left.
pub open spec fn check_next(m: CheckView) -> (CheckView, CheckStep) {
    if m.images.len() < m.pins.len() {
        (
            UpdateCheck { phase: CheckPhase::Tags, ..m },
            Step::Next(Action::ListTags(m.pins[m.images.len() as int].repo)),
        )
    } else {
        (
            UpdateCheck { phase: CheckPhase::Over, ..m },
            Step::Done(
                CheckUpdatesReport { install_path: m.load.install_path, images: m.images },
            ),
        )
    }
}

/// Goes on from a step of the reading of the record.
pub open spec fn check_loaded(m: CheckView, load: (LoadView, LoadStep)) -> (CheckView, CheckStep) {
    let now = UpdateCheck { load: load.0, ..m };
    match load.1 {
        Step::Next(action) => (UpdateCheck { phase: CheckPhase::Load, ..now }, Step::Next(action)),
        Step::Failed(e) => (UpdateCheck { phase: CheckPhase::Over, ..now }, Step::Failed(e)),
        Step::Done(state) => check_next(UpdateCheck { pins: state.images, ..now }),
    }
}

/// The first step of the check.
pub open spec fn check_begin(install_path: Seq<char>) -> (CheckView, CheckStep) {
    check_loaded(
        UpdateCheck {
            load: StateLoad { install_path, phase: LoadPhase::Over },
            phase: CheckPhase::Over,
            pins: seq![],
            latest_tag: seq![],
            images: seq![],
        },
        load_begin(install_path),
    )
}

/// One step of the check. The latest tag is that of the highest version; where no tag names a
/// version, the tag stays, and only its digest may be another.
pub open spec fn check_step(m: CheckView, reply: ReplyView) -> (CheckView, CheckStep) {
    let pin = m.pins[m.images.len() as int];
    if m.phase == CheckPhase::Load {
        check_loaded(m, load_step(m.load, reply))
    } else {
        match reply {
            Reply::Failed(e) => (UpdateCheck { phase: CheckPhase::Over, ..m }, Step::Failed(e)),
            Reply::Tags(tags) => {
                let tag = match latest(tags) {
                    Some(t) => t,
                    None => pin.tag,
                };
                (
                    UpdateCheck { phase: CheckPhase::Digest, latest_tag: tag, ..m },
                    Step::Next(Action::ResolveDigest { repo: pin.repo, tag }),
                )
            },
            Reply::Digest(digest) => check_next(
                UpdateCheck {
                    images: m.images.push(
                        ImageUpdate {
                            service: pin.service,
                            repo: pin.repo,
                            current_tag: pin.tag,
                            current_digest: pin.digest,
                            latest_tag: m.latest_tag,
                            latest_digest: digest,
                        },
                    ),
                    ..m
                },
            ),
            _ => arbitrary(),
        }
    }
}

impl UpdateCheck {
    fn next(&mut self) -> (r: Step<Action, CheckUpdatesReport, RustmoteError>)
        ensures
            (final(self)@, r@) == check_next(old(self)@),
            check_ok(final(self)@),
            awaits(r@, check_wait(final(self)@)),
    {
        if self.images.len() < self.pins.len() {
            self.phase = CheckPhase::Tags;
            Step::Next(Action::ListTags(self.pins[self.images.len()].repo.clone()))
        } else {
            self.phase = CheckPhase::Over;
            let images = self.images.clone();
            assert(images@ =~= self.images@);
            Step::Done(
                CheckUpdatesReport { install_path: self.load.install_path.clone(), images },
            )
        }
    }

    fn loaded(
        &mut self,
        step: Step<Action, RelayState, RustmoteError>,
    ) -> (r: Step<Action, CheckUpdatesReport, RustmoteError>)
        requires
            match step@ {
                Step::Next(action) => load_wait(old(self)@.load) == wait_for(action),
                _ => true,
            },
        ensures
            (final(self)@, r@) == check_loaded(old(self)@, (old(self)@.load, step@)),
            check_ok(final(self)@),
            awaits(r@, check_wait(final(self)@)),
    {
        match step {
            Step::Next(action) => {
                self.phase = CheckPhase::Load;
                Step::Next(action)
            },
            Step::Failed(e) => {
                self.phase = CheckPhase::Over;
                Step::Failed(e)
            },
            Step::Done(state) => {
                self.pins = state.images;
                self.next()
            },
        }
    }

    /// Begins to look for newer images of the relay at an install path.
    pub fn begin(install_path: &str) -> (r: (
        UpdateCheck,
        Step<Action, CheckUpdatesReport, RustmoteError>,
    ))
        ensures
            (r.0@, r.1@) == check_begin(install_path@),
            check_ok(r.0@),
            awaits(r.1@, check_wait(r.0@)),
    {
        let (load, step) = StateLoad::begin(install_path);
        let mut m = UpdateCheck {
            load,
            phase: CheckPhase::Over,
            pins: Vec::new(),
            latest_tag: String::new(),
            images: Vec::new(),
        };
        assert(m@.pins =~= Seq::empty());
        assert(m@.images =~= Seq::empty());
        let step = m.loaded(step);
        (m, step)
    }

    /// Takes a reply in.
    pub fn step(&mut self, reply: Reply) -> (r: Step<Action, CheckUpdatesReport, RustmoteError>)
        requires
            check_ok(old(self)@),
            fits(check_wait(old(self)@), reply@),
        ensures
            (final(self)@, r@) == check_step(old(self)@, reply@),
            check_ok(final(self)@),
            awaits(r@, check_wait(final(self)@)),
    {
        if matches!(self.phase, CheckPhase::Load) {
            let step = self.load.step(reply);
            return self.loaded(step);
        }
        match reply {
            Reply::Failed(e) => {
                self.phase = CheckPhase::Over;
                Step::Failed(e)
            },
            Reply::Tags(tags) => {
                let pin = &self.pins[self.images.len()];
                let tag = match pick_latest_semver(&tags) {
                    Some(t) => t,
                    None => pin.tag.clone(),
                };
                let repo = pin.repo.clone();
                self.latest_tag = tag.clone();
                self.phase = CheckPhase::Digest;
                Step::Next(Action::ResolveDigest { repo, tag })
            },
            Reply::Digest(digest) => {
                let pin = self.pins[self.images.len()].clone();
                let update = ImageUpdate {
                    service: pin.service,
                    repo: pin.repo,
                    current_tag: pin.tag,
                    current_digest: pin.digest,
                    latest_tag: self.latest_tag.clone(),
                    latest_digest: digest,
                };
                proof {
                    lemma_views_push(self.images@, update);
                }
                self.images.push(update);
                self.next()
            },
            _ => {
                // No other reply fits.
                assert(false);
                Step::Failed(RustmoteError::RelayUpdateNotConfirmed)
            },
        }
    }
}

/// An image has an update exactly where the latest digest is another than that of the one that
/// runs, whatever the tags are.
pub proof fn updates_are_told_by_their_digest(image: &ImageUpdate, r: bool)
    requires
        call_ensures(ImageUpdate::update_available, (image,), r),
    ensures
        r <==> image.current_digest@ != image.latest_digest@,
{
}

/// A relay has an update exactly where one of its images has.
pub proof fn one_newer_image_is_an_update(report: &CheckUpdatesReport, r: bool)
    requires
        call_ensures(CheckUpdatesReport::any_update_available, (report,), r),
    ensures
        r <==> exists|i: int|
            0 <= i < report.images@.len() && (#[trigger] report.images@[i]).current_digest@
                != report.images@[i].latest_digest@,
{
    let all = report@.images;
    assert forall|i: int| 0 <= i < all.len() implies all[i] == (#[trigger] report.images@[i])@ by {}
    if r {
        let i = choose|i: int| 0 <= i < all.len() && is_newer(#[trigger] all[i]);
        assert(report.images@[i].current_digest@ != report.images@[i].latest_digest@);
    }
    if exists|i: int|
        0 <= i < report.images@.len() && (#[trigger] report.images@[i]).current_digest@
            != report.images@[i].latest_digest@ {
        let i = choose|i: int|
            0 <= i < report.images@.len() && (#[trigger] report.images@[i]).current_digest@
                != report.images@[i].latest_digest@;
        assert(is_newer(all[i]));
    }
}

} // verus!
