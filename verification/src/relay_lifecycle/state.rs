//! The record that a relay keeps of itself: when it was installed and which images it runs.
use crate::text::{text_eq, views};
use crate::time::Timestamp;
use vstd::prelude::*;

verus! {

/// The image that one service runs.
#[derive(Debug, PartialEq, Eq)]
pub struct ImagePin<T = String> {
    pub service: T,
    pub repo: T,
    pub tag: T,
    pub digest: T,
    pub pinned_at: Timestamp,
}

/// The view of a [`ImagePin`].
pub type PinView = ImagePin<Seq<char>>;

impl View for ImagePin {
    type V = ImagePin<Seq<char>>;

    open spec fn view(&self) -> ImagePin<Seq<char>> {
        ImagePin {
            service: self.service@,
            repo: self.repo@,
            tag: self.tag@,
            digest: self.digest@,
            pinned_at: self.pinned_at,
        }
    }
}

impl Clone for ImagePin {
    fn clone(&self) -> (r: ImagePin)
        ensures
            r == *self,
    {
        ImagePin {
            service: self.service.clone(),
            repo: self.repo.clone(),
            tag: self.tag.clone(),
            digest: self.digest.clone(),
            pinned_at: self.pinned_at,
        }
    }
}

/// How and when a relay was installed and last updated.
#[derive(Debug, PartialEq, Eq)]
pub struct InstallMetadata<T = String> {
    pub bootstrapped_at: Timestamp,
    pub bootstrapped_by_rustmote_version: T,
    /// `None` until the first update succeeds.
    pub last_updated_at: Option<Timestamp>,
}

impl View for InstallMetadata {
    type V = InstallMetadata<Seq<char>>;

    open spec fn view(&self) -> InstallMetadata<Seq<char>> {
        InstallMetadata {
            bootstrapped_at: self.bootstrapped_at,
            bootstrapped_by_rustmote_version: self.bootstrapped_by_rustmote_version@,
            last_updated_at: self.last_updated_at,
        }
    }
}

impl Clone for InstallMetadata {
    fn clone(&self) -> (r: InstallMetadata)
        ensures
            r == *self,
    {
        InstallMetadata {
            bootstrapped_at: self.bootstrapped_at,
            bootstrapped_by_rustmote_version: self.bootstrapped_by_rustmote_version.clone(),
            last_updated_at: self.last_updated_at,
        }
    }
}

/// What is installed on a relay.
#[derive(Debug, PartialEq, Eq)]
pub struct RelayState<M = InstallMetadata, L = Vec<ImagePin>> {
    pub install: M,
    pub images: L,
}

/// The view of a [`RelayState`].
pub type StateView = RelayState<InstallMetadata<Seq<char>>, Seq<PinView>>;

impl View for RelayState {
    type V = StateView;

    open spec fn view(&self) -> StateView {
        RelayState { install: self.install@, images: views(self.images@) }
    }
}

impl Clone for RelayState {
    fn clone(&self) -> (r: RelayState)
        ensures
            r@ == self@,
    {
        let images = self.images.clone();
        assert(images@ =~= self.images@);
        RelayState { install: self.install.clone(), images }
    }
}

/// The record of a relay that was just installed.
pub open spec fn fresh_state(at: Timestamp, version: Seq<char>, images: Seq<PinView>) -> StateView {
    RelayState {
        install: InstallMetadata {
            bootstrapped_at: at,
            bootstrapped_by_rustmote_version: version,
            last_updated_at: None,
        },
        images,
    }
}

/// The record after an update: other images, and the time of the update.
pub open spec fn updated_state(state: StateView, images: Seq<PinView>, at: Timestamp) -> StateView {
    RelayState {
        install: InstallMetadata { last_updated_at: Some(at), ..state.install },
        images,
    }
}

/// The first pin of a service.
pub open spec fn pin_of(images: Seq<PinView>, service: Seq<char>) -> Option<PinView>
    decreases images.len(),
{
    if images.len() == 0 {
        None
    } else if images[0].service == service {
        Some(images[0])
    } else {
        pin_of(images.skip(1), service)
    }
}

impl RelayState {
    /// The record of a relay that was just installed.
    pub fn new_bootstrap(at: Timestamp, rustmote_version: &str, images: Vec<ImagePin>) -> (r:
        RelayState)
        ensures
            r@ == fresh_state(at, rustmote_version@, views(images@)),
    {
        RelayState {
            install: InstallMetadata {
                bootstrapped_at: at,
                bootstrapped_by_rustmote_version: rustmote_version.to_owned(),
                last_updated_at: None,
            },
            images,
        }
    }

    /// Takes other images over, and notes when.
    pub fn apply_update(&mut self, new_images: Vec<ImagePin>, at: Timestamp)
        ensures
            final(self)@ == updated_state(old(self)@, views(new_images@), at),
    {
        self.images = new_images;
        self.install.last_updated_at = Some(at);
    }

    /// The pin of a service.
    pub fn pin_for(&self, service: &str) -> (r: Option<&ImagePin>)
        ensures
            match r {
                Some(pin) => pin_of(self@.images, service@) == Some(pin@),
                None => pin_of(self@.images, service@) is None,
            },
    {
        let mut i: usize = 0;
        assert(self@.images.skip(0) =~= self@.images);
        while i < self.images.len()
            invariant
                i <= self.images@.len(),
                pin_of(self@.images.skip(i as int), service@) == pin_of(self@.images, service@),
            decreases self.images@.len() - i,
        {
            assert(self@.images.skip(i as int)[0] == self.images@[i as int]@);
            assert(self@.images.skip(i as int).skip(1) =~= self@.images.skip(i + 1));
            if text_eq(self.images[i].service.as_str(), service) {
                return Some(&self.images[i]);
            }
            i += 1;
        }
        None
    }
}

/// The pin of a service is the first with that service, and there is none exactly where no pin is
/// for it.
pub proof fn pins_are_found_by_service(state: &RelayState, service: &str, r: Option<&ImagePin>)
    requires
        call_ensures(RelayState::pin_for, (state, service), r),
    ensures
        match r {
            Some(pin) => pin.service@ == service@ && exists|i: int|
                {
                    &&& 0 <= i < state@.images.len()
                    &&& #[trigger] state@.images[i] == pin@
                    &&& forall|j: int|
                        0 <= j < i ==> (#[trigger] state@.images[j]).service != service@
                },
            None => forall|j: int|
                0 <= j < state@.images.len() ==> (#[trigger] state@.images[j]).service != service@,
        },
{
    lemma_pin_of(state@.images, service@);
}

proof fn lemma_pin_of(images: Seq<PinView>, service: Seq<char>)
    ensures
        match pin_of(images, service) {
            Some(pin) => pin.service == service && exists|i: int|
                {
                    &&& 0 <= i < images.len()
                    &&& #[trigger] images[i] == pin
                    &&& forall|j: int| 0 <= j < i ==> (#[trigger] images[j]).service != service
                },
            None => forall|j: int|
                0 <= j < images.len() ==> (#[trigger] images[j]).service != service,
        },
    decreases images.len(),
{
    if images.len() > 0 && images[0].service != service {
        let rest = images.skip(1);
        lemma_pin_of(rest, service);
        assert forall|j: int| 0 <= j < rest.len() implies rest[j] == images[j + 1] by {}
        if let Some(pin) = pin_of(rest, service) {
            let i = choose|i: int|
                {
                    &&& 0 <= i < rest.len()
                    &&& #[trigger] rest[i] == pin
                    &&& forall|j: int| 0 <= j < i ==> (#[trigger] rest[j]).service != service
                };
            assert(images[i + 1] == pin);
            assert forall|j: int| 0 <= j < i + 1 implies (#[trigger] images[j]).service
                != service by {
                if j > 0 {
                    assert(rest[j - 1] == images[j]);
                }
            }
        } else {
            assert forall|j: int| 0 <= j < images.len() implies (#[trigger] images[j]).service
                != service by {
                if j > 0 {
                    assert(rest[j - 1] == images[j]);
                }
            }
        }
    }
}

/// An update of a record takes the new images and the time over, and leaves how and when the relay
/// was installed as it was.
pub proof fn updated_records_keep_their_installation(
    state: &mut RelayState,
    new_images: Vec<ImagePin>,
    at: Timestamp,
    r: (),
)
    requires
        call_ensures(RelayState::apply_update, (state, new_images, at), r),
    ensures
        final(state)@.images == views(new_images@),
        final(state)@.install.last_updated_at == Some(at),
        final(state)@.install.bootstrapped_at == old(state)@.install.bootstrapped_at,
        final(state)@.install.bootstrapped_by_rustmote_version == old(
            state,
        )@.install.bootstrapped_by_rustmote_version,
{
}

/// The record of a new relay has the given images, the given time and version, and no update.
pub proof fn first_records_have_no_update(
    at: Timestamp,
    rustmote_version: &str,
    images: Vec<ImagePin>,
    r: RelayState,
)
    requires
        call_ensures(RelayState::new_bootstrap, (at, rustmote_version, images), r),
    ensures
        r@.images == views(images@),
        r.install.bootstrapped_at == at,
        r.install.bootstrapped_by_rustmote_version@ == rustmote_version@,
        r.install.last_updated_at is None,
{
}

} // verus!
