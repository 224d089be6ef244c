//! The fan-out over discovered devices: how many may be worked on at once,
//! and what is tried against each.

use crate::address::{base_address, scheme_separator};
use crate::credentials::{ascending, fallback, logins_of, CredentialTable, Credentials};
use vstd::prelude::*;

verus! {

/// How many devices may be in flight at once, unless the caller says
/// otherwise.
pub const DEFAULT_CEILING: usize = 100;

/// What the fan-out reacts to.
#[derive(Clone, Copy, Debug, PartialEq, Eq, Structural)]
pub enum FanOutEvent {
    /// A discovered device asks to be worked on.
    Arrived,
    /// The work on a device has ended.
    Finished,
    /// The time for discovery is over.
    Closed,
}

/// Where a fan-out stands.
pub struct FanOutView {
    /// The most devices that may be in flight at once.
    pub ceiling: nat,
    /// The devices that are being worked on.
    pub in_flight: nat,
    /// Whether discovery still goes on.
    pub listening: bool,
}

/// What a fan-out waits for.
#[derive(Clone, Copy, Debug, PartialEq, Eq, Structural)]
pub enum Next {
    /// The next device: none is in flight.
    Device,
    /// The next device, or the end of the work on one in flight, whichever
    /// comes first.
    DeviceOrCompletion,
    /// The end of the work on a device in flight: no other can be taken on.
    Completion,
    /// Nothing: the run is over.
    Done,
}

/// A fan-out under `ceiling` before anything has happened.
pub open spec fn initial(ceiling: nat) -> FanOutView {
    FanOutView { ceiling, in_flight: 0, listening: true }
}

/// Whether a device that arrives is taken on: discovery goes on, and there
/// is room under the ceiling.
pub open spec fn takes_on(state: FanOutView) -> bool {
    state.listening && state.in_flight < state.ceiling
}

/// Where the fan-out stands after `event`. A device that arrives is taken
/// on if it may be, and waits otherwise; a device that is done leaves; and
/// once discovery is over it stays over.
pub open spec fn after(state: FanOutView, event: FanOutEvent) -> FanOutView {
    match event {
        FanOutEvent::Arrived => if takes_on(state) {
            FanOutView { in_flight: state.in_flight + 1, ..state }
        } else {
            state
        },
        FanOutEvent::Finished => if state.in_flight > 0 {
            FanOutView { in_flight: (state.in_flight - 1) as nat, ..state }
        } else {
            state
        },
        FanOutEvent::Closed => FanOutView { listening: false, ..state },
    }
}

/// Where a fan-out under `ceiling` stands after all of `events`.
pub open spec fn after_all(ceiling: nat, events: Seq<FanOutEvent>) -> FanOutView
    decreases events.len(),
{
    if events.len() == 0 {
        initial(ceiling)
    } else {
        after(after_all(ceiling, events.drop_last()), events.last())
    }
}

/// What a fan-out waits for where it stands.
pub open spec fn next_of(state: FanOutView) -> Next {
    if takes_on(state) {
        if state.in_flight == 0 {
            Next::Device
        } else {
            Next::DeviceOrCompletion
        }
    } else if state.in_flight > 0 {
        Next::Completion
    } else {
        Next::Done
    }
}

/// Whatever arrives and whenever, the devices in flight are never more than
/// the ceiling, and the ceiling stays what it was.
pub proof fn lemma_never_above_ceiling(ceiling: nat, events: Seq<FanOutEvent>)
    ensures
        after_all(ceiling, events).in_flight <= ceiling,
        after_all(ceiling, events).ceiling == ceiling,
    decreases events.len(),
{
    if events.len() > 0 {
        lemma_never_above_ceiling(ceiling, events.drop_last());
    }
}

/// Once discovery is over, no device is taken on: whatever happens then,
/// discovery stays over and the devices in flight do not become more.
pub proof fn lemma_nothing_taken_on_when_closed(state: FanOutView, event: FanOutEvent)
    requires
        !state.listening,
    ensures
        !after(state, event).listening,
        after(state, event).in_flight <= state.in_flight,
{
}

/// The run is over exactly when no device is in flight and none can be
/// taken on any more.
pub proof fn lemma_done_when_drained(state: FanOutView)
    ensures
        next_of(state) == Next::Done <==> state.in_flight == 0 && (!state.listening
            || state.ceiling == 0),
{
}

/// The count of the devices in flight, under a fixed ceiling.
#[derive(Debug)]
pub struct FanOut {
    ceiling: usize,
    in_flight: usize,
    listening: bool,
}

impl View for FanOut {
    type V = FanOutView;

    closed spec fn view(&self) -> FanOutView {
        FanOutView {
            ceiling: self.ceiling as nat,
            in_flight: self.in_flight as nat,
            listening: self.listening,
        }
    }
}

impl FanOut {
    #[verifier::type_invariant]
    spec fn within_ceiling(&self) -> bool {
        self.in_flight <= self.ceiling
    }

    /// A fan-out with no device in flight, while discovery goes on.
    pub fn new(ceiling: usize) -> (r: Self)
        ensures
            r@ == initial(ceiling as nat),
    {
        FanOut { ceiling, in_flight: 0, listening: true }
    }

    /// The most devices that may be in flight at once.
    pub fn ceiling(&self) -> (r: usize)
        ensures
            r == self@.ceiling,
    {
        self.ceiling
    }

    /// The devices in flight: never more than the ceiling.
    pub fn in_flight(&self) -> (r: usize)
        ensures
            r == self@.in_flight,
            r <= self@.ceiling,
    {
        proof {
            use_type_invariant(self);
        }
        self.in_flight
    }

    /// Whether discovery still goes on.
    pub fn is_listening(&self) -> (r: bool)
        ensures
            r == self@.listening,
    {
        self.listening
    }

    /// What to wait for now.
    pub fn next(&self) -> (r: Next)
        ensures
            r == next_of(self@),
    {
        if self.listening && self.in_flight < self.ceiling {
            if self.in_flight == 0 {
                Next::Device
            } else {
                Next::DeviceOrCompletion
            }
        } else if self.in_flight > 0 {
            Next::Completion
        } else {
            Next::Done
        }
    }

    /// A device arrives. The result says whether it is taken on; if not,
    /// it must wait.
    pub fn take_on(&mut self) -> (taken: bool)
        ensures
            taken == takes_on(old(self)@),
            final(self)@ == after(old(self)@, FanOutEvent::Arrived),
            final(self)@.in_flight <= final(self)@.ceiling,
    {
        if self.listening && self.in_flight < self.ceiling {
            self.in_flight = self.in_flight + 1;
            true
        } else {
            proof {
                use_type_invariant(&*self);
            }
            false
        }
    }

    /// The work on a device has ended: its place is free again.
    pub fn release(&mut self)
        ensures
            final(self)@ == after(old(self)@, FanOutEvent::Finished),
            final(self)@.in_flight <= final(self)@.ceiling,
    {
        proof {
            use_type_invariant(&*self);
        }
        if self.in_flight > 0 {
            self.in_flight = self.in_flight - 1;
        }
    }

    /// The time for discovery is over: from now on no device is taken on.
    pub fn close(&mut self)
        ensures
            final(self)@ == after(old(self)@, FanOutEvent::Closed),
            final(self)@.in_flight <= final(self)@.ceiling,
    {
        proof {
            use_type_invariant(&*self);
        }
        self.listening = false;
    }
}

/// A device as discovery reports it.
#[derive(Debug, PartialEq, Eq)]
pub struct DiscoveredDevice {
    /// The scheme of the address at which the device answered.
    pub scheme: String,
    /// The host of that address.
    pub host: String,
    /// The name that the device advertises, if it advertises one.
    pub name: Option<String>,
}

/// What is tried against one discovered device.
#[derive(Debug, PartialEq, Eq)]
pub struct Dispatch {
    /// The device's base address.
    pub uri: String,
    /// The credential pairs to try, in order.
    pub candidates: Vec<Credentials>,
    /// Whether the table holds the device's name. If not, the one default
    /// pair is tried.
    pub matched: bool,
}

/// Says what is tried against `device`: at its base address, made of its
/// scheme and host, the pairs that `table` holds under the name that the
/// device advertises, in the order of their usernames; or the one default
/// pair, where the table does not hold the name.
pub fn dispatch(table: &CredentialTable, device: &DiscoveredDevice) -> (r: Dispatch)
    ensures
        r.uri@ == device.scheme@ + scheme_separator() + device.host@,
        r.matched == (device.name matches Some(name) && table@.contains_key(name@)),
        r.matched ==> ascending(r.candidates.deep_view()) && logins_of(r.candidates.deep_view())
            == table@[device.name->0@],
        !r.matched ==> r.candidates.deep_view() == seq![fallback()],
{
    let uri = base_address(device.scheme.as_str(), device.host.as_str());
    let selection = match &device.name {
        Some(name) => table.candidates_for(Some(name.as_str())),
        None => table.candidates_for(None),
    };
    Dispatch { uri, candidates: selection.candidates, matched: selection.matched }
}

} // verus!
