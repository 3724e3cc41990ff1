//! Turns the per-frame dominant note into note-on / note-off events.
use vstd::prelude::*;

verus! {

/// An event for a monophonic note consumer.
#[derive(Clone, Copy, Debug, PartialEq, Eq, Structural)]
pub enum NoteEvent {
    NoteOn(u8),
    NoteOff(u8),
}

/// The events owed when the sounding note is `current` and the frame detects `input`.
pub open spec fn transition_events(current: Option<u8>, input: Option<u8>) -> Seq<NoteEvent> {
    match (current, input) {
        (None, None) => seq![],
        (None, Some(m)) => seq![NoteEvent::NoteOn(m)],
        (Some(n), None) => seq![NoteEvent::NoteOff(n)],
        (Some(n), Some(m)) => if n == m {
            seq![]
        } else {
            seq![NoteEvent::NoteOff(n), NoteEvent::NoteOn(m)]
        },
    }
}

/// Number of `NoteOff` events in an event sequence.
pub open spec fn count_offs(events: Seq<NoteEvent>) -> nat
    decreases events.len(),
{
    if events.len() == 0 {
        0
    } else {
        count_offs(events.drop_last()) + if events.last() is NoteOff { 1nat } else { 0nat }
    }
}

/// Remembers which note is sounding, if any.
pub struct NoteTransitionTracker {
    sounding: Option<u8>,
}

impl NoteTransitionTracker {
    /// A tracker with no note sounding.
    pub fn new() -> (r: Self)
        ensures
            r.sounding_spec() is None,
    {
        NoteTransitionTracker { sounding: None }
    }

    pub closed spec fn sounding_spec(&self) -> Option<u8> {
        self.sounding
    }

    /// The note that was last switched on and not yet off.
    pub fn get(&self) -> (r: Option<u8>)
        ensures
            r == self.sounding_spec(),
    {
        self.sounding
    }

    /// Forgets or replaces the sounding note without emitting anything.
    pub fn set(&mut self, number: Option<u8>)
        ensures
            final(self).sounding_spec() == number,
    {
        self.sounding = number;
    }

    /// Feeds one frame's dominant note and returns the events it causes, in order.
    pub fn update(&mut self, input: Option<u8>) -> (r: Vec<NoteEvent>)
        ensures
            r@ == transition_events(old(self).sounding_spec(), input),
            final(self).sounding_spec() == input,
    {
        let mut events: Vec<NoteEvent> = Vec::new();
        match self.sounding {
            Some(n) => match input {
                Some(m) => {
                    if n != m {
                        events.push(NoteEvent::NoteOff(n));
                        events.push(NoteEvent::NoteOn(m));
                    }
                },
                None => {
                    events.push(NoteEvent::NoteOff(n));
                },
            },
            None => match input {
                Some(m) => {
                    events.push(NoteEvent::NoteOn(m));
                },
                None => {},
            },
        }
        self.sounding = input;
        proof {
            assert(events@ =~= transition_events(old(self).sounding_spec(), input));
        }
        events
    }
}

/// Switching directly from one note to a different one emits exactly one `NoteOff`,
/// for the old note, and it comes before the `NoteOn` of the new note.
pub proof fn lemma_switch_is_off_then_on(n: u8, m: u8)
    requires
        n != m,
    ensures
        transition_events(Some(n), Some(m)) == seq![NoteEvent::NoteOff(n), NoteEvent::NoteOn(m)],
        count_offs(transition_events(Some(n), Some(m))) == 1,
{
    let e = transition_events(Some(n), Some(m));
    assert(e.drop_last() =~= seq![NoteEvent::NoteOff(n)]);
    assert(e.drop_last().drop_last() =~= Seq::<NoteEvent>::empty());
    assert(count_offs(e.drop_last().drop_last()) == 0);
    assert(count_offs(e.drop_last()) == 1);
}

/// Once a note sounds, further frames of the same note emit nothing and keep it sounding.
pub proof fn lemma_sustain_is_silent(m: u8)
    ensures
        transition_events(Some(m), Some(m)) == Seq::<NoteEvent>::empty(),
{
    assert(transition_events(Some(m), Some(m)) =~= Seq::<NoteEvent>::empty());
}

/// A silent frame switches off the sounding note, and emits nothing when none sounds.
pub proof fn lemma_silence_releases(current: Option<u8>)
    ensures
        current is None ==> transition_events(current, None).len() == 0,
        current is Some ==> transition_events(current, None) == seq![
            NoteEvent::NoteOff(current->0),
        ],
{
}

} // verus!
