use asynthe::tracker::{NoteEvent, NoteTransitionTracker};

#[test]
fn silent_start_emits_nothing() {
    let mut t = NoteTransitionTracker::new();
    assert!(t.update(None).is_empty());
    assert_eq!(t.get(), None);
}

#[test]
fn first_note_switches_on() {
    let mut t = NoteTransitionTracker::new();
    assert_eq!(t.update(Some(64)), vec![NoteEvent::NoteOn(64)]);
    assert_eq!(t.get(), Some(64));
}

#[test]
fn change_of_note_is_off_then_on() {
    let mut t = NoteTransitionTracker::new();
    t.update(Some(60));
    let events = t.update(Some(67));
    assert_eq!(events, vec![NoteEvent::NoteOff(60), NoteEvent::NoteOn(67)]);
    let offs = events.iter().filter(|e| matches!(e, NoteEvent::NoteOff(_))).count();
    assert_eq!(offs, 1);
    assert_eq!(t.get(), Some(67));
}

#[test]
fn repeated_note_is_sustained() {
    let mut t = NoteTransitionTracker::new();
    t.update(Some(69));
    for _ in 0..10 {
        assert!(t.update(Some(69)).is_empty());
    }
    assert_eq!(t.get(), Some(69));
}

#[test]
fn silence_releases_sounding_note() {
    let mut t = NoteTransitionTracker::new();
    t.update(Some(0));
    assert_eq!(t.update(None), vec![NoteEvent::NoteOff(0)]);
    assert_eq!(t.get(), None);
    assert!(t.update(None).is_empty());
}

#[test]
fn set_replaces_state_silently() {
    let mut t = NoteTransitionTracker::new();
    t.set(Some(50));
    assert_eq!(t.get(), Some(50));
    assert_eq!(t.update(Some(51)), vec![NoteEvent::NoteOff(50), NoteEvent::NoteOn(51)]);
    t.set(None);
    assert_eq!(t.update(Some(51)), vec![NoteEvent::NoteOn(51)]);
}
