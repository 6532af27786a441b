use uclip::{ClipContent, ClipEvent, ClipboardBackend, MemoryClipboard, PollingWatcher};

#[test]
fn polling_watcher_detects_changes_and_ignores_duplicates() {
    let fake = MemoryClipboard::new();
    let mut watcher = PollingWatcher::new(fake);

    assert_eq!(watcher.poll_once().unwrap(), None);

    let clip1 = ClipContent::Text { text: "hello".to_string() };
    watcher.backend_mut().set(&clip1).unwrap();
    assert_eq!(watcher.poll_once().unwrap(), Some(ClipEvent::Changed(clip1)));

    assert_eq!(watcher.poll_once().unwrap(), None);

    let clip2 = ClipContent::Text { text: "world".to_string() };
    watcher.backend_mut().set(&clip2).unwrap();
    assert_eq!(watcher.poll_once().unwrap(), Some(ClipEvent::Changed(clip2)));
}

#[test]
fn observe_reports_only_changes_to_content() {
    let mut watcher = PollingWatcher::new(MemoryClipboard::new());
    let a = ClipContent::Text { text: "a".to_string() };
    assert_eq!(watcher.observe(Some(a.clone())), Some(ClipEvent::Changed(a.clone())));
    assert_eq!(watcher.observe(Some(a.clone())), None);
    // Becoming empty is recorded but not reported; the same content coming
    // back afterwards is a change again.
    assert_eq!(watcher.observe(None), None);
    assert_eq!(watcher.observe(Some(a.clone())), Some(ClipEvent::Changed(a)));
}

struct FailingClipboard;

impl ClipboardBackend for FailingClipboard {
    fn get(&mut self) -> Result<Option<ClipContent>, uclip::ClipboardError> {
        Err(uclip::ClipboardError::Access("locked".to_string()))
    }

    fn set(&mut self, _content: &ClipContent) -> Result<(), uclip::ClipboardError> {
        Err(uclip::ClipboardError::Access("locked".to_string()))
    }
}

#[test]
fn failed_read_passes_the_backend_error_through() {
    let mut watcher = PollingWatcher::new(FailingClipboard);
    match watcher.poll_once() {
        Err(uclip::ClipboardError::Access(msg)) => assert_eq!(msg, "locked"),
        other => panic!("expected the backend's error, got {:?}", other),
    }
    // The failed read recorded nothing: content seen later is still new.
    let a = ClipContent::Text { text: "a".to_string() };
    assert_eq!(watcher.observe(Some(a.clone())), Some(ClipEvent::Changed(a)));
}
