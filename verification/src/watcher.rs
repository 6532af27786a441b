//! Clipboard watcher by polling, and its event type.
//!
//! A polling watcher tracks the last content it saw on a clipboard backend
//! and reports each change of content once.
use vstd::prelude::*;

use crate::clipboard::{clip_text, ClipContent, ClipboardBackend, ClipboardError};

verus! {

/// An event emitted by a clipboard watcher when something happens.
#[derive(Debug, Clone, PartialEq, Eq)]
pub enum ClipEvent {
    /// The clipboard content changed to new content.
    Changed(ClipContent),
}

/// The text that an optional event reports.
pub open spec fn event_text(e: Option<ClipEvent>) -> Option<Seq<char>> {
    match e {
        Some(ClipEvent::Changed(c)) => Some(c@),
        None => None,
    }
}

/// The event reported when the clipboard, last seen holding `last`, now
/// holds `current`: the new content when it differs and is not empty.
pub open spec fn poll_event(last: Option<Seq<char>>, current: Option<Seq<char>>) -> Option<
    Seq<char>,
> {
    if current != last {
        current
    } else {
        None
    }
}

/// Each change is reported exactly once: polling again without a change
/// reports nothing, and a change to new content reports that content.
pub proof fn lemma_each_change_reported_once(last: Option<Seq<char>>, text: Seq<char>)
    ensures
        poll_event(Some(text), Some(text)) is None,
        last != Some(text) ==> poll_event(last, Some(text)) == Some(text),
{
}

/// Only the current text is ever reported: an empty or non-text clipboard
/// is never reported, whatever was seen before, and a reported event
/// carries the text the clipboard holds now, which differs from what was
/// seen before.
pub proof fn lemma_only_current_text_reported(last: Option<Seq<char>>, current: Option<Seq<char>>)
    ensures
        poll_event(last, None) is None,
        poll_event(last, current) matches Some(t) ==> current == Some(t) && last != Some(t),
        (current is Some && current != last) ==> poll_event(last, current) == current,
{
}

/// A watcher that detects changes by polling a [`ClipboardBackend`].
pub struct PollingWatcher<B: ClipboardBackend> {
    backend: B,
    last_content: Option<ClipContent>,
}

impl<B: ClipboardBackend> PollingWatcher<B> {
    /// The backend being watched.
    pub closed spec fn watched(&self) -> B {
        self.backend
    }

    /// The content seen by the last poll.
    pub closed spec fn last_seen(&self) -> Option<Seq<char>> {
        clip_text(self.last_content)
    }

    /// Create a new polling watcher wrapping a clipboard backend. It starts
    /// with no previous content recorded.
    pub fn new(backend: B) -> (r: PollingWatcher<B>)
        ensures
            r.watched() == backend,
            r.last_seen() is None,
    {
        PollingWatcher { backend, last_content: None }
    }

    /// The backend being watched.
    pub fn backend(&self) -> (r: &B)
        ensures
            *r == self.watched(),
    {
        &self.backend
    }

    /// The backend being watched, to be changed in place; the content last
    /// seen stays as it was.
    pub fn backend_mut(&mut self) -> (r: &mut B)
        ensures
            *r == old(self).watched(),
            final(self).watched() == *final(r),
            final(self).last_seen() == old(self).last_seen(),
    {
        &mut self.backend
    }

    /// Record what the clipboard now holds, and report it if it changed.
    pub fn observe(&mut self, current: Option<ClipContent>) -> (r: Option<ClipEvent>)
        ensures
            final(self).watched() == old(self).watched(),
            final(self).last_seen() == clip_text(current),
            event_text(r) == poll_event(old(self).last_seen(), clip_text(current)),
    {
        let changed = match (&current, &self.last_content) {
            (Some(a), Some(b)) => !a.same_as(b),
            (None, None) => false,
            _ => true,
        };
        if changed {
            self.last_content = match &current {
                Some(c) => Some(c.clone()),
                None => None,
            };
            if let Some(content) = current {
                return Some(ClipEvent::Changed(content));
            }
        }
        None
    }

    /// Poll the clipboard once: read the backend, record what it read, and
    /// report it if it changed.
    ///
    /// - `Ok(Some(ClipEvent::Changed(..)))` if the content changed,
    /// - `Ok(None)` if it is the same as at the last poll (or empty),
    /// - `Err` with the backend's error if reading failed; the last content
    ///   is kept.
    pub fn poll_once(&mut self) -> (r: Result<Option<ClipEvent>, ClipboardError>)
        ensures
            match r {
                Ok(e) => {
                    &&& old(self).watched().reads(final(self).last_seen())
                    &&& event_text(e) == poll_event(old(self).last_seen(), final(self).last_seen())
                },
                Err(e) => {
                    &&& old(self).watched().fails_with(e)
                    &&& final(self).last_seen() == old(self).last_seen()
                },
            },
            forall|t: Option<Seq<char>>| #[trigger]
                final(self).watched().reads(t) == old(self).watched().reads(t),
            forall|e: ClipboardError| #[trigger]
                final(self).watched().fails_with(e) == old(self).watched().fails_with(e),
    {
        let current = match self.backend.get() {
            Ok(c) => c,
            Err(e) => return Err(e),
        };
        Ok(self.observe(current))
    }
}

} // verus!
