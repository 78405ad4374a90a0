//! Per-sentence session lifecycle: one capture stream and one output file,
//! released together on every exit path.
//!
//! `RecordingSession` tracks, as plain booleans, which of the two resources
//! of an in-progress sentence are still live. The code that owns the real
//! stream handle and file writer performs each effect exactly when the
//! corresponding method here fires, so the rules below are the rules of the
//! real resources: the stream is always closed first — guaranteeing no
//! callback is in flight — before the file is flushed, finalized, or deleted,
//! and an aborted sentence never leaves a partial file behind.

use vstd::prelude::*;
use crate::strutil::{join_path, spec_wav_file_name, wav_file_name};

verus! {

/// Where a sentence's WAV file is written: the project directory joined with
/// the sanitized sentence text plus the extension.
pub fn sentence_output_path(project_dir: &str, sentence_text: &str) -> (r: String)
    ensures
        r@ == project_dir@ + "/"@ + spec_wav_file_name(sentence_text@),
{
    let file = wav_file_name(sentence_text);
    join_path(project_dir, file.as_str())
}

/// Resource state of one sentence recording.
pub struct RecordingSession {
    /// Path of the sentence's WAV file.
    pub path: String,
    /// The capture stream is registered and may still invoke its callback.
    pub stream_open: bool,
    /// The output file exists on disk.
    pub file_exists: bool,
    /// The file header has been flushed, making the file a valid WAV file.
    pub finalized: bool,
}

impl RecordingSession {
    /// Opens a session: the stream is live and the (still header-only) output
    /// file has been created at `path`.
    pub fn open(path: String) -> (r: Self)
        ensures
            r.path == path,
            r.stream_open,
            r.file_exists,
            !r.finalized,
    {
        RecordingSession { path, stream_open: true, file_exists: true, finalized: false }
    }

    /// Unregisters the capture stream. After this no further callback runs,
    /// so the file may safely be finalized or deleted.
    pub fn close_stream(&mut self)
        ensures
            *final(self) == (RecordingSession { stream_open: false, ..*old(self) }),
    {
        self.stream_open = false;
    }

    /// Flushes the writer, finalizing the WAV header. Requires the stream to
    /// be closed first: a write racing the flush would corrupt the file.
    pub fn finalize_file(&mut self)
        requires
            !old(self).stream_open,
            old(self).file_exists,
        ensures
            *final(self) == (RecordingSession { finalized: true, ..*old(self) }),
    {
        self.finalized = true;
    }

    /// Deletes the file. Requires the stream to be closed first: deleting
    /// while a callback could still write would race the delete.
    pub fn delete_file(&mut self)
        requires
            !old(self).stream_open,
            old(self).file_exists,
        ensures
            *final(self) == (RecordingSession { file_exists: false, ..*old(self) }),
    {
        self.file_exists = false;
    }

    /// Releases both resources, on success and on abort alike: the stream is
    /// closed, the writer flushed, and — when the sentence was aborted by a
    /// pause or stop — the partial file is deleted, so an abort never leaves
    /// a truncated WAV file on disk. After a successful sentence the file
    /// remains, finalized.
    pub fn teardown(&mut self, aborted: bool)
        requires
            old(self).file_exists,
        ensures
            !final(self).stream_open,
            final(self).path == old(self).path,
            aborted ==> !final(self).file_exists,
            !aborted ==> final(self).file_exists && final(self).finalized,
    {
        self.close_stream();
        self.finalize_file();
        if aborted {
            self.delete_file();
        }
    }
}

} // verus!
