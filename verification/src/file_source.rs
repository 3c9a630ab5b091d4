//! A capture file as a source of traces: it hands out the batches that a reader gives,
//! and keeps the capture's metadata and how much was read.

use vstd::prelude::*;
use crate::application::{DataSource, DataSourceType};
use crate::model::{same_text, FileMetadata, Layers, Technology, Trace, TramexError};

verus! {

/// Where a file source reads its batches from (the reader of a capture file).
pub trait BatchReader {
    /// Reads the next batch: its traces, the metadata of the capture, and whether the
    /// file has been read to its end.
    fn read_batch(&mut self) -> Result<(Vec<Trace>, FileMetadata, bool), Vec<TramexError>>;

    /// Number of events of the file, when known.
    fn total_event_count(&self) -> Option<usize>;
}

/// A capture file, read batch by batch.
pub struct FileSource<R: BatchReader> {
    /// Reader of the file
    pub handler: R,
    /// Path of the file
    pub path: String,
    /// The file has been read to its end
    pub fully_loaded: bool,
    /// Traces read and not yet handed out
    pub pending_events: Vec<Trace>,
    /// Metadata of the capture
    pub metadata: FileMetadata,
    /// Number of traces read so far
    pub loaded_count: usize,
}

impl<R: BatchReader> FileSource<R> {
    /// A source that has read nothing yet.
    pub fn from_file(handler: R, path: String) -> (r: Self)
        ensures
            r.handler == handler,
            r.path == path,
            !r.fully_loaded,
            r.pending_events@.len() == 0,
            r.metadata.technology == Technology::Unknown,
            r.metadata.ssb_info@.len() == 0,
            r.loaded_count == 0,
    {
        FileSource {
            handler,
            path,
            fully_loaded: false,
            pending_events: Vec::new(),
            metadata: FileMetadata::new(),
            loaded_count: 0,
        }
    }

    /// `after` is this source once it took a batch: `events`, read with `metadata`, the
    /// file read to its end when `full_read` (see `absorb_batch`).
    pub open spec fn absorbed(self, after: Self, events: Seq<Trace>, metadata: FileMetadata, full_read: bool) -> bool {
        &&& (after.pending_events@ == self.pending_events@ + events)
        &&& (after.loaded_count == if self.loaded_count + events.len() <= usize::MAX {
            self.loaded_count + events.len()
        } else {
            usize::MAX as int
        })
        &&& (after.metadata.technology == metadata.technology)
        &&& (after.metadata.ssb_info@ == if self.loaded_count == 0 {
            metadata.ssb_info@
        } else {
            self.metadata.ssb_info@
        })
        &&& (self.loaded_count == 0 ==> {
            &&& after.metadata.pci == metadata.pci
            &&& after.metadata.arfcn == metadata.arfcn
            &&& same_text(after.metadata.mode, metadata.mode)
            &&& same_text(after.metadata.io_mode, metadata.io_mode)
        })
        &&& (self.loaded_count != 0 ==> {
            &&& after.metadata.pci == self.metadata.pci
            &&& after.metadata.arfcn == self.metadata.arfcn
            &&& after.metadata.mode == self.metadata.mode
            &&& after.metadata.io_mode == self.metadata.io_mode
        })
        &&& (after.fully_loaded == (self.fully_loaded || full_read))
        &&& (after.handler == self.handler)
        &&& (after.path == self.path)
    }

    /// Takes a batch that the reader gave: the metadata of the first batch is kept (and
    /// its technology follows later batches), the traces wait to be handed out, and the
    /// source is done once the reader reached the end of the file.
    pub fn absorb_batch(&mut self, events: Vec<Trace>, metadata: FileMetadata, full_read: bool)
        ensures
            old(self).absorbed(*final(self), events@, metadata, full_read),
    {
        if self.loaded_count == 0 {
            self.metadata = metadata.duplicate();
        }
        if metadata.technology != self.metadata.technology {
            self.metadata.technology = metadata.technology;
        }
        let mut events = events;
        self.loaded_count = self.loaded_count.saturating_add(events.len());
        self.pending_events.append(&mut events);
        if full_read {
            self.fully_loaded = true;
        }
    }

    /// The reader of the file.
    pub fn handler(&self) -> (r: &R)
        ensures
            *r == self.handler,
    {
        &self.handler
    }

    /// Metadata of the capture.
    pub fn file_metadata(&self) -> (r: &FileMetadata)
        ensures
            *r == self.metadata,
    {
        &self.metadata
    }
}

impl<R: BatchReader> DataSource for FileSource<R> {
    /// Hands out the traces read and not yet handed out, which are then none.
    open spec fn spec_polled(&self, after: Self, r: Result<Vec<Trace>, Vec<TramexError>>) -> bool {
        &&& r matches Ok(v) && v@ == self.pending_events@
        &&& after.pending_events@.len() == 0
        &&& after.fully_loaded == self.fully_loaded
        &&& after.loaded_count == self.loaded_count
        &&& after.metadata == self.metadata
        &&& after.handler == self.handler
        &&& after.path == self.path
    }

    fn poll(&mut self) -> (r: Result<Vec<Trace>, Vec<TramexError>>) {
        let mut taken: Vec<Trace> = Vec::new();
        taken.append(&mut self.pending_events);
        Ok(taken)
    }

    /// A file read to its end is left as it is. Otherwise the reader is asked for a batch:
    /// on success the source took the batch that came back (see `absorbed`); on failure
    /// the reader's errors are handed back and nothing but the reader changed.
    open spec fn spec_requested(&self, after: Self, layers: Layers, r: Result<(), Vec<TramexError>>) -> bool {
        if self.fully_loaded {
            r is Ok && after == *self
        } else {
            match r {
                Ok(()) => exists|events: Seq<Trace>, metadata: FileMetadata, full_read: bool|
                    #[trigger] Self { handler: after.handler, ..*self }.absorbed(
                        after,
                        events,
                        metadata,
                        full_read,
                    ),
                Err(_) => after == Self { handler: after.handler, ..*self },
            }
        }
    }

    fn request_more(&mut self, layers: &Layers) -> (r: Result<(), Vec<TramexError>>) {
        if self.fully_loaded {
            return Ok(());
        }
        match self.handler.read_batch() {
            Ok((events, metadata, full_read)) => {
                let ghost before = *self;
                let ghost ev = events@;
                let ghost md = metadata;
                self.absorb_batch(events, metadata, full_read);
                assert(before.absorbed(*self, ev, md, full_read));
                Ok(())
            },
            Err(e) => Err(e),
        }
    }

    open spec fn spec_auto_loading(&self) -> bool {
        false
    }

    /// A file is read on request only.
    fn is_auto_loading(&self) -> (r: bool) {
        false
    }

    /// A file is read on request only: nothing to switch, nothing changes.
    open spec fn spec_toggled(&self, after: Self) -> bool {
        after == *self
    }

    fn toggle_auto_loading(&mut self) {
    }

    open spec fn spec_has_more(&self) -> bool {
        !self.fully_loaded
    }

    /// More can be read until the end of the file.
    fn has_more(&self) -> (r: bool) {
        !self.fully_loaded
    }

    /// A file, with its path and whether it is read to its end.
    fn source_type(&self) -> (r: DataSourceType)
        ensures
            r matches DataSourceType::File { path, fully_loaded } && path@ == self.path@ && fully_loaded
                == self.fully_loaded,
    {
        DataSourceType::File { path: self.path.clone(), fully_loaded: self.fully_loaded }
    }

    /// The reader's count of events.
    fn total_count(&self) -> (r: Option<usize>) {
        self.handler.total_event_count()
    }

    /// The metadata of the capture.
    open spec fn spec_metadata(&self) -> Option<FileMetadata> {
        Some(self.metadata)
    }

    fn metadata(&self) -> (r: Option<&FileMetadata>) {
        Some(&self.metadata)
    }
}

} // verus!
