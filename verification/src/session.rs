//! The session facade: a list of paths with the settings to hash them by,
//! and the two ways of running the session.

use vstd::prelude::*;
use crate::hasher::{hash_len, refusal_reason, HashType};
use crate::img::{
    hashed_by,
    refused_contents,
    status_views,
    HashSettings,
    ImgResults,
    ImgStatus,
    StatusView,
    DEFAULT_HASH_SIZE,
    DEFAULT_HASH_TYPE,
    DEFAULT_THRESHOLD,
};
use crate::threaded::{path_views, ConfigurationError, ThreadedSession};

verus! {

/// The status is what hashing `path` by `settings` comes to when reading its
/// file gave `contents`: a settled status of that path, hashed only when
/// the file was read and its contents decode to a picture that can be
/// hashed; where the file could not be read, the failure with the reader's
/// reason; where the decoder cannot take the contents, the failure with the
/// reason why; and where the path is hashed, a hash of the length that the
/// settings fix.
pub open spec fn comes_of(
    status: StatusView,
    settings: HashSettings,
    path: Seq<char>,
    contents: Result<Vec<u8>, String>,
) -> bool {
    &&& status.path() == path
    &&& status.settled()
    &&& contents matches Err(reason) ==> status == StatusView::Failed(path, reason@)
    &&& refused_contents(contents) ==> status == StatusView::Failed(path, refusal_reason())
    &&& status is Hashed ==> hashed_by(contents, settings)
    &&& status matches StatusView::Hashed(image) ==> image.hash.len() == hash_len(
        settings.hash_size,
        settings.hash_type,
    )
}

/// The status is what hashing `path` by `settings` comes to for some
/// contents that `read` may give for it.
pub open spec fn hashed_from<F: Fn(&String) -> Result<Vec<u8>, String>>(
    read: F,
    settings: HashSettings,
    path: String,
    status: StatusView,
) -> bool {
    exists|contents: Result<Vec<u8>, String>|
        read.ensures((&path,), contents) && comes_of(status, settings, path@, contents)
}

/// A builder for bootstrapping a session.
#[derive(Debug, Clone)]
pub struct SessionBuilder {
    /// The images to hash and compare.
    pub images: Vec<String>,
    /// The size of the hash to use.
    pub hash_size: u32,
    /// The type of the hash to use.
    pub hash_type: HashType,
    /// The largest distance at which two images count as duplicates.
    pub threshold: u32,
}

impl SessionBuilder {
    /// The settings that the builder holds.
    pub open spec fn hash_settings(&self) -> HashSettings {
        HashSettings {
            hash_size: self.hash_size,
            hash_type: self.hash_type,
            threshold: self.threshold,
        }
    }

    /// A builder for the given paths, with the default settings.
    pub fn from_images(images: Vec<String>) -> (builder: SessionBuilder)
        ensures
            builder.images == images,
            builder.hash_size == DEFAULT_HASH_SIZE,
            builder.hash_type == DEFAULT_HASH_TYPE,
            builder.threshold == DEFAULT_THRESHOLD,
            builder.hash_settings().valid(),
    {
        SessionBuilder {
            images,
            hash_size: DEFAULT_HASH_SIZE,
            hash_type: DEFAULT_HASH_TYPE,
            threshold: DEFAULT_THRESHOLD,
        }
    }

    /// Sets the hash size, and hands `self` back for chaining.
    pub fn hash_size(&mut self, hash_size: u32) -> (builder: &mut SessionBuilder)
        ensures
            builder.hash_size == hash_size,
            builder.images == old(self).images,
            builder.hash_type == old(self).hash_type,
            builder.threshold == old(self).threshold,
            *final(self) == *final(builder),
    {
        self.hash_size = hash_size;
        self
    }

    /// Sets the hash type, and hands `self` back for chaining.
    pub fn hash_type(&mut self, hash_type: HashType) -> (builder: &mut SessionBuilder)
        ensures
            builder.hash_type == hash_type,
            builder.images == old(self).images,
            builder.hash_size == old(self).hash_size,
            builder.threshold == old(self).threshold,
            *final(self) == *final(builder),
    {
        self.hash_type = hash_type;
        self
    }

    /// Sets the duplicate threshold, and hands `self` back for chaining.
    pub fn threshold(&mut self, threshold: u32) -> (builder: &mut SessionBuilder)
        ensures
            builder.threshold == threshold,
            builder.images == old(self).images,
            builder.hash_size == old(self).hash_size,
            builder.hash_type == old(self).hash_type,
            *final(self) == *final(builder),
    {
        self.threshold = threshold;
        self
    }

    /// The settings that the builder holds.
    pub fn settings(&self) -> (settings: HashSettings)
        ensures
            settings == self.hash_settings(),
    {
        HashSettings {
            hash_size: self.hash_size,
            hash_type: self.hash_type,
            threshold: self.threshold,
        }
    }

    /// Plans a multi-threaded session with `threads` workers if supplied, or
    /// with as many as the host reports CPUs otherwise. A count of zero
    /// fails, before anything is done.
    pub fn process_multithread(self, threads: Option<usize>) -> (session: Result<
        ThreadedSession,
        ConfigurationError,
    >)
        requires
            self.hash_settings().valid(),
        ensures
            threads matches Some(count) ==> if count == 0 {
                session matches Err(e) && e == ConfigurationError::ZeroThreads
            } else {
                session matches Ok(s) && s.starts(
                    self.hash_settings(),
                    path_views(self.images@),
                    count,
                )
            },
            threads is None ==> match session {
                Ok(s) => s.starts(self.hash_settings(), path_views(self.images@), s.worker_count()),
                Err(e) => e == ConfigurationError::NoParallelism,
            },
    {
        let (settings, images) = self.recombine();
        ThreadedSession::process_multithread(threads, settings, images)
    }

    /// Does all the hashing on the current thread and returns the results
    /// directly: one settled status for each path, in input order. `read`
    /// is asked for the contents of each path in turn.
    pub fn process_local<F: Fn(&String) -> Result<Vec<u8>, String>>(self, read: F) -> (results:
        ImgResults)
        requires
            self.hash_settings().valid(),
            forall|i: int| 0 <= i < self.images@.len() ==> read.requires((&self.images@[i],)),
        ensures
            results@.len() == self.images@.len(),
            forall|i: int|
                0 <= i < results@.len() ==> hashed_from(
                    read,
                    self.hash_settings(),
                    self.images@[i],
                    #[trigger] results@[i],
                ),
    {
        let ghost paths = self.images@;
        let ghost chosen = self.hash_settings();
        let (settings, images) = self.recombine();
        let mut results: Vec<ImgStatus> = Vec::new();
        for path in it: images
            invariant
                settings.valid(),
                settings == chosen,
                it.seq() == paths,
                forall|i: int| 0 <= i < paths.len() ==> read.requires((&paths[i],)),
                results@.len() == it.index(),
                forall|i: int|
                    0 <= i < results@.len() ==> hashed_from(
                        read,
                        chosen,
                        paths[i],
                        (#[trigger] results@[i])@,
                    ),
        {
            let contents = read(&path);
            let ghost given = contents;
            let mut status = ImgStatus::Unhashed(path);
            status.hash(&settings, contents);
            proof {
                assert(read.ensures((&path,), given) && comes_of(status@, chosen, path@, given));
                assert(hashed_from(read, chosen, path, status@));
            }
            results.push(status);
        }
        let results = ImgResults::from_statuses(results);
        results
    }

    fn recombine(self) -> (parts: (HashSettings, Vec<String>))
        ensures
            parts.0 == self.hash_settings(),
            parts.1 == self.images,
    {
        let hash_settings = HashSettings {
            hash_size: self.hash_size,
            hash_type: self.hash_type,
            threshold: self.threshold,
        };
        (hash_settings, self.images)
    }
}

} // verus!
