//! The record of one candidate file: the image once it is hashed, the status
//! of a path on its way from unhashed to hashed or failed, and the ordered
//! results of a session.

use vstd::prelude::*;
use crate::distance::{hamming, hash_dist, MAX_HASH_BYTES};
use crate::hasher::{
    decode_and_hash,
    hash_len,
    hashable,
    refusal_reason,
    refused,
    largest_hash_size,
    lemma_hash_len_comparable,
    max_hash_size,
    HashType,
};

verus! {

/// The hash size used when none is chosen.
pub const DEFAULT_HASH_SIZE: u32 = 16;

/// The hash algorithm used when none is chosen.
pub const DEFAULT_HASH_TYPE: HashType = HashType::Gradient;

/// The duplicate threshold used when none is chosen.
pub const DEFAULT_THRESHOLD: u32 = 2;

/// The parameters of a session, shared read-only by everything that hashes
/// or compares.
#[derive(Clone, Copy, Debug)]
pub struct HashSettings {
    /// Width and height of the hash, in bits.
    pub hash_size: u32,
    /// The algorithm that produces the hash.
    pub hash_type: HashType,
    /// The largest distance at which two images count as duplicates.
    pub threshold: u32,
}

impl HashSettings {
    /// The hash size is positive and within what the hasher can take for
    /// the algorithm.
    pub open spec fn valid(&self) -> bool {
        1 <= self.hash_size <= max_hash_size(self.hash_type)
    }

    /// Whether the hash size is positive and within what the hasher can take
    /// for the algorithm.
    pub fn is_valid(&self) -> (ok: bool)
        ensures
            ok == self.valid(),
    {
        1 <= self.hash_size && self.hash_size <= largest_hash_size(self.hash_type)
    }
}

impl Default for HashSettings {
    fn default() -> (settings: HashSettings)
        ensures
            settings.hash_size == DEFAULT_HASH_SIZE,
            settings.hash_type == DEFAULT_HASH_TYPE,
            settings.threshold == DEFAULT_THRESHOLD,
            settings.valid(),
    {
        HashSettings {
            hash_size: DEFAULT_HASH_SIZE,
            hash_type: DEFAULT_HASH_TYPE,
            threshold: DEFAULT_THRESHOLD,
        }
    }
}

/// What an image is to the proofs: its path and the bytes of its hash.
pub struct ImageView {
    pub path: Seq<char>,
    pub hash: Seq<u8>,
}

/// A hashed image, identified by the path it was read from.
#[derive(Debug)]
pub struct Image {
    path: String,
    hash: Vec<u8>,
}

impl View for Image {
    type V = ImageView;

    closed spec fn view(&self) -> ImageView {
        ImageView { path: self.path@, hash: self.hash@ }
    }
}

impl Clone for Image {
    fn clone(&self) -> (copy: Image)
        ensures
            copy@ == self@,
    {
        proof {
            use_type_invariant(self);
        }
        let hash = self.hash.clone();
        assert(hash@ =~= self.hash@);
        Image { path: self.path.clone(), hash }
    }
}

impl Image {
    #[verifier::type_invariant]
    spec fn comparable(self) -> bool {
        self.hash@.len() <= MAX_HASH_BYTES
    }

    /// An image with the given path and hash, unless the hash is longer than
    /// `MAX_HASH_BYTES`.
    pub fn new(path: String, hash: Vec<u8>) -> (image: Option<Image>)
        ensures
            image is Some <==> hash@.len() <= MAX_HASH_BYTES,
            image matches Some(i) ==> i@ == (ImageView { path: path@, hash: hash@ }),
    {
        if hash.len() <= MAX_HASH_BYTES {
            Some(Image { path, hash })
        } else {
            None
        }
    }

    /// The path the image was read from.
    pub fn path(&self) -> (path: &String)
        ensures
            path@ == self@.path,
    {
        &self.path
    }

    /// The bytes of the perceptual hash.
    pub fn hash(&self) -> (hash: &Vec<u8>)
        ensures
            hash@ == self@.hash,
            hash@.len() <= MAX_HASH_BYTES,
    {
        proof {
            use_type_invariant(self);
        }
        &self.hash
    }

    /// The Hamming distance between the hashes of two images.
    pub fn distance(&self, other: &Image) -> (d: u32)
        ensures
            d == hamming(self@.hash, other@.hash),
    {
        proof {
            use_type_invariant(self);
            use_type_invariant(other);
        }
        hash_dist(&self.hash, &other.hash)
    }
}

/// The views of a sequence of images.
pub open spec fn image_views(images: Seq<Image>) -> Seq<ImageView> {
    images.map_values(|i: Image| i@)
}

/// What a status is to the proofs.
pub enum StatusView {
    Unhashed(Seq<char>),
    Hashed(ImageView),
    Failed(Seq<char>, Seq<char>),
}

impl StatusView {
    /// The path that the status is about.
    pub open spec fn path(self) -> Seq<char> {
        match self {
            StatusView::Unhashed(path) => path,
            StatusView::Hashed(image) => image.path,
            StatusView::Failed(path, _) => path,
        }
    }

    /// The path has been dealt with: it is hashed or has failed.
    pub open spec fn settled(self) -> bool {
        !(self is Unhashed)
    }
}

/// The reason given when a hash is too long to be compared.
pub open spec fn oversized_reason() -> Seq<char> {
    "the hash is too long to be compared"@
}

/// The status that a path reaches once its hashing has ended with `outcome`.
pub open spec fn settled_status(path: Seq<char>, outcome: Result<Vec<u8>, String>) -> StatusView {
    match outcome {
        Ok(hash) => if hash@.len() <= MAX_HASH_BYTES {
            StatusView::Hashed(ImageView { path, hash: hash@ })
        } else {
            StatusView::Failed(path, oversized_reason())
        },
        Err(reason) => StatusView::Failed(path, reason@),
    }
}

/// The file was read, its contents are such as the decoder can take, and
/// they decode to a picture that can be hashed by the settings.
pub open spec fn hashed_by(contents: Result<Vec<u8>, String>, settings: HashSettings) -> bool {
    contents matches Ok(bytes) && !refused(bytes@) && hashable(
        bytes@,
        settings.hash_size,
        settings.hash_type,
    )
}

/// The file was read, and its contents are such as the decoder cannot take.
pub open spec fn refused_contents(contents: Result<Vec<u8>, String>) -> bool {
    contents matches Ok(bytes) && refused(bytes@)
}

/// Where a path stands: not yet hashed, hashed, or failed with a reason.
#[derive(Debug, Clone)]
pub enum ImgStatus {
    Unhashed(String),
    Hashed(Image),
    Failed(String, String),
}

impl View for ImgStatus {
    type V = StatusView;

    open spec fn view(&self) -> StatusView {
        match self {
            ImgStatus::Unhashed(path) => StatusView::Unhashed(path@),
            ImgStatus::Hashed(image) => StatusView::Hashed(image@),
            ImgStatus::Failed(path, reason) => StatusView::Failed(path@, reason@),
        }
    }
}

impl ImgStatus {
    /// The path that the status is about.
    pub fn path(&self) -> (path: &String)
        ensures
            path@ == self@.path(),
    {
        match self {
            ImgStatus::Unhashed(path) => path,
            ImgStatus::Hashed(image) => image.path(),
            ImgStatus::Failed(path, _) => path,
        }
    }

    /// Whether the path is hashed or has failed.
    pub fn is_settled(&self) -> (settled: bool)
        ensures
            settled == self@.settled(),
    {
        match self {
            ImgStatus::Unhashed(_) => false,
            _ => true,
        }
    }

    /// The status of `path` once its hashing has ended with `outcome`: hashed
    /// with the hash that came out, or failed with the reason given.
    pub fn settle(path: String, outcome: Result<Vec<u8>, String>) -> (status: ImgStatus)
        ensures
            status@ == settled_status(path@, outcome),
    {
        match outcome {
            Ok(hash) => if hash.len() <= MAX_HASH_BYTES {
                ImgStatus::Hashed(Image { path, hash })
            } else {
                ImgStatus::Failed(path, "the hash is too long to be compared".to_owned())
            },
            Err(reason) => ImgStatus::Failed(path, reason),
        }
    }

    /// Hashes an unhashed path from the contents of its file, or from the
    /// reason the file could not be read. The path becomes hashed only when
    /// the file was read and its contents decode to a picture that can be
    /// hashed, and then with a hash of the length that the settings fix. A
    /// read that failed makes the path fail with that reason; contents that
    /// the decoder cannot take make it fail with the reason why; contents
    /// that do not decode make it fail with the decoder's reason. A status
    /// that is settled already stays as it is.
    pub fn hash(&mut self, settings: &HashSettings, contents: Result<Vec<u8>, String>)
        requires
            settings.valid(),
        ensures
            final(self)@.path() == old(self)@.path(),
            final(self)@.settled(),
            old(self)@.settled() ==> final(self)@ == old(self)@,
            !old(self)@.settled() ==> (contents matches Err(reason) ==> final(self)@
                == StatusView::Failed(old(self)@.path(), reason@)),
            !old(self)@.settled() ==> (refused_contents(contents) ==> final(self)@
                == StatusView::Failed(old(self)@.path(), refusal_reason())),
            !old(self)@.settled() ==> (final(self)@ is Hashed ==> hashed_by(contents, *settings)),
            !old(self)@.settled() ==> (final(self)@ matches StatusView::Hashed(image)
                ==> image.hash.len() == hash_len(settings.hash_size, settings.hash_type)),
    {
        if let ImgStatus::Unhashed(path) = self {
            let path = path.clone();
            let outcome = match contents {
                Ok(bytes) => decode_and_hash(&bytes, settings.hash_size, settings.hash_type),
                Err(reason) => Err(reason),
            };
            proof {
                lemma_hash_len_comparable(settings.hash_size, settings.hash_type);
            }
            *self = ImgStatus::settle(path, outcome);
        }
    }
}

/// The views of a sequence of statuses.
pub open spec fn status_views(statuses: Seq<ImgStatus>) -> Seq<StatusView> {
    statuses.map_values(|s: ImgStatus| s@)
}

/// The hashed images among the statuses, in the order of the statuses.
pub open spec fn hashed_images(statuses: Seq<StatusView>) -> Seq<ImageView>
    decreases statuses.len(),
{
    if statuses.len() == 0 {
        Seq::empty()
    } else {
        let before = hashed_images(statuses.drop_last());
        match statuses.last() {
            StatusView::Hashed(image) => before.push(image),
            _ => before,
        }
    }
}

/// The failed paths among the statuses, each with its reason, in the order of
/// the statuses.
pub open spec fn failures(statuses: Seq<StatusView>) -> Seq<(Seq<char>, Seq<char>)>
    decreases statuses.len(),
{
    if statuses.len() == 0 {
        Seq::empty()
    } else {
        let before = failures(statuses.drop_last());
        match statuses.last() {
            StatusView::Failed(path, reason) => before.push((path, reason)),
            _ => before,
        }
    }
}

/// The views of a sequence of failures.
pub open spec fn failure_views(errors: Seq<(String, String)>) -> Seq<(Seq<char>, Seq<char>)> {
    errors.map_values(|e: (String, String)| (e.0@, e.1@))
}

/// The outcome of a session: one status for each input path, in input order.
#[derive(Debug, Clone)]
pub struct ImgResults {
    statuses: Vec<ImgStatus>,
}

impl View for ImgResults {
    type V = Seq<StatusView>;

    closed spec fn view(&self) -> Seq<StatusView> {
        status_views(self.statuses@)
    }
}

impl ImgResults {
    /// The results that hold the given statuses, in their order.
    pub fn from_statuses(statuses: Vec<ImgStatus>) -> (results: ImgResults)
        ensures
            results@ == status_views(statuses@),
    {
        ImgResults { statuses }
    }

    /// The number of paths that the session was given.
    pub fn len(&self) -> (n: usize)
        ensures
            n == self@.len(),
    {
        self.statuses.len()
    }

    /// The status of the path at `index` of the input.
    pub fn get(&self, index: usize) -> (status: Option<&ImgStatus>)
        ensures
            status is Some <==> index < self@.len(),
            status matches Some(s) ==> s@ == self@[index as int],
    {
        if index < self.statuses.len() {
            Some(&self.statuses[index])
        } else {
            None
        }
    }

    /// The statuses, in input order.
    pub fn into_statuses(self) -> (statuses: Vec<ImgStatus>)
        ensures
            status_views(statuses@) == self@,
    {
        self.statuses
    }

    /// Parts the results into the hashed images and the failed paths with
    /// their reasons, each in input order. A path that is still unhashed is
    /// in neither.
    pub fn split(self) -> (parts: (Vec<Image>, Vec<(String, String)>))
        ensures
            image_views(parts.0@) == hashed_images(self@),
            failure_views(parts.1@) == failures(self@),
    {
        let ghost all = self@;
        let mut images: Vec<Image> = Vec::new();
        let mut errors: Vec<(String, String)> = Vec::new();
        for status in it: self.statuses
            invariant
                status_views(it.seq()) == all,
                image_views(images@) == hashed_images(all.take(it.index() as int)),
                failure_views(errors@) == failures(all.take(it.index() as int)),
        {
            let ghost done = all.take(it.index() as int);
            let ghost next = all.take(it.index() + 1);
            proof {
                assert(next.drop_last() == done);
                assert(next.last() == status@);
            }
            match status {
                ImgStatus::Hashed(image) => {
                    let ghost before = images@;
                    images.push(image);
                    proof {
                        assert(image_views(images@) == image_views(before).push(image@));
                    }
                },
                ImgStatus::Failed(path, reason) => {
                    let ghost before = errors@;
                    errors.push((path, reason));
                    proof {
                        assert(failure_views(errors@) == failure_views(before).push(
                            (path@, reason@),
                        ));
                    }
                },
                ImgStatus::Unhashed(_) => {},
            }
        }
        proof {
            assert(all.take(all.len() as int) == all);
        }
        (images, errors)
    }
}

} // verus!
