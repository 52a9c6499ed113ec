//! The duplicate-clustering engine. Images are added one at a time; each joins
//! the first group, in order of creation, whose representative is within the
//! threshold of it, or else founds a group of its own.

use vstd::prelude::*;
use crate::distance::hamming;
use crate::grouping::{all_members, anchored, apart, lemma_add_image_keeps};
use crate::img::{image_views, Image, ImageView};

verus! {

/// What a group is to the proofs: its representative and the images that
/// joined it, in the order in which they joined.
pub struct GroupView {
    pub img: ImageView,
    pub similars: Seq<ImageView>,
}

impl GroupView {
    /// The group that `image` founds.
    pub open spec fn solo(image: ImageView) -> GroupView {
        GroupView { img: image, similars: Seq::empty() }
    }

    /// The group after `image` has joined it.
    pub open spec fn joined(self, image: ImageView) -> GroupView {
        GroupView { img: self.img, similars: self.similars.push(image) }
    }

    /// All the images of the group: the representative, then those that joined.
    pub open spec fn members(self) -> Seq<ImageView> {
        seq![self.img] + self.similars
    }
}

/// The hash of `image` is within `threshold` of the hash of `representative`.
pub open spec fn close(image: ImageView, representative: ImageView, threshold: u32) -> bool {
    hamming(image.hash, representative.hash) <= threshold
}

/// No group's representative is within the threshold of `image`.
pub open spec fn matches_none(groups: Seq<GroupView>, image: ImageView, threshold: u32) -> bool {
    forall|j: int| 0 <= j < groups.len() ==> !close(image, (#[trigger] groups[j]).img, threshold)
}

/// Group `k` is the first, in order of creation, whose representative is
/// within the threshold of `image`.
pub open spec fn matches_first(
    groups: Seq<GroupView>,
    image: ImageView,
    threshold: u32,
    k: int,
) -> bool {
    &&& 0 <= k < groups.len()
    &&& close(image, groups[k].img, threshold)
    &&& forall|j: int| 0 <= j < k ==> !close(image, (#[trigger] groups[j]).img, threshold)
}

/// The groups after `image` has been added: it joins the first group that
/// matches it, and founds a new last group where none does.
pub open spec fn add_image(groups: Seq<GroupView>, image: ImageView, threshold: u32) -> Seq<
    GroupView,
> {
    if matches_none(groups, image, threshold) {
        groups.push(GroupView::solo(image))
    } else {
        let k = choose|k: int| matches_first(groups, image, threshold, k);
        groups.update(k, groups[k].joined(image))
    }
}

/// The groups after each of `images` has been added, in order.
pub open spec fn add_images(groups: Seq<GroupView>, images: Seq<ImageView>, threshold: u32) -> Seq<
    GroupView,
>
    decreases images.len(),
{
    if images.len() == 0 {
        groups
    } else {
        add_image(add_images(groups, images.drop_last(), threshold), images.last(), threshold)
    }
}

/// The groups that `images` fall into when they are added, in order, to an
/// engine that holds none.
pub open spec fn cluster(images: Seq<ImageView>, threshold: u32) -> Seq<GroupView> {
    add_images(Seq::empty(), images, threshold)
}

/// An image joins the group at `k` when that is the first group to match it.
pub proof fn lemma_joins_first_match(
    groups: Seq<GroupView>,
    image: ImageView,
    threshold: u32,
    k: int,
)
    requires
        matches_first(groups, image, threshold, k),
    ensures
        add_image(groups, image, threshold) == groups.update(k, groups[k].joined(image)),
{
    assert(!close(image, groups[k].img, threshold) || !matches_none(groups, image, threshold));
    let c = choose|c: int| matches_first(groups, image, threshold, c);
    assert(matches_first(groups, image, threshold, c));
    if c < k {
        assert(!close(image, groups[c].img, threshold));
    }
    if k < c {
        assert(!close(image, groups[k].img, threshold));
    }
}

/// A duplicate group: a representative image and the images found similar to it.
#[derive(Debug, Clone)]
pub struct UniqueImage {
    /// The representative: the first image of the group.
    pub img: Image,
    /// The images that joined the group, in the order in which they were added.
    pub similars: Vec<Image>,
}

impl View for UniqueImage {
    type V = GroupView;

    open spec fn view(&self) -> GroupView {
        GroupView { img: self.img@, similars: image_views(self.similars@) }
    }
}

impl UniqueImage {
    /// The number of images of the group, the representative included.
    pub fn len(&self) -> (n: usize)
        requires
            self.similars@.len() < usize::MAX,
        ensures
            n == self@.members().len(),
    {
        self.similars.len() + 1
    }
}

/// The views of a sequence of groups.
pub open spec fn group_views(groups: Seq<UniqueImage>) -> Seq<GroupView> {
    groups.map_values(|g: UniqueImage| g@)
}

/// The engine: the groups formed so far, in order of creation, and the
/// threshold that decides membership.
#[derive(Debug)]
pub struct ImageManager {
    images: Vec<UniqueImage>,
    threshold: u32,
}

impl ImageManager {
    /// The groups formed so far, in order of creation.
    pub closed spec fn groups(&self) -> Seq<GroupView> {
        group_views(self.images@)
    }

    /// The largest distance at which an image joins a group.
    pub closed spec fn limit(&self) -> u32 {
        self.threshold
    }

    /// Every member of every group is within the threshold of the
    /// representative of its group, and no representative is within the
    /// threshold of the representative of an earlier group.
    pub open spec fn wf(&self) -> bool {
        &&& anchored(self.groups(), self.limit())
        &&& apart(self.groups(), self.limit())
    }

    /// An engine without groups.
    pub fn new(threshold: u32) -> (manager: ImageManager)
        ensures
            manager.groups() == Seq::<GroupView>::empty(),
            manager.limit() == threshold,
            manager.wf(),
    {
        let manager = ImageManager { images: Vec::new(), threshold };
        assert(manager.groups() =~= Seq::<GroupView>::empty());
        manager
    }

    /// The largest distance at which an image joins a group.
    pub fn threshold(&self) -> (threshold: u32)
        ensures
            threshold == self.limit(),
    {
        self.threshold
    }

    /// Adds an image: it joins the first group, in order of creation, whose
    /// representative is within the threshold of it; if there is none, it
    /// founds a new group, which comes last.
    pub fn add(&mut self, image: Image)
        requires
            old(self).wf(),
        ensures
            final(self).groups() == add_image(old(self).groups(), image@, old(self).limit()),
            final(self).limit() == old(self).limit(),
            final(self).wf(),
    {
        let ghost before = self.groups();
        let ghost joining = image@;
        proof {
            let any = |i: ImageView| true;
            assert(all_members(before, any));
            lemma_add_image_keeps(before, joining, self.limit(), any);
        }
        let mut i: usize = 0;
        while i < self.images.len()
            invariant
                i <= self.images@.len(),
                joining == image@,
                before == old(self).groups(),
                anchored(add_image(before, joining, self.limit()), self.limit()),
                apart(add_image(before, joining, self.limit()), self.limit()),
                self.groups() == before,
                self.limit() == old(self).limit(),
                forall|j: int| 0 <= j < i ==> !close(joining, (#[trigger] before[j]).img, self.limit()),
            decreases self.images@.len() - i,
        {
            if image.distance(&self.images[i].img) <= self.threshold {
                proof {
                    assert(before[i as int] == self.images@[i as int]@);
                    lemma_joins_first_match(before, joining, self.threshold, i as int);
                }
                let ghost group = self.images@[i as int];
                self.images[i].similars.push(image);
                proof {
                    assert(self.images@[i as int]@.similars =~= group@.similars.push(joining));
                    assert(self.groups() =~= before.update(i as int, before[i as int].joined(joining)));
                }
                return ;
            }
            proof {
                assert(before[i as int] == self.images@[i as int]@);
            }
            i += 1;
        }
        self.images.push(UniqueImage { img: image, similars: Vec::new() });
        proof {
            assert(matches_none(before, joining, self.threshold));
            assert(self.images@.last()@.similars =~= Seq::<ImageView>::empty());
            assert(self.groups() =~= before.push(GroupView::solo(joining)));
        }
    }

    /// Adds each of the images, in order.
    pub fn add_all(&mut self, images: Vec<Image>)
        requires
            old(self).wf(),
        ensures
            final(self).groups() == add_images(
                old(self).groups(),
                image_views(images@),
                old(self).limit(),
            ),
            final(self).limit() == old(self).limit(),
            final(self).wf(),
    {
        let ghost before = self.groups();
        let ghost all = image_views(images@);
        for image in it: images
            invariant
                image_views(it.seq()) == all,
                self.wf(),
                self.limit() == old(self).limit(),
                self.groups() == add_images(before, all.take(it.index() as int), self.limit()),
        {
            proof {
                let next = all.take(it.index() + 1);
                assert(next.drop_last() == all.take(it.index() as int));
                assert(next.last() == image@);
            }
            self.add(image);
        }
        proof {
            assert(all.take(all.len() as int) == all);
        }
    }

    /// Ends the engine and hands out its groups, in order of creation.
    pub fn into_vec(self) -> (groups: Vec<UniqueImage>)
        requires
            self.wf(),
        ensures
            group_views(groups@) == self.groups(),
            anchored(group_views(groups@), self.limit()),
            apart(group_views(groups@), self.limit()),
    {
        self.images
    }
}

/// Groups the images: the same as adding them all, in order, to a new engine
/// and taking its groups. Every member of a group is within the threshold of
/// the representative of the group, and no representative is within the
/// threshold of the representative of an earlier group.
pub fn find_uniques(images: Vec<Image>, threshold: u32) -> (groups: Vec<UniqueImage>)
    ensures
        group_views(groups@) == cluster(image_views(images@), threshold),
        anchored(group_views(groups@), threshold),
        apart(group_views(groups@), threshold),
{
    let mut mgr = ImageManager::new(threshold);
    mgr.add_all(images);
    mgr.into_vec()
}

} // verus!
