//! What holds of the groups that the clustering engine forms, whatever the
//! images: each fact is stated over `cluster` and proved from its definition.

use vstd::prelude::*;
use crate::compare::{
    add_image,
    add_images,
    close,
    cluster,
    lemma_joins_first_match,
    matches_first,
    matches_none,
    GroupView,
};
use crate::distance::{
    hamming,
    lemma_hamming_self,
    lemma_hamming_symmetric,
    lemma_hamming_zero_iff_equal,
};
use crate::img::ImageView;
use vstd::seq_lib::{lemma_multiset_commutative, to_multiset_build};

verus! {

/// `m` is the place of a member in group `g`.
pub open spec fn is_place(groups: Seq<GroupView>, g: int, m: int) -> bool {
    0 <= g < groups.len() && 0 <= m < groups[g].members().len()
}

/// The member at place `m` of group `g`.
pub open spec fn member(groups: Seq<GroupView>, g: int, m: int) -> ImageView {
    groups[g].members()[m]
}

/// Every member of every group is within the threshold of the representative
/// of its group.
pub open spec fn anchored(groups: Seq<GroupView>, threshold: u32) -> bool {
    forall|g: int, m: int| #[trigger]
        is_place(groups, g, m) ==> close(member(groups, g, m), groups[g].img, threshold)
}

/// No representative is within the threshold of the representative of a
/// group that was created before its own.
pub open spec fn apart(groups: Seq<GroupView>, threshold: u32) -> bool {
    forall|i: int, j: int|
        #![trigger groups[i], groups[j]]
        0 <= i < j < groups.len() ==> !close(groups[j].img, groups[i].img, threshold)
}

/// Every member of every group satisfies `p`.
pub open spec fn all_members(groups: Seq<GroupView>, p: spec_fn(ImageView) -> bool) -> bool {
    forall|g: int, m: int| #[trigger] is_place(groups, g, m) ==> p(member(groups, g, m))
}

/// Where some group matches an image, some group is the first to match it.
pub proof fn lemma_first_match_exists(
    groups: Seq<GroupView>,
    image: ImageView,
    threshold: u32,
    j: int,
)
    requires
        0 <= j < groups.len(),
        close(image, groups[j].img, threshold),
    ensures
        exists|k: int| matches_first(groups, image, threshold, k),
    decreases j,
{
    if forall|i: int| 0 <= i < j ==> !close(image, (#[trigger] groups[i]).img, threshold) {
        assert(matches_first(groups, image, threshold, j));
    } else {
        let i = choose|i: int| 0 <= i < j && close(image, (#[trigger] groups[i]).img, threshold);
        lemma_first_match_exists(groups, image, threshold, i);
    }
}

/// An image either founds a new last group or joins the first group that
/// matches it; no other group changes.
pub proof fn lemma_add_image_cases(groups: Seq<GroupView>, image: ImageView, threshold: u32)
    ensures
        matches_none(groups, image, threshold) ==> add_image(groups, image, threshold)
            == groups.push(GroupView::solo(image)),
        !matches_none(groups, image, threshold) ==> exists|k: int|
            matches_first(groups, image, threshold, k) && add_image(groups, image, threshold)
                == groups.update(k, groups[k].joined(image)),
{
    if !matches_none(groups, image, threshold) {
        let j = choose|j: int|
            0 <= j < groups.len() && close(image, (#[trigger] groups[j]).img, threshold);
        lemma_first_match_exists(groups, image, threshold, j);
        let k = choose|k: int| matches_first(groups, image, threshold, k);
        lemma_joins_first_match(groups, image, threshold, k);
    }
}

/// Adding an image keeps every member near its representative and the
/// representatives apart, and keeps any property that the image shares with
/// the members.
pub proof fn lemma_add_image_keeps(
    groups: Seq<GroupView>,
    image: ImageView,
    threshold: u32,
    p: spec_fn(ImageView) -> bool,
)
    requires
        anchored(groups, threshold),
        apart(groups, threshold),
        all_members(groups, p),
        p(image),
    ensures
        anchored(add_image(groups, image, threshold), threshold),
        apart(add_image(groups, image, threshold), threshold),
        all_members(add_image(groups, image, threshold), p),
{
    let after = add_image(groups, image, threshold);
    lemma_add_image_cases(groups, image, threshold);
    lemma_hamming_self(image.hash);
    if matches_none(groups, image, threshold) {
        let last = groups.len() as int;
        assert forall|g: int, m: int| #[trigger] is_place(after, g, m) implies close(
            member(after, g, m),
            after[g].img,
            threshold,
        ) && p(member(after, g, m)) by {
            if g < last {
                assert(is_place(groups, g, m));
                assert(member(after, g, m) == member(groups, g, m));
            } else {
                assert(member(after, g, m) == image);
            }
        }
        assert forall|i: int, j: int|
            #![trigger after[i], after[j]]
            0 <= i < j < after.len() implies !close(after[j].img, after[i].img, threshold) by {
            if j < last {
                assert(!close(groups[j].img, groups[i].img, threshold));
            } else {
                assert(!close(image, groups[i].img, threshold));
            }
        }
    } else {
        let k = choose|k: int|
            matches_first(groups, image, threshold, k) && after == groups.update(
                k,
                groups[k].joined(image),
            );
        assert forall|g: int, m: int| #[trigger] is_place(after, g, m) implies close(
            member(after, g, m),
            after[g].img,
            threshold,
        ) && p(member(after, g, m)) by {
            if g == k && m == groups[k].members().len() {
                assert(member(after, g, m) == image);
            } else {
                assert(is_place(groups, g, m));
                assert(member(after, g, m) == member(groups, g, m));
            }
        }
        assert forall|i: int, j: int|
            #![trigger after[i], after[j]]
            0 <= i < j < after.len() implies !close(after[j].img, after[i].img, threshold) by {
            assert(!close(groups[j].img, groups[i].img, threshold));
        }
    }
}

/// Adding images, one after another, keeps what adding one image keeps.
pub proof fn lemma_add_images_keeps(
    groups: Seq<GroupView>,
    images: Seq<ImageView>,
    threshold: u32,
    p: spec_fn(ImageView) -> bool,
)
    requires
        anchored(groups, threshold),
        apart(groups, threshold),
        all_members(groups, p),
        forall|i: int| 0 <= i < images.len() ==> p(#[trigger] images[i]),
    ensures
        anchored(add_images(groups, images, threshold), threshold),
        apart(add_images(groups, images, threshold), threshold),
        all_members(add_images(groups, images, threshold), p),
    decreases images.len(),
{
    if images.len() > 0 {
        lemma_add_images_keeps(groups, images.drop_last(), threshold, p);
        lemma_add_image_keeps(
            add_images(groups, images.drop_last(), threshold),
            images.last(),
            threshold,
            p,
        );
    }
}

/// In the groups that any images fall into, every member is within the
/// threshold of the representative of its group.
pub proof fn lemma_members_near_representative(images: Seq<ImageView>, threshold: u32)
    ensures
        anchored(cluster(images, threshold), threshold),
{
    lemma_add_images_keeps(Seq::empty(), images, threshold, |i: ImageView| true);
}

/// In the groups that any images fall into, no representative is within the
/// threshold of the representative of an earlier group.
pub proof fn lemma_representatives_apart(images: Seq<ImageView>, threshold: u32)
    ensures
        apart(cluster(images, threshold), threshold),
{
    lemma_add_images_keeps(Seq::empty(), images, threshold, |i: ImageView| true);
}

/// Every member of every group is one of the images that were added.
pub proof fn lemma_members_come_from_input(images: Seq<ImageView>, threshold: u32)
    ensures
        all_members(cluster(images, threshold), |i: ImageView| images.contains(i)),
{
    lemma_add_images_keeps(Seq::empty(), images, threshold, |i: ImageView| images.contains(i));
}

/// With a threshold of zero, and hashes that all have the same length, two
/// members are in the same group exactly when their hashes are bit-identical.
pub proof fn lemma_threshold_zero_groups_identical_hashes(
    images: Seq<ImageView>,
    g1: int,
    m1: int,
    g2: int,
    m2: int,
)
    requires
        forall|i: int, j: int|
            0 <= i < images.len() && 0 <= j < images.len() ==> (#[trigger] images[i]).hash.len() == (
            #[trigger] images[j]).hash.len(),
        is_place(cluster(images, 0), g1, m1),
        is_place(cluster(images, 0), g2, m2),
    ensures
        g1 == g2 <==> member(cluster(images, 0), g1, m1).hash == member(
            cluster(images, 0),
            g2,
            m2,
        ).hash,
{
    let groups = cluster(images, 0);
    let first = member(groups, g1, m1);
    let second = member(groups, g2, m2);
    let same_length = |i: ImageView| images.len() > 0 && i.hash.len() == images[0].hash.len();
    lemma_add_images_keeps(Seq::empty(), images, 0, same_length);
    assert(same_length(first) && same_length(second));
    assert(is_place(groups, g1, 0) && is_place(groups, g2, 0));
    assert(member(groups, g1, 0) == groups[g1].img && member(groups, g2, 0) == groups[g2].img);
    assert(same_length(groups[g1].img) && same_length(groups[g2].img));
    lemma_hamming_zero_iff_equal(first.hash, groups[g1].img.hash);
    lemma_hamming_zero_iff_equal(second.hash, groups[g2].img.hash);
    assert(first.hash == groups[g1].img.hash);
    assert(second.hash == groups[g2].img.hash);
    if g1 != g2 {
        lemma_hamming_self(groups[g1].img.hash);
        if g1 < g2 {
            assert(!close(groups[g2].img, groups[g1].img, 0));
        } else {
            assert(!close(groups[g1].img, groups[g2].img, 0));
        }
    }
}

/// The members of all the groups: group after group, each with its
/// representative first.
pub open spec fn all_images(groups: Seq<GroupView>) -> Seq<ImageView>
    decreases groups.len(),
{
    if groups.len() == 0 {
        Seq::empty()
    } else {
        all_images(groups.drop_last()) + groups.last().members()
    }
}

/// An image that joins a group is one more member, and no member is lost.
pub proof fn lemma_join_adds_one_member(groups: Seq<GroupView>, k: int, image: ImageView)
    requires
        0 <= k < groups.len(),
    ensures
        all_images(groups.update(k, groups[k].joined(image))).to_multiset() == all_images(
            groups,
        ).to_multiset().insert(image),
    decreases groups.len(),
{
    let after = groups.update(k, groups[k].joined(image));
    if k == groups.len() - 1 {
        assert(after.drop_last() == groups.drop_last());
        assert(after.last().members() == groups.last().members().push(image));
        assert(all_images(after) == all_images(groups).push(image));
        to_multiset_build(all_images(groups), image);
    } else {
        assert(after.drop_last() == groups.drop_last().update(k, groups[k].joined(image)));
        assert(groups.drop_last()[k] == groups[k]);
        lemma_join_adds_one_member(groups.drop_last(), k, image);
        lemma_multiset_commutative(all_images(after.drop_last()), groups.last().members());
        lemma_multiset_commutative(all_images(groups.drop_last()), groups.last().members());
        assert(all_images(after).to_multiset() =~= all_images(groups).to_multiset().insert(image));
    }
}

/// Adding an image adds it to the members once, and changes no other member.
pub proof fn lemma_add_image_adds_one_member(
    groups: Seq<GroupView>,
    image: ImageView,
    threshold: u32,
)
    ensures
        all_images(add_image(groups, image, threshold)).to_multiset() == all_images(
            groups,
        ).to_multiset().insert(image),
{
    lemma_add_image_cases(groups, image, threshold);
    if matches_none(groups, image, threshold) {
        let after = groups.push(GroupView::solo(image));
        assert(after.drop_last() == groups);
        assert(after.last().members() == seq![image]);
        assert(all_images(after) == all_images(groups).push(image));
        to_multiset_build(all_images(groups), image);
    } else {
        let k = choose|k: int|
            matches_first(groups, image, threshold, k) && add_image(groups, image, threshold)
                == groups.update(k, groups[k].joined(image));
        lemma_join_adds_one_member(groups, k, image);
    }
}

/// The groups part the images: taken together, the members of the groups
/// that any images fall into are those images, each as often as it was
/// added. So every image is in a group, and in one place only.
pub proof fn lemma_groups_part_the_images(images: Seq<ImageView>, threshold: u32)
    ensures
        all_images(cluster(images, threshold)).to_multiset() == images.to_multiset(),
        all_images(cluster(images, threshold)).len() == images.len(),
    decreases images.len(),
{
    if images.len() == 0 {
        assert(all_images(cluster(images, threshold)) == Seq::<ImageView>::empty());
        assert(images == Seq::<ImageView>::empty());
    } else {
        lemma_groups_part_the_images(images.drop_last(), threshold);
        lemma_add_image_adds_one_member(
            cluster(images.drop_last(), threshold),
            images.last(),
            threshold,
        );
        assert(images == images.drop_last().push(images.last()));
        to_multiset_build(images.drop_last(), images.last());
    }
    all_images(cluster(images, threshold)).to_multiset_ensures();
    images.to_multiset_ensures();
}

/// The groups after one more image has been added to those that `images` fall into.
pub proof fn lemma_cluster_push(images: Seq<ImageView>, image: ImageView, threshold: u32)
    ensures
        cluster(images.push(image), threshold) == add_image(
            cluster(images, threshold),
            image,
            threshold,
        ),
{
    assert(images.push(image).drop_last() == images);
}

/// The grouping depends on the order of the images. Let `b` be within the
/// threshold of both `a` and `c`, and `a` and `c` farther apart than the
/// threshold. Added in the order `a`, `b`, `c`, the images form the group of
/// `a`, which `b` joins, and then the group of `c`. Added in the order `c`,
/// `b`, `a`, they form the group of `c`, which `b` joins, and then the group
/// of `a`.
pub proof fn lemma_order_decides_groups(a: ImageView, b: ImageView, c: ImageView, threshold: u32)
    requires
        close(b, a, threshold),
        close(b, c, threshold),
        !close(a, c, threshold),
    ensures
        cluster(seq![a, b, c], threshold) == seq![
            GroupView { img: a, similars: seq![b] },
            GroupView::solo(c),
        ],
        cluster(seq![c, b, a], threshold) == seq![
            GroupView { img: c, similars: seq![b] },
            GroupView::solo(a),
        ],
{
    lemma_hamming_symmetric(a.hash, c.hash);
    lemma_first_then_second(a, b, c, threshold);
    lemma_first_then_second(c, b, a, threshold);
}

/// Three images of which the second is within the threshold of the first,
/// and the third is not: the second joins the group of the first, and the
/// third founds a group.
pub proof fn lemma_first_then_second(x: ImageView, y: ImageView, z: ImageView, threshold: u32)
    requires
        close(y, x, threshold),
        !close(z, x, threshold),
    ensures
        cluster(seq![x, y, z], threshold) == seq![
            GroupView { img: x, similars: seq![y] },
            GroupView::solo(z),
        ],
{
    let none = Seq::<ImageView>::empty();
    let one = seq![GroupView::solo(x)];
    let two = seq![GroupView { img: x, similars: seq![y] }];
    assert(cluster(none, threshold) == Seq::<GroupView>::empty());
    lemma_cluster_push(none, x, threshold);
    assert(none.push(x) == seq![x]);
    assert(matches_none(Seq::<GroupView>::empty(), x, threshold));
    assert(Seq::<GroupView>::empty().push(GroupView::solo(x)) == one);
    assert(cluster(seq![x], threshold) == one);
    lemma_cluster_push(seq![x], y, threshold);
    assert(seq![x].push(y) == seq![x, y]);
    assert(matches_first(one, y, threshold, 0));
    lemma_joins_first_match(one, y, threshold, 0);
    assert(one[0].joined(y).similars == seq![y]);
    assert(one.update(0, one[0].joined(y)) == two);
    assert(cluster(seq![x, y], threshold) == two);
    lemma_cluster_push(seq![x, y], z, threshold);
    assert(seq![x, y].push(z) == seq![x, y, z]);
    assert(matches_none(two, z, threshold));
    assert(two.push(GroupView::solo(z)) == seq![
        GroupView { img: x, similars: seq![y] },
        GroupView::solo(z),
    ]);
}

} // verus!
