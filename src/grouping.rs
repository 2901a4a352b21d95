//! Partitioning hashed files by digest into duplicate groups.
use crate::models::{digest_of, DuplicateGroup, FileEntry};
use vstd::prelude::*;

verus! {

/// The entries of `files` whose digest is `d`, in their order in `files`.
pub open spec fn members_with(files: Seq<FileEntry>, d: Seq<char>) -> Seq<FileEntry>
    decreases files.len(),
{
    if files.len() == 0 {
        Seq::empty()
    } else {
        let rest = members_with(files.drop_last(), d);
        if digest_of(files.last()) == Some(d) {
            rest.push(files.last())
        } else {
            rest
        }
    }
}

/// `groups` is the duplicate grouping of `files`: each group holds exactly the
/// entries with its digest, in input order, and at least two of them; no digest
/// has two groups; every digest shared by two or more entries has a group.
/// Entries without a digest belong to no group.
pub open spec fn is_grouping(files: Seq<FileEntry>, groups: Seq<DuplicateGroup>) -> bool {
    &&& forall|i: int|
        0 <= i < groups.len() ==> #[trigger] groups[i].files@ == members_with(files, groups[i].hash@)
            && groups[i].files@.len() >= 2
    &&& forall|i: int, j: int|
        0 <= i < groups.len() && 0 <= j < groups.len() && i != j ==> groups[i].hash@
            != groups[j].hash@
    &&& forall|k: int|
        0 <= k < files.len() && #[trigger] digest_of(files[k]) is Some && members_with(
            files,
            digest_of(files[k])->0,
        ).len() >= 2 ==> exists|i: int|
            0 <= i < groups.len() && groups[i].hash@ == digest_of(files[k])->0
}

/// Every member of `members_with(files, d)` has digest `d` and is an entry of `files`.
pub proof fn lemma_members_sound(files: Seq<FileEntry>, d: Seq<char>)
    ensures
        forall|m: int|
            0 <= m < members_with(files, d).len() ==> digest_of(
                #[trigger] members_with(files, d)[m],
            ) == Some(d) && files.contains(members_with(files, d)[m]),
    decreases files.len(),
{
    if files.len() > 0 {
        lemma_members_sound(files.drop_last(), d);
        let rest = members_with(files.drop_last(), d);
        assert forall|m: int| 0 <= m < members_with(files, d).len() implies digest_of(
            #[trigger] members_with(files, d)[m],
        ) == Some(d) && files.contains(members_with(files, d)[m]) by {
            if m < rest.len() {
                assert(members_with(files, d)[m] == rest[m]);
                let x = choose|x: int| 0 <= x < files.drop_last().len() && files.drop_last()[x] == rest[m];
                assert(files[x] == rest[m]);
            } else {
                assert(files[files.len() - 1] == files.last());
            }
        }
    }
}

/// An entry of `files` with digest `d` is among `members_with(files, d)`, and
/// two distinct positions with digest `d` make at least two members.
pub proof fn lemma_members_complete(files: Seq<FileEntry>, d: Seq<char>, a: int, b: int)
    requires
        0 <= a < files.len(),
        digest_of(files[a]) == Some(d),
        0 <= b < files.len(),
        digest_of(files[b]) == Some(d),
    ensures
        members_with(files, d).contains(files[a]),
        a != b ==> members_with(files, d).len() >= 2,
    decreases files.len(),
{
    let rest = members_with(files.drop_last(), d);
    let last = files.len() - 1;
    if a == last && b == last {
        assert(members_with(files, d)[rest.len() as int] == files[a]);
    } else if a == last {
        lemma_members_complete(files.drop_last(), d, b, b);
        assert(files.drop_last()[b] == files[b]);
        assert(members_with(files, d)[rest.len() as int] == files[a]);
    } else if b == last {
        assert(files.drop_last()[a] == files[a]);
        lemma_members_complete(files.drop_last(), d, a, a);
        let x = choose|x: int| 0 <= x < rest.len() && rest[x] == files[a];
        assert(members_with(files, d)[x] == files[a]);
    } else {
        assert(files.drop_last()[a] == files[a]);
        assert(files.drop_last()[b] == files[b]);
        lemma_members_complete(files.drop_last(), d, a, b);
        let x = choose|x: int| 0 <= x < rest.len() && rest[x] == files[a];
        assert(members_with(files, d)[x] == files[a]);
    }
}

/// Whether some group of `groups` has digest `h`.
fn has_group(groups: &Vec<DuplicateGroup>, h: &String) -> (r: bool)
    ensures
        r == exists|i: int| 0 <= i < groups@.len() && groups@[i].hash@ == h@,
{
    let mut i: usize = 0;
    while i < groups.len()
        invariant
            i <= groups@.len(),
            forall|j: int| 0 <= j < i ==> groups@[j].hash@ != h@,
        decreases groups@.len() - i,
    {
        if groups[i].hash == *h {
            return true;
        }
        i = i + 1;
    }
    false
}

/// The entries of `files` with digest `h`, in input order.
fn collect_members(files: &Vec<FileEntry>, h: &String) -> (r: Vec<FileEntry>)
    ensures
        r@ == members_with(files@, h@),
{
    let mut out: Vec<FileEntry> = Vec::new();
    let mut j: usize = 0;
    while j < files.len()
        invariant
            j <= files@.len(),
            out@ == members_with(files@.take(j as int), h@),
        decreases files@.len() - j,
    {
        assert(files@.take(j + 1).drop_last() == files@.take(j as int));
        assert(files@.take(j + 1).last() == files@[j as int]);
        let same = match &files[j].hash {
            Some(x) => *x == *h,
            None => false,
        };
        if same {
            out.push(files[j].duplicate());
        }
        j = j + 1;
    }
    assert(files@.take(files@.len() as int) == files@);
    out
}

/// Groups `files` by digest. Groups come in the order in which their digest
/// first occurs in `files`; the members of a group keep their input order.
pub fn group_by_digest(files: &Vec<FileEntry>) -> (r: Vec<DuplicateGroup>)
    ensures
        is_grouping(files@, r@),
{
    let mut groups: Vec<DuplicateGroup> = Vec::new();
    let mut i: usize = 0;
    while i < files.len()
        invariant
            i <= files@.len(),
            forall|g: int|
                0 <= g < groups@.len() ==> #[trigger] groups@[g].files@ == members_with(
                    files@,
                    groups@[g].hash@,
                ) && groups@[g].files@.len() >= 2,
            forall|g: int, h: int|
                0 <= g < groups@.len() && 0 <= h < groups@.len() && g != h ==> groups@[g].hash@
                    != groups@[h].hash@,
            forall|k: int|
                0 <= k < i && #[trigger] digest_of(files@[k]) is Some && members_with(
                    files@,
                    digest_of(files@[k])->0,
                ).len() >= 2 ==> exists|g: int|
                    0 <= g < groups@.len() && groups@[g].hash@ == digest_of(files@[k])->0,
        decreases files@.len() - i,
    {
        if let Some(h) = &files[i].hash {
            if !has_group(&groups, h) {
                let members = collect_members(files, h);
                if members.len() >= 2 {
                    let ghost old_groups = groups@;
                    groups.push(DuplicateGroup { hash: h.clone(), files: members });
                    assert forall|k: int|
                        0 <= k <= i && #[trigger] digest_of(files@[k]) is Some && members_with(
                            files@,
                            digest_of(files@[k])->0,
                        ).len() >= 2 implies exists|g: int|
                        0 <= g < groups@.len() && groups@[g].hash@ == digest_of(files@[k])->0 by {
                        if k < i {
                            let g = choose|g: int|
                                0 <= g < old_groups.len() && old_groups[g].hash@ == digest_of(
                                    files@[k],
                                )->0;
                            assert(groups@[g] == old_groups[g]);
                        } else {
                            assert(groups@[old_groups.len() as int].hash@ == h@);
                        }
                    }
                }
            }
        }
        i = i + 1;
    }
    groups
}

/// No entry smaller than `min_size` is in any group, where no input entry is.
pub proof fn lemma_groups_respect_min_size(
    files: Seq<FileEntry>,
    groups: Seq<DuplicateGroup>,
    min_size: u64,
)
    requires
        is_grouping(files, groups),
        forall|k: int| 0 <= k < files.len() ==> #[trigger] files[k].size >= min_size,
    ensures
        forall|i: int, m: int|
            0 <= i < groups.len() && 0 <= m < groups[i].files@.len() ==> #[trigger] groups[i].files@[m].size
                >= min_size,
{
    assert forall|i: int, m: int|
        0 <= i < groups.len() && 0 <= m < groups[i].files@.len() implies #[trigger] groups[i].files@[m].size
        >= min_size by {
        lemma_members_sound(files, groups[i].hash@);
        assert(groups[i].files@ == members_with(files, groups[i].hash@));
        assert(files.contains(members_with(files, groups[i].hash@)[m]));
    }
}

/// Every group has at least two members, and each member's digest is the
/// group's digest.
pub proof fn lemma_members_share_digest(files: Seq<FileEntry>, groups: Seq<DuplicateGroup>)
    requires
        is_grouping(files, groups),
    ensures
        forall|i: int, m: int|
            0 <= i < groups.len() && 0 <= m < groups[i].files@.len() ==> groups[i].files@.len()
                >= 2 && digest_of(#[trigger] groups[i].files@[m]) == Some(groups[i].hash@),
{
    assert forall|i: int, m: int|
        0 <= i < groups.len() && 0 <= m < groups[i].files@.len() implies groups[i].files@.len()
        >= 2 && digest_of(#[trigger] groups[i].files@[m]) == Some(groups[i].hash@) by {
        lemma_members_sound(files, groups[i].hash@);
        assert(groups[i].files@ == members_with(files, groups[i].hash@));
    }
}

/// Two entries at distinct positions whose digests are both that of the
/// same content `content` land in one group.
pub proof fn lemma_same_content_same_group(
    files: Seq<FileEntry>,
    groups: Seq<DuplicateGroup>,
    content: Seq<u8>,
    a: int,
    b: int,
)
    requires
        is_grouping(files, groups),
        0 <= a < files.len(),
        0 <= b < files.len(),
        a != b,
        digest_of(files[a]) == Some(crate::hashing::sha256_hex_of(content)),
        digest_of(files[b]) == Some(crate::hashing::sha256_hex_of(content)),
    ensures
        exists|i: int|
            0 <= i < groups.len() && groups[i].files@.contains(files[a]) && groups[i].files@.contains(
                files[b],
            ),
{
    let d = crate::hashing::sha256_hex_of(content);
    lemma_members_complete(files, d, a, b);
    lemma_members_complete(files, d, b, a);
    assert(digest_of(files[a]) is Some);
    let i = choose|i: int| 0 <= i < groups.len() && groups[i].hash@ == digest_of(files[a])->0;
    assert(groups[i].files@ == members_with(files, d));
}

/// Two entries with different digests never share a group.
pub proof fn lemma_distinct_digests_apart(
    files: Seq<FileEntry>,
    groups: Seq<DuplicateGroup>,
    x: FileEntry,
    y: FileEntry,
)
    requires
        is_grouping(files, groups),
        digest_of(x) != digest_of(y),
    ensures
        forall|i: int|
            0 <= i < groups.len() ==> !(groups[i].files@.contains(x) && groups[i].files@.contains(
                y,
            )),
{
    assert forall|i: int| 0 <= i < groups.len() implies !(groups[i].files@.contains(x)
        && groups[i].files@.contains(y)) by {
        lemma_members_sound(files, groups[i].hash@);
        assert(groups[i].files@ == members_with(files, groups[i].hash@));
    }
}

/// Some group of `groups` has the digest of `g` and the same members as `g`,
/// counted with multiplicity and in any order.
pub open spec fn has_same_group(g: DuplicateGroup, groups: Seq<DuplicateGroup>) -> bool {
    exists|j: int|
        0 <= j < groups.len() && groups[j].hash@ == g.hash@ && groups[j].files@.to_multiset()
            =~= g.files@.to_multiset()
}

/// Each entry occurs among `members_with(files, d)` as often as in `files`
/// when its digest is `d`, and not at all otherwise.
pub proof fn lemma_members_count(files: Seq<FileEntry>, d: Seq<char>, x: FileEntry)
    ensures
        members_with(files, d).to_multiset().count(x) == if digest_of(x) == Some(d) {
            files.to_multiset().count(x)
        } else {
            0
        },
    decreases files.len(),
{
    broadcast use vstd::seq_lib::group_to_multiset_ensures;
    broadcast use vstd::multiset::group_multiset_axioms;

    if files.len() == 0 {
        assert(files.to_multiset().count(x) == 0);
        assert(members_with(files, d).to_multiset().count(x) == 0);
    } else {
        lemma_members_count(files.drop_last(), d, x);
        assert(files == files.drop_last().push(files.last()));
    }
}

/// Lists of files that hold the same entries, in any order, select the same
/// members under every digest.
pub proof fn lemma_members_permutation(files1: Seq<FileEntry>, files2: Seq<FileEntry>, d: Seq<char>)
    requires
        files1.to_multiset() =~= files2.to_multiset(),
    ensures
        members_with(files1, d).to_multiset() =~= members_with(files2, d).to_multiset(),
        members_with(files1, d).len() == members_with(files2, d).len(),
{
    broadcast use vstd::seq_lib::group_to_multiset_ensures;

    assert forall|x: FileEntry|
        members_with(files1, d).to_multiset().count(x) == members_with(
            files2,
            d,
        ).to_multiset().count(x) by {
        lemma_members_count(files1, d, x);
        lemma_members_count(files2, d, x);
    }
    assert(members_with(files1, d).to_multiset() =~= members_with(files2, d).to_multiset());
    assert(members_with(files1, d).len() == members_with(files1, d).to_multiset().len());
    assert(members_with(files2, d).len() == members_with(files2, d).to_multiset().len());
}

/// Grouping the same files again, even listed in another order, yields the
/// same digests, and under each digest the same members (their order may
/// follow the order of the input).
pub proof fn lemma_grouping_stable(
    files1: Seq<FileEntry>,
    files2: Seq<FileEntry>,
    first: Seq<DuplicateGroup>,
    second: Seq<DuplicateGroup>,
)
    requires
        files1.to_multiset() =~= files2.to_multiset(),
        is_grouping(files1, first),
        is_grouping(files2, second),
    ensures
        forall|i: int| 0 <= i < first.len() ==> has_same_group(#[trigger] first[i], second),
        forall|j: int| 0 <= j < second.len() ==> has_same_group(#[trigger] second[j], first),
{
    lemma_grouping_covered(files1, files2, first, second);
    lemma_grouping_covered(files2, files1, second, first);
}

proof fn lemma_grouping_covered(
    files1: Seq<FileEntry>,
    files2: Seq<FileEntry>,
    first: Seq<DuplicateGroup>,
    second: Seq<DuplicateGroup>,
)
    requires
        files1.to_multiset() =~= files2.to_multiset(),
        is_grouping(files1, first),
        is_grouping(files2, second),
    ensures
        forall|i: int| 0 <= i < first.len() ==> has_same_group(#[trigger] first[i], second),
{
    broadcast use vstd::seq_lib::group_to_multiset_ensures;

    assert forall|i: int| 0 <= i < first.len() implies has_same_group(#[trigger] first[i], second) by {
        let d = first[i].hash@;
        lemma_members_sound(files1, d);
        lemma_members_permutation(files1, files2, d);
        assert(first[i].files@ == members_with(files1, d));
        let m0 = members_with(files1, d)[0];
        assert(files1.contains(m0));
        assert(files1.to_multiset().count(m0) > 0);
        assert(files2.contains(m0));
        let k = choose|k: int| 0 <= k < files2.len() && files2[k] == m0;
        assert(digest_of(files2[k]) == Some(d));
        let j = choose|j: int| 0 <= j < second.len() && second[j].hash@ == digest_of(files2[k])->0;
        assert(second[j].files@ == members_with(files2, second[j].hash@));
        assert(second[j].hash@ == first[i].hash@ && second[j].files@.to_multiset()
            =~= first[i].files@.to_multiset());
    }
}

} // verus!
