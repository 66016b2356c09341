//! Collecting one directory's raw items into a sorted list of entries.
//!
//! A raw item survives collection exactly when it carries a textual name
//! and fetched metadata; a missing link target or an unresolvable owner
//! only leaves the matching field empty. The kept entries are sorted by
//! name in ascending lexicographic order, stably: the sort is stated as a
//! spec-level insertion sort, so the collector's result is a function of
//! its input alone.

use vstd::prelude::*;
use crate::entry::DirectoryEntry;
use crate::kind::DirectoryEntryKind;
use crate::kind::FileTypeFlags;
use crate::order::lemma_lex_lt_irreflexive;
use crate::order::lemma_lex_lt_trans;
use crate::order::lex_lt;
use crate::order::str_lex_lt;
use crate::permissions::UnixPermissions;
use crate::sizes::DigitalSize;
use crate::users::UnixUser;
use crate::users::UserTable;
use crate::users::spec_resolve;

verus! {

/// The metadata read for one directory member.
#[derive(Clone, Copy, Debug, PartialEq, Eq, Structural)]
pub struct RawMetadata {
    pub file_type: FileTypeFlags,
    pub size_in_bytes: u64,
    pub owner_uid: u32,
    pub permissions_mode: u32,
}

/// One raw item yielded by a directory stream: the base name when it was
/// representable as text, the metadata when it could be fetched, and the
/// raw link target when the member is a symbolic link.
pub struct RawDirectoryEntry {
    pub name: Option<String>,
    pub metadata: Option<RawMetadata>,
    pub symlink_path: Option<String>,
}

/// Whether a raw item survives collection: it has a name and metadata.
pub open spec fn keeps(raw: RawDirectoryEntry) -> bool {
    raw.name is Some && raw.metadata is Some
}

/// The entry built from one kept raw item, its owner resolved through the
/// user records.
pub open spec fn entry_of(raw: RawDirectoryEntry, users: Seq<UnixUser>) -> DirectoryEntry
    recommends
        keeps(raw),
{
    DirectoryEntry {
        name: raw.name->0,
        permissions: UnixPermissions { mode: raw.metadata->0.permissions_mode },
        kind: DirectoryEntryKind::spec_from(raw.metadata->0.file_type),
        size: DigitalSize { bytes: raw.metadata->0.size_in_bytes },
        owner: spec_resolve(users, raw.metadata->0.owner_uid),
        symlink_path: raw.symlink_path,
    }
}

/// How many raw items survive collection.
pub open spec fn kept_count(raws: Seq<RawDirectoryEntry>) -> nat
    decreases raws.len(),
{
    if raws.len() == 0 {
        0
    } else {
        kept_count(raws.drop_last()) + if keeps(raws.last()) {
            1nat
        } else {
            0nat
        }
    }
}

/// The entries of the kept raw items, in stream order.
pub open spec fn kept_entries(raws: Seq<RawDirectoryEntry>, users: Seq<UnixUser>) -> Seq<
    DirectoryEntry,
>
    decreases raws.len(),
{
    if raws.len() == 0 {
        Seq::empty()
    } else if keeps(raws.last()) {
        kept_entries(raws.drop_last(), users).push(entry_of(raws.last(), users))
    } else {
        kept_entries(raws.drop_last(), users)
    }
}

/// Strict name order between two entries.
pub open spec fn entry_lt(a: DirectoryEntry, b: DirectoryEntry) -> bool {
    lex_lt(a.name@, b.name@)
}

/// `e` placed into `s` after every entry whose name does not follow its own.
pub open spec fn insert_sorted(e: DirectoryEntry, s: Seq<DirectoryEntry>) -> Seq<DirectoryEntry>
    decreases s.len(),
{
    if s.len() == 0 {
        seq![e]
    } else if entry_lt(e, s[0]) {
        seq![e] + s
    } else {
        seq![s[0]] + insert_sorted(e, s.drop_first())
    }
}

/// The stable insertion sort of `s` by entry name.
pub open spec fn sort_by_name(s: Seq<DirectoryEntry>) -> Seq<DirectoryEntry>
    decreases s.len(),
{
    if s.len() == 0 {
        Seq::empty()
    } else {
        insert_sorted(s.last(), sort_by_name(s.drop_last()))
    }
}

/// Whether entries stand in ascending name order.
pub open spec fn sorted_by_name(s: Seq<DirectoryEntry>) -> bool {
    forall|i: int, j: int| #![trigger s[i], s[j]] 0 <= i < j < s.len() ==> !entry_lt(s[j], s[i])
}

/// Placing one entry grows a sequence by one.
pub proof fn lemma_insert_sorted_len(e: DirectoryEntry, s: Seq<DirectoryEntry>)
    ensures
        insert_sorted(e, s).len() == s.len() + 1,
    decreases s.len(),
{
    if s.len() == 0 {
    } else if entry_lt(e, s[0]) {
    } else {
        lemma_insert_sorted_len(e, s.drop_first());
    }
}

/// Sorting keeps the length.
pub proof fn lemma_sort_len(s: Seq<DirectoryEntry>)
    ensures
        sort_by_name(s).len() == s.len(),
    decreases s.len(),
{
    if s.len() > 0 {
        lemma_sort_len(s.drop_last());
        lemma_insert_sorted_len(s.last(), sort_by_name(s.drop_last()));
    }
}

/// Every element of `insert_sorted(e, s)` is `e` or an element of `s`.
proof fn lemma_insert_sorted_membership(e: DirectoryEntry, s: Seq<DirectoryEntry>)
    ensures
        forall|k: int|
            0 <= k < insert_sorted(e, s).len() ==> (#[trigger] insert_sorted(e, s)[k] == e
                || s.contains(insert_sorted(e, s)[k])),
    decreases s.len(),
{
    let res = insert_sorted(e, s);
    if s.len() == 0 {
    } else if entry_lt(e, s[0]) {
        assert forall|k: int| 0 <= k < res.len() implies (#[trigger] res[k] == e || s.contains(
            res[k],
        )) by {
            if k > 0 {
                assert(res[k] == s[k - 1]);
                assert(s.contains(s[k - 1]));
            }
        }
    } else {
        lemma_insert_sorted_membership(e, s.drop_first());
        let rest = insert_sorted(e, s.drop_first());
        assert forall|k: int| 0 <= k < res.len() implies (#[trigger] res[k] == e || s.contains(
            res[k],
        )) by {
            if k == 0 {
                assert(s.contains(s[0]));
            } else {
                assert(res[k] == rest[k - 1]);
                if rest[k - 1] == e {
                } else {
                    assert(s.drop_first().contains(rest[k - 1]));
                    let m = choose|m: int|
                        0 <= m < s.drop_first().len() && s.drop_first()[m] == rest[k - 1];
                    assert(s[m + 1] == rest[k - 1]);
                    assert(s.contains(s[m + 1]));
                }
            }
        }
    }
}

/// Placing one entry into a sorted sequence keeps it sorted.
proof fn lemma_insert_sorted_sorted(e: DirectoryEntry, s: Seq<DirectoryEntry>)
    requires
        sorted_by_name(s),
    ensures
        sorted_by_name(insert_sorted(e, s)),
    decreases s.len(),
{
    let res = insert_sorted(e, s);
    if s.len() == 0 {
    } else if entry_lt(e, s[0]) {
        assert forall|i: int, j: int|
            #![trigger res[i], res[j]]
            0 <= i < j < res.len() implies !entry_lt(res[j], res[i]) by {
            if i == 0 {
                assert(res[j] == s[j - 1]);
                if entry_lt(s[j - 1], e) {
                    lemma_lex_lt_trans(s[j - 1].name@, e.name@, s[0].name@);
                    if j - 1 == 0 {
                        lemma_lex_lt_irreflexive(s[0].name@);
                    }
                    assert(false);
                }
            } else {
                assert(res[i] == s[i - 1]);
                assert(res[j] == s[j - 1]);
            }
        }
    } else {
        assert(sorted_by_name(s.drop_first()));
        lemma_insert_sorted_sorted(e, s.drop_first());
        lemma_insert_sorted_membership(e, s.drop_first());
        lemma_insert_sorted_len(e, s.drop_first());
        let rest = insert_sorted(e, s.drop_first());
        assert forall|i: int, j: int|
            #![trigger res[i], res[j]]
            0 <= i < j < res.len() implies !entry_lt(res[j], res[i]) by {
            if i == 0 {
                assert(res[j] == rest[j - 1]);
                if rest[j - 1] == e {
                } else {
                    assert(s.drop_first().contains(rest[j - 1]));
                    let m = choose|m: int|
                        0 <= m < s.drop_first().len() && s.drop_first()[m] == rest[j - 1];
                    assert(s[m + 1] == rest[j - 1]);
                }
            } else {
                assert(res[i] == rest[i - 1]);
                assert(res[j] == rest[j - 1]);
            }
        }
    }
}

/// Placing one entry adds exactly that entry to the contents.
proof fn lemma_insert_sorted_multiset(e: DirectoryEntry, s: Seq<DirectoryEntry>)
    ensures
        insert_sorted(e, s).to_multiset() =~= s.to_multiset().insert(e),
    decreases s.len(),
{
    broadcast use vstd::multiset::group_multiset_axioms;

    if s.len() == 0 {
        assert(insert_sorted(e, s) =~= s.push(e));
        vstd::seq_lib::to_multiset_build(s, e);
    } else if entry_lt(e, s[0]) {
        assert(insert_sorted(e, s) =~= s.insert(0, e));
        vstd::seq_lib::to_multiset_insert(s, 0, e);
    } else {
        lemma_insert_sorted_multiset(e, s.drop_first());
        let rest = insert_sorted(e, s.drop_first());
        vstd::seq_lib::lemma_multiset_commutative(seq![s[0]], rest);
        vstd::seq_lib::lemma_multiset_commutative(seq![s[0]], s.drop_first());
        assert(s =~= seq![s[0]] + s.drop_first());
        assert(insert_sorted(e, s).to_multiset() =~= s.to_multiset().insert(e));
    }
}

/// The sort permutes: it keeps exactly the entries it was given, each as
/// often as it occurs.
pub proof fn lemma_sort_multiset(s: Seq<DirectoryEntry>)
    ensures
        sort_by_name(s).to_multiset() =~= s.to_multiset(),
    decreases s.len(),
{
    if s.len() == 0 {
        assert(sort_by_name(s) =~= s);
    } else {
        lemma_sort_multiset(s.drop_last());
        lemma_insert_sorted_multiset(s.last(), sort_by_name(s.drop_last()));
        vstd::seq_lib::to_multiset_build(s.drop_last(), s.last());
        assert(s.drop_last().push(s.last()) =~= s);
    }
}

/// The sort's result stands in ascending name order.
pub proof fn lemma_sort_sorted(s: Seq<DirectoryEntry>)
    ensures
        sorted_by_name(sort_by_name(s)),
    decreases s.len(),
{
    if s.len() > 0 {
        lemma_sort_sorted(s.drop_last());
        lemma_insert_sorted_sorted(s.last(), sort_by_name(s.drop_last()));
    }
}

/// Placing `e` at the first position whose entry follows it is what
/// `insert_sorted` does.
proof fn lemma_insert_sorted_at(s: Seq<DirectoryEntry>, e: DirectoryEntry, j: int)
    requires
        0 <= j <= s.len(),
        forall|k: int| 0 <= k < j ==> !entry_lt(e, #[trigger] s[k]),
        j < s.len() ==> entry_lt(e, s[j]),
    ensures
        insert_sorted(e, s) == s.insert(j, e),
    decreases s.len(),
{
    if s.len() == 0 {
        assert(insert_sorted(e, s) =~= s.insert(0, e));
    } else if entry_lt(e, s[0]) {
        assert(j == 0);
        assert(insert_sorted(e, s) =~= s.insert(0, e));
    } else {
        assert(j >= 1);
        assert forall|k: int| 0 <= k < j - 1 implies !entry_lt(e, #[trigger] s.drop_first()[k]) by {
            assert(s.drop_first()[k] == s[k + 1]);
        }
        if j - 1 < s.drop_first().len() {
            assert(s.drop_first()[j - 1] == s[j]);
        }
        lemma_insert_sorted_at(s.drop_first(), e, j - 1);
        assert(insert_sorted(e, s) =~= s.insert(j, e));
    }
}

/// Sorting an already sorted sequence changes nothing.
pub proof fn lemma_sort_of_sorted(s: Seq<DirectoryEntry>)
    requires
        sorted_by_name(s),
    ensures
        sort_by_name(s) == s,
    decreases s.len(),
{
    if s.len() == 0 {
        assert(sort_by_name(s) =~= s);
    } else {
        assert(sorted_by_name(s.drop_last()));
        lemma_sort_of_sorted(s.drop_last());
        assert forall|k: int| 0 <= k < s.len() - 1 implies !entry_lt(
            s.last(),
            #[trigger] s.drop_last()[k],
        ) by {
            assert(s.drop_last()[k] == s[k]);
        }
        lemma_insert_sorted_at(s.drop_last(), s.last(), s.len() - 1);
        assert(s.drop_last().insert(s.len() - 1, s.last()) =~= s);
    }
}

/// Sorting is idempotent: sorting a second time yields the same order.
pub proof fn lemma_sort_idempotent(s: Seq<DirectoryEntry>)
    ensures
        sort_by_name(sort_by_name(s)) == sort_by_name(s),
{
    lemma_sort_sorted(s);
    lemma_sort_of_sorted(sort_by_name(s));
}

/// The collected entries are exactly as many as the kept raw items.
pub proof fn lemma_kept_entries_len(raws: Seq<RawDirectoryEntry>, users: Seq<UnixUser>)
    ensures
        kept_entries(raws, users).len() == kept_count(raws),
    decreases raws.len(),
{
    if raws.len() > 0 {
        lemma_kept_entries_len(raws.drop_last(), users);
    }
}

/// Inserts one entry into a vector kept in ascending name order.
fn insert_entry(out: &mut Vec<DirectoryEntry>, entry: DirectoryEntry)
    ensures
        final(out)@ == insert_sorted(entry, old(out)@),
{
    let mut j: usize = 0;
    while j < out.len() && !str_lex_lt(entry.name.as_str(), out[j].name.as_str())
        invariant
            j <= out@.len(),
            forall|k: int| 0 <= k < j ==> !entry_lt(entry, #[trigger] out@[k]),
        decreases out@.len() - j,
    {
        j = j + 1;
    }
    proof {
        lemma_insert_sorted_at(out@, entry, j as int);
    }
    out.insert(j, entry);
}

/// Builds the sorted entry list for one directory from the raw items its
/// stream yielded, resolving owners through `users`. A raw item without a
/// textual name or without metadata is dropped; every other item appears
/// exactly once, in ascending name order.
pub fn collect_entries(raws: &Vec<RawDirectoryEntry>, users: &UserTable) -> (entries: Vec<
    DirectoryEntry,
>)
    ensures
        entries@ == sort_by_name(kept_entries(raws@, users.records@)),
        sorted_by_name(entries@),
        entries@.len() == kept_count(raws@),
{
    let mut out: Vec<DirectoryEntry> = Vec::new();
    let mut i: usize = 0;
    proof {
        assert(raws@.take(0) =~= Seq::<RawDirectoryEntry>::empty());
    }
    while i < raws.len()
        invariant
            i <= raws@.len(),
            out@ == sort_by_name(kept_entries(raws@.take(i as int), users.records@)),
        decreases raws@.len() - i,
    {
        let ghost prefix = raws@.take(i as int);
        let ghost prefix1 = raws@.take(i as int + 1);
        proof {
            assert(prefix1.drop_last() =~= prefix);
            assert(prefix1.last() == raws@[i as int]);
        }
        let raw = &raws[i];
        match (&raw.name, &raw.metadata) {
            (Some(member_name), Some(meta)) => {
                let entry = DirectoryEntry {
                    name: member_name.clone(),
                    permissions: UnixPermissions::from(meta.permissions_mode),
                    kind: DirectoryEntryKind::from(meta.file_type),
                    size: DigitalSize::from(meta.size_in_bytes),
                    owner: users.resolve(meta.owner_uid),
                    symlink_path: match &raw.symlink_path {
                        Some(target) => Some(target.clone()),
                        None => None,
                    },
                };
                proof {
                    assert(entry == entry_of(raws@[i as int], users.records@));
                    let ks = kept_entries(prefix, users.records@);
                    let ks1 = kept_entries(prefix1, users.records@);
                    assert(ks1 == ks.push(entry_of(raws@[i as int], users.records@)));
                    assert(ks1.drop_last() =~= ks);
                    assert(ks1.last() == entry_of(raws@[i as int], users.records@));
                }
                insert_entry(&mut out, entry);
            },
            _ => {
                proof {
                    assert(kept_entries(prefix1, users.records@) == kept_entries(
                        prefix,
                        users.records@,
                    ));
                }
            },
        }
        i = i + 1;
    }
    proof {
        assert(raws@.take(raws@.len() as int) =~= raws@);
        lemma_sort_sorted(kept_entries(raws@, users.records@));
        lemma_sort_len(kept_entries(raws@, users.records@));
        lemma_kept_entries_len(raws@, users.records@);
    }
    out
}

} // verus!
