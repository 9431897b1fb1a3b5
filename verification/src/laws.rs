//! What holds of the store's operations taken together.

use crate::artifact::is_preview_image;
use crate::naming::{dir_name_of, lemma_dir_name_injective};
use crate::store::{
    all_gone, is_first_malformed, is_first_preview, listed, removal_targets, skipped,
    Removal, RemovalAttempt, ScannedEntry, ScannedFile, StoreEntry,
};
use vstd::prelude::*;

verus! {

/// The invoice root after the directories under `paths` were removed: the
/// scan without the entries under those paths, the others in their order.
pub open spec fn without_paths(scan: Seq<ScannedEntry>, paths: Seq<String>) -> Seq<ScannedEntry>
    decreases scan.len(),
{
    if scan.len() == 0 {
        Seq::empty()
    } else if paths.contains(scan.last().path) {
        without_paths(scan.drop_last(), paths)
    } else {
        without_paths(scan.drop_last(), paths).push(scan.last())
    }
}

/// The invoice root after invoice `number` was deleted by a store that had
/// listed this very scan: the directories that the deletion names are gone.
pub open spec fn after_delete(scan: Seq<ScannedEntry>, number: i32) -> Seq<ScannedEntry> {
    without_paths(scan, removal_targets(listed(scan), dir_name_of(number as int)))
}

/// Whether every loaded directory of the scan is named after the number of
/// the record that it holds.
pub open spec fn follows_naming(scan: Seq<ScannedEntry>) -> bool {
    forall|i: int|
        0 <= i < scan.len() && (#[trigger] scan[i]).is_loaded() ==> scan[i].name@ == dir_name_of(
            scan[i].document->Loaded_0.invoice_number as int,
        )
}

/// Every listed entry is a loaded directory of the scan, carried over as it
/// was found: the position of that directory is returned.
pub proof fn lemma_listed_origin(scan: Seq<ScannedEntry>, k: int) -> (i: int)
    requires
        0 <= k < listed(scan).len(),
    ensures
        0 <= i < scan.len(),
        scan[i].is_loaded(),
        listed(scan)[k] == scan[i].as_entry(),
    decreases scan.len(),
{
    let before = scan.drop_last();
    if scan.last().is_loaded() && k == listed(before).len() {
        scan.len() - 1
    } else {
        let i = lemma_listed_origin(before, k);
        assert(before[i] == scan[i]);
        i
    }
}

/// Every loaded directory of the scan is listed, with the record, the path
/// and the name that the scan gave: the position of its entry is returned.
pub proof fn lemma_loaded_is_listed(scan: Seq<ScannedEntry>, i: int) -> (k: int)
    requires
        0 <= i < scan.len(),
        scan[i].is_loaded(),
    ensures
        0 <= k < listed(scan).len(),
        listed(scan)[k] == scan[i].as_entry(),
        listed(scan)[k].record == scan[i].document->Loaded_0,
    decreases scan.len(),
{
    let before = scan.drop_last();
    if i == scan.len() - 1 {
        listed(before).len() as int
    } else {
        assert(before[i] == scan[i]);
        let k = lemma_loaded_is_listed(before, i);
        k
    }
}

/// Every directory without a decoded document is noted as left out: the
/// position of its note is returned.
pub proof fn lemma_skipped_is_noted(scan: Seq<ScannedEntry>, i: int) -> (k: int)
    requires
        0 <= i < scan.len(),
        scan[i].is_skipped(),
    ensures
        0 <= k < skipped(scan).len(),
        skipped(scan)[k] == scan[i].as_skipped(),
    decreases scan.len(),
{
    let before = scan.drop_last();
    if i == scan.len() - 1 {
        skipped(before).len() as int
    } else {
        assert(before[i] == scan[i]);
        let k = lemma_skipped_is_noted(before, i);
        k
    }
}

/// Every directory of the scan is either listed or noted as left out, never
/// both: the entries and the notes together are as many as the directories.
pub proof fn lemma_listed_or_skipped(scan: Seq<ScannedEntry>)
    ensures
        listed(scan).len() + skipped(scan).len() == scan.filter(|e: ScannedEntry| e.is_dir).len(),
    decreases scan.len(),
{
    reveal(Seq::filter);
    if scan.len() > 0 {
        lemma_listed_or_skipped(scan.drop_last());
    }
}

/// A scan has at most one first directory with a malformed document, so the
/// error of a strict listing is determined.
pub proof fn lemma_first_malformed_unique(scan: Seq<ScannedEntry>, a: int, b: int)
    requires
        is_first_malformed(scan, a),
        is_first_malformed(scan, b),
    ensures
        a == b,
{
    if a < b {
        assert(!scan[a].is_malformed());
    } else if b < a {
        assert(!scan[b].is_malformed());
    }
}

/// A directory has at most one first preview image, so the image that is
/// resolved is determined.
pub proof fn lemma_first_preview_unique(files: Seq<ScannedFile>, a: int, b: int)
    requires
        is_first_preview(files, a),
        is_first_preview(files, b),
    ensures
        a == b,
{
    if a < b {
        assert(!is_preview_image(files[a].name@));
    } else if b < a {
        assert(!is_preview_image(files[b].name@));
    }
}

/// In a directory with exactly one preview image, that file is the one that
/// is resolved.
pub proof fn lemma_only_preview_is_first(files: Seq<ScannedFile>, at: int)
    requires
        0 <= at < files.len(),
        is_preview_image(files[at].name@),
        forall|j: int|
            0 <= j < files.len() && j != at ==> !is_preview_image(
                (#[trigger] files[j]).name@,
            ),
    ensures
        is_first_preview(files, at),
{
}

/// The listing keeps the order of the scan: of two listed entries, the
/// earlier one comes from the earlier directory.
pub proof fn lemma_listed_in_scan_order(scan: Seq<ScannedEntry>, k1: int, k2: int) -> (at: (int, int))
    requires
        0 <= k1 < k2 < listed(scan).len(),
    ensures
        0 <= at.0 < at.1 < scan.len(),
        scan[at.0].is_loaded(),
        scan[at.1].is_loaded(),
        listed(scan)[k1] == scan[at.0].as_entry(),
        listed(scan)[k2] == scan[at.1].as_entry(),
    decreases scan.len(),
{
    let before = scan.drop_last();
    if scan.last().is_loaded() && k2 == listed(before).len() {
        let i = lemma_listed_origin(before, k1);
        assert(before[i] == scan[i]);
        (i, scan.len() - 1)
    } else {
        let at = lemma_listed_in_scan_order(before, k1, k2);
        assert(before[at.0] == scan[at.0]);
        assert(before[at.1] == scan[at.1]);
        at
    }
}

/// Whether no two entries of the scan have the same name, as a disk
/// guarantees of the entries of one directory.
pub open spec fn names_distinct(scan: Seq<ScannedEntry>) -> bool {
    forall|i: int, j: int|
        0 <= i < j < scan.len() ==> (#[trigger] scan[i]).name@ != (#[trigger] scan[j]).name@
}

/// Where the directories are named after their records and no two share a
/// name, no two listed records share an invoice number.
pub proof fn lemma_numbers_unique(scan: Seq<ScannedEntry>, k1: int, k2: int)
    requires
        follows_naming(scan),
        names_distinct(scan),
        0 <= k1 < k2 < listed(scan).len(),
    ensures
        listed(scan)[k1].record.invoice_number != listed(scan)[k2].record.invoice_number,
{
    let at = lemma_listed_in_scan_order(scan, k1, k2);
    assert(scan[at.0].name@ != scan[at.1].name@);
}

/// What is left after a removal was there before, under a path that was
/// not removed: the position in the scan of an entry that is left is returned.
pub proof fn lemma_without_origin(scan: Seq<ScannedEntry>, paths: Seq<String>, k: int) -> (i: int)
    requires
        0 <= k < without_paths(scan, paths).len(),
    ensures
        0 <= i < scan.len(),
        !paths.contains(scan[i].path),
        without_paths(scan, paths)[k] == scan[i],
    decreases scan.len(),
{
    let before = scan.drop_last();
    if !paths.contains(scan.last().path) && k == without_paths(before, paths).len() {
        scan.len() - 1
    } else {
        let i = lemma_without_origin(before, paths, k);
        assert(before[i] == scan[i]);
        i
    }
}

/// A deletion names the path of every entry whose directory is called `name`.
pub proof fn lemma_named_is_targeted(entries: Seq<StoreEntry>, name: Seq<char>, k: int)
    requires
        0 <= k < entries.len(),
        entries[k].name@ == name,
    ensures
        removal_targets(entries, name).contains(entries[k].path),
    decreases entries.len(),
{
    let before = entries.drop_last();
    let targets = removal_targets(entries, name);
    if k == entries.len() - 1 {
        assert(targets[targets.len() - 1] == entries[k].path);
    } else {
        assert(before[k] == entries[k]);
        lemma_named_is_targeted(before, name, k);
        let j = choose|j: int|
            0 <= j < removal_targets(before, name).len() && removal_targets(before, name)[j]
                == entries[k].path;
        assert(targets[j] == entries[k].path);
    }
}

/// Among entries of which none is called `name`, a deletion finds nothing to
/// remove.
pub proof fn lemma_no_targets(entries: Seq<StoreEntry>, name: Seq<char>)
    requires
        forall|k: int| 0 <= k < entries.len() ==> (#[trigger] entries[k]).name@ != name,
    ensures
        removal_targets(entries, name) == Seq::<String>::empty(),
    decreases entries.len(),
{
    if entries.len() > 0 {
        let before = entries.drop_last();
        assert forall|k: int| 0 <= k < before.len() implies (#[trigger] before[k]).name@ != name by {
            assert(before[k] == entries[k]);
        }
        lemma_no_targets(before, name);
        assert(entries.last() == entries[entries.len() - 1]);
    }
}

/// Once a store that had listed the scan has deleted invoice `number`, a new
/// listing holds no entry whose directory carries that number; and where the
/// directories are named after their records, it holds no record with that
/// number either.
pub proof fn lemma_deleted_is_not_listed(scan: Seq<ScannedEntry>, number: i32)
    ensures
        forall|k: int|
            0 <= k < listed(after_delete(scan, number)).len() ==> (#[trigger] listed(
                after_delete(scan, number),
            )[k]).name@ != dir_name_of(number as int),
        follows_naming(scan) ==> forall|k: int|
            0 <= k < listed(after_delete(scan, number)).len() ==> (#[trigger] listed(
                after_delete(scan, number),
            )[k]).record.invoice_number != number,
{
    let name = dir_name_of(number as int);
    let targets = removal_targets(listed(scan), name);
    let left = after_delete(scan, number);
    assert forall|k: int| 0 <= k < listed(left).len() implies (#[trigger] listed(left)[k]).name@
        != name && (follows_naming(scan) ==> listed(left)[k].record.invoice_number != number) by {
        let j = lemma_listed_origin(left, k);
        let i = lemma_without_origin(scan, targets, j);
        if scan[i].name@ == name {
            let held = lemma_loaded_is_listed(scan, i);
            lemma_named_is_targeted(listed(scan), name, held);
        }
    }
}

/// Deleting twice: once invoice `number` is deleted and the root is listed
/// anew, a second deletion has nothing to remove, and a deletion with nothing
/// to remove succeeds.
pub proof fn lemma_second_delete_succeeds(scan: Seq<ScannedEntry>, number: i32)
    ensures
        removal_targets(listed(after_delete(scan, number)), dir_name_of(number as int))
            == Seq::<String>::empty(),
        all_gone(Seq::<RemovalAttempt>::empty()),
{
    lemma_deleted_is_not_listed(scan, number);
    lemma_no_targets(listed(after_delete(scan, number)), dir_name_of(number as int));
}

/// Deleting twice without listing anew: a deletion whose directories are all
/// missing already succeeds.
pub proof fn lemma_missing_is_success(attempts: Seq<RemovalAttempt>)
    requires
        forall|j: int| 0 <= j < attempts.len() ==> (#[trigger] attempts[j]).removal == Removal::Missing,
    ensures
        all_gone(attempts),
{
}

/// Removing the same directories twice changes nothing the second time.
pub proof fn lemma_removal_idempotent(scan: Seq<ScannedEntry>, paths: Seq<String>)
    ensures
        without_paths(without_paths(scan, paths), paths) == without_paths(scan, paths),
    decreases scan.len(),
{
    if scan.len() > 0 {
        let before = scan.drop_last();
        lemma_removal_idempotent(before, paths);
        if !paths.contains(scan.last().path) {
            let left = without_paths(before, paths);
            assert(left.push(scan.last()).drop_last() =~= left);
        }
    }
}

/// Two invoices with different numbers never share a directory: a directory
/// named after one number holds no other.
pub proof fn lemma_exact_match(a: i32, b: i32)
    requires
        a != b,
    ensures
        dir_name_of(a as int) != dir_name_of(b as int),
{
    if dir_name_of(a as int) == dir_name_of(b as int) {
        lemma_dir_name_injective(a as int, b as int);
    }
}

} // verus!
