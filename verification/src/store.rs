//! The store: which scanned directories become entries, which file previews
//! an entry, what a deletion removes and when a creation collides.
//!
//! The caller walks the disk and reports what it found; the store decides.

use crate::artifact::{has_preview_extension, is_preview_image};
use crate::naming::{dir_name, dir_name_of, matches_invoice};
use crate::record::Racun;
use vstd::prelude::*;
use vstd::string::*;

verus! {

/// What came of reading and decoding the document of one directory.
#[derive(Debug)]
pub enum LoadOutcome {
    /// The document is missing or could not be read.
    Unreadable,
    /// The document was read and is no invoice record.
    Malformed,
    /// The document was decoded.
    Loaded(Racun),
}

/// One entry of the invoice root, as the caller found it.
#[derive(Debug)]
pub struct ScannedEntry {
    pub path: String,
    /// The last component of `path`.
    pub name: String,
    pub is_dir: bool,
    pub document: LoadOutcome,
}

/// What came of listing the invoice root.
#[derive(Debug)]
pub enum RootScan {
    /// The root is missing or may not be listed.
    Unreadable,
    /// The entries of the root, in the order in which the disk gave them.
    Listed(Vec<ScannedEntry>),
}

/// What a listing does about a document that is no invoice record.
#[derive(Clone, Copy, Debug, PartialEq, Eq, Structural)]
pub enum Policy {
    /// The whole listing fails.
    Strict,
    /// The directory is left out and the listing goes on.
    Lenient,
}

/// Why an operation of the store failed.
#[derive(Debug)]
pub enum StoreError {
    /// The invoice root could not be listed.
    DirectoryUnreadable,
    /// The document under `path` is no invoice record.
    MalformedRecord { path: String },
    /// A directory called `name` is already there.
    CreationConflict { name: String },
    /// The directory `path` is still there after the attempt to remove it.
    RemovalFailed { path: String },
}

/// An invoice record with the directory that backs it.
#[derive(Debug)]
pub struct StoreEntry {
    pub record: Racun,
    pub path: String,
    /// The last component of `path`.
    pub name: String,
}

/// Why a directory of the root is missing from a listing.
#[derive(Clone, Copy, Debug, PartialEq, Eq, Structural)]
pub enum SkipReason {
    /// Its document is missing or could not be read.
    EntryUnreadable,
    /// Its document is no invoice record.
    MalformedRecord,
}

/// A directory that a listing left out, and why.
#[derive(Debug)]
pub struct Skipped {
    pub path: String,
    pub reason: SkipReason,
}

/// What a scan of the root yields: the entries, and the directories that
/// were left out, each in scan order.
#[derive(Debug)]
pub struct Listing {
    pub entries: Vec<StoreEntry>,
    pub skipped: Vec<Skipped>,
}

/// One file of an entry's directory, as the caller found it.
#[derive(Debug)]
pub struct ScannedFile {
    pub path: String,
    /// The last component of `path`.
    pub name: String,
}

/// What came of the attempt to remove one directory.
#[derive(Clone, Copy, Debug, PartialEq, Eq, Structural)]
pub enum Removal {
    /// The directory was removed.
    Removed,
    /// There was no such directory.
    Missing,
    /// The directory is still there.
    Failed,
}

impl ScannedEntry {
    /// A directory whose document was decoded.
    pub open spec fn is_loaded(&self) -> bool {
        self.is_dir && self.document is Loaded
    }

    /// A directory whose document is no invoice record.
    pub open spec fn is_malformed(&self) -> bool {
        self.is_dir && self.document is Malformed
    }

    /// A directory without a decoded document.
    pub open spec fn is_skipped(&self) -> bool {
        self.is_dir && !(self.document is Loaded)
    }

    /// The note that a listing makes of a directory that it leaves out.
    pub open spec fn as_skipped(&self) -> Skipped {
        Skipped {
            path: self.path,
            reason: if self.document is Malformed {
                SkipReason::MalformedRecord
            } else {
                SkipReason::EntryUnreadable
            },
        }
    }

    /// The store entry that a loaded directory becomes.
    pub open spec fn as_entry(&self) -> StoreEntry {
        StoreEntry { record: self.document->Loaded_0, path: self.path, name: self.name }
    }
}

/// The entries that a scan yields: the loaded directories, in scan order.
pub open spec fn listed(scan: Seq<ScannedEntry>) -> Seq<StoreEntry>
    decreases scan.len(),
{
    if scan.len() == 0 {
        Seq::empty()
    } else if scan.last().is_loaded() {
        listed(scan.drop_last()).push(scan.last().as_entry())
    } else {
        listed(scan.drop_last())
    }
}

/// The directories that a scan leaves out: those without a decoded
/// document, in scan order.
pub open spec fn skipped(scan: Seq<ScannedEntry>) -> Seq<Skipped>
    decreases scan.len(),
{
    if scan.len() == 0 {
        Seq::empty()
    } else if scan.last().is_skipped() {
        skipped(scan.drop_last()).push(scan.last().as_skipped())
    } else {
        skipped(scan.drop_last())
    }
}

/// Whether `at` is the first directory of the scan with a malformed document.
pub open spec fn is_first_malformed(scan: Seq<ScannedEntry>, at: int) -> bool {
    &&& 0 <= at < scan.len()
    &&& scan[at].is_malformed()
    &&& forall|j: int| 0 <= j < at ==> !(#[trigger] scan[j]).is_malformed()
}

/// Whether no directory of the scan has a malformed document.
pub open spec fn none_malformed(scan: Seq<ScannedEntry>) -> bool {
    forall|j: int| 0 <= j < scan.len() ==> !(#[trigger] scan[j]).is_malformed()
}

/// What a listing owes for a scanned root under a policy.
///
/// An unreadable root fails the listing. Entries that are no directories are
/// passed over. A directory without a readable document is left out and
/// noted. A malformed document fails the listing under the strict policy, with
/// the path of the first such directory; under the lenient one its directory
/// is left out and noted.
pub open spec fn is_listing(root: RootScan, policy: Policy, result: Result<Listing, StoreError>) -> bool {
    match root {
        RootScan::Unreadable => result == Err::<Listing, StoreError>(
            StoreError::DirectoryUnreadable,
        ),
        RootScan::Listed(scan) => match result {
            Ok(listing) => {
                &&& listing.entries@ == listed(scan@)
                &&& listing.skipped@ == skipped(scan@)
                &&& policy == Policy::Strict ==> none_malformed(scan@)
            },
            Err(StoreError::MalformedRecord { path }) => {
                &&& policy == Policy::Strict
                &&& exists|at: int| is_first_malformed(scan@, at) && path == scan@[at].path
            },
            Err(_) => false,
        },
    }
}

/// Lists the invoices of a scanned root, in scan order.
pub fn list_invoices(root: RootScan, policy: Policy) -> (result: Result<Listing, StoreError>)
    ensures
        is_listing(root, policy, result),
{
    match root {
        RootScan::Unreadable => Err(StoreError::DirectoryUnreadable),
        RootScan::Listed(scan) => {
            let ghost all = scan@;
            let mut entries: Vec<StoreEntry> = Vec::new();
            let mut left_out: Vec<Skipped> = Vec::new();
            for entry in it: scan
                invariant
                    it.seq() == all,
                    root matches RootScan::Listed(whole) && whole@ == all,
                    entries@ == listed(all.subrange(0, it.index())),
                    left_out@ == skipped(all.subrange(0, it.index())),
                    policy == Policy::Strict ==> none_malformed(all.subrange(0, it.index())),
            {
                let ghost done = it.index();
                proof {
                    let upto = all.subrange(0, done + 1);
                    assert(entry == all[done]);
                    assert(upto.drop_last() =~= all.subrange(0, done));
                    assert(upto.last() == entry);
                }
                if entry.is_dir {
                    match entry.document {
                        LoadOutcome::Loaded(record) => {
                            entries.push(StoreEntry { record, path: entry.path, name: entry.name });
                        },
                        LoadOutcome::Malformed => {
                            if policy == Policy::Strict {
                                proof {
                                    assert forall|j: int| 0 <= j < done implies !(#[trigger] all[j]).is_malformed() by {
                                        assert(all.subrange(0, done)[j] == all[j]);
                                    }
                                    assert(is_first_malformed(all, done));
                                }
                                return Err(StoreError::MalformedRecord { path: entry.path });
                            }
                            left_out.push(
                                Skipped { path: entry.path, reason: SkipReason::MalformedRecord },
                            );
                        },
                        LoadOutcome::Unreadable => {
                            left_out.push(
                                Skipped { path: entry.path, reason: SkipReason::EntryUnreadable },
                            );
                        },
                    }
                }
                proof {
                    let upto = all.subrange(0, done + 1);
                    if policy == Policy::Strict {
                        assert forall|j: int| 0 <= j < upto.len() implies !(#[trigger] upto[j]).is_malformed() by {
                            if j < done {
                                assert(all.subrange(0, done)[j] == upto[j]);
                            }
                        }
                    }
                }
            }
            assert(all.subrange(0, all.len() as int) =~= all);
            Ok(Listing { entries, skipped: left_out })
        },
    }
}

/// Whether `at` is the first file of the directory that is a preview image.
pub open spec fn is_first_preview(files: Seq<ScannedFile>, at: int) -> bool {
    &&& 0 <= at < files.len()
    &&& is_preview_image(files[at].name@)
    &&& forall|j: int| 0 <= j < at ==> !is_preview_image((#[trigger] files[j]).name@)
}

/// The preview image among the files of an entry's directory: the path of
/// the first file, in the order given, whose name marks a preview image.
pub fn resolve_preview_image(files: &Vec<ScannedFile>) -> (found: Option<String>)
    ensures
        match found {
            Some(path) => exists|at: int| is_first_preview(files@, at) && path == files@[at].path,
            None => forall|j: int| 0 <= j < files.len() ==> !is_preview_image((#[trigger] files@[j]).name@),
        },
{
    let mut at: usize = 0;
    while at < files.len()
        invariant
            at <= files.len(),
            forall|j: int| 0 <= j < at ==> !is_preview_image((#[trigger] files@[j]).name@),
        decreases files.len() - at,
    {
        if has_preview_extension(files[at].name.as_str()) {
            assert(is_first_preview(files@, at as int));
            return Some(files[at].path.clone());
        }
        at = at + 1;
    }
    None
}

/// The paths of the entries whose directory is called `name`, in list order.
pub open spec fn removal_targets(entries: Seq<StoreEntry>, name: Seq<char>) -> Seq<String>
    decreases entries.len(),
{
    if entries.len() == 0 {
        Seq::empty()
    } else if entries.last().name@ == name {
        removal_targets(entries.drop_last(), name).push(entries.last().path)
    } else {
        removal_targets(entries.drop_last(), name)
    }
}

/// The attempt to remove one directory, and what came of it.
#[derive(Debug)]
pub struct RemovalAttempt {
    pub path: String,
    pub removal: Removal,
}

/// Whether `at` is the first attempt after which the directory is still there.
pub open spec fn is_first_failure(attempts: Seq<RemovalAttempt>, at: int) -> bool {
    &&& 0 <= at < attempts.len()
    &&& attempts[at].removal == Removal::Failed
    &&& forall|j: int| 0 <= j < at ==> (#[trigger] attempts[j]).removal != Removal::Failed
}

/// Whether every directory is gone after the attempts.
pub open spec fn all_gone(attempts: Seq<RemovalAttempt>) -> bool {
    forall|j: int| 0 <= j < attempts.len() ==> (#[trigger] attempts[j]).removal != Removal::Failed
}

/// The outcome of a deletion, from what came of removing each of its
/// directories. A directory that was not there counts as removed: the deletion
/// succeeds when nothing is left, and fails with the first directory that is.
pub fn conclude_delete(attempts: &Vec<RemovalAttempt>) -> (result: Result<(), StoreError>)
    ensures
        match result {
            Ok(_) => all_gone(attempts@),
            Err(StoreError::RemovalFailed { path }) => exists|at: int|
                is_first_failure(attempts@, at) && path == attempts@[at].path,
            Err(_) => false,
        },
{
    let mut at: usize = 0;
    while at < attempts.len()
        invariant
            at <= attempts.len(),
            forall|j: int| 0 <= j < at ==> (#[trigger] attempts@[j]).removal != Removal::Failed,
        decreases attempts.len() - at,
    {
        if attempts[at].removal == Removal::Failed {
            assert(is_first_failure(attempts@, at as int));
            return Err(StoreError::RemovalFailed { path: attempts[at].path.clone() });
        }
        at = at + 1;
    }
    Ok(())
}

/// Whether a directory called `name` is among `existing`.
pub open spec fn name_taken(existing: Seq<String>, name: Seq<char>) -> bool {
    exists|j: int| 0 <= j < existing.len() && (#[trigger] existing[j])@ == name
}

/// The name of the directory to create for a record, given the names that the
/// invoice root already holds. A name that is taken is a conflict, and nothing
/// is to be written.
pub fn create_invoice(existing: &Vec<String>, record: &Racun) -> (result: Result<String, StoreError>)
    ensures
        match result {
            Ok(name) => {
                &&& name@ == dir_name_of(record.invoice_number as int)
                &&& !name_taken(existing@, name@)
            },
            Err(StoreError::CreationConflict { name }) => {
                &&& name@ == dir_name_of(record.invoice_number as int)
                &&& name_taken(existing@, name@)
            },
            Err(_) => false,
        },
{
    let name = dir_name(record.invoice_number);
    let mut at: usize = 0;
    while at < existing.len()
        invariant
            at <= existing.len(),
            name@ == dir_name_of(record.invoice_number as int),
            forall|j: int| 0 <= j < at ==> (#[trigger] existing@[j])@ != name@,
        decreases existing.len() - at,
    {
        if existing[at] == name {
            assert(name_taken(existing@, name@));
            return Err(StoreError::CreationConflict { name });
        }
        at = at + 1;
    }
    Ok(name)
}

/// The list of invoices that a caller holds between two scans.
#[derive(Debug)]
pub struct Store {
    pub entries: Vec<StoreEntry>,
    pub policy: Policy,
}

impl Store {
    /// A store that has not scanned anything yet.
    pub fn new(policy: Policy) -> (store: Store)
        ensures
            store.entries@ == Seq::<StoreEntry>::empty(),
            store.policy == policy,
    {
        Store { entries: Vec::new(), policy }
    }

    /// Replaces the list by the listing of a new scan, and returns the
    /// directories that the listing left out. Where the listing fails, the
    /// list stays as it was.
    pub fn refresh(&mut self, root: RootScan) -> (result: Result<Vec<Skipped>, StoreError>)
        ensures
            final(self).policy == old(self).policy,
            match result {
                Ok(left_out) => is_listing(
                    root,
                    old(self).policy,
                    Ok::<Listing, StoreError>(
                        (Listing { entries: final(self).entries, skipped: left_out }),
                    ),
                ),
                Err(error) => {
                    &&& is_listing(root, old(self).policy, Err::<Listing, StoreError>(error))
                    &&& final(self).entries == old(self).entries
                },
            },
    {
        match list_invoices(root, self.policy) {
            Ok(listing) => {
                self.entries = listing.entries;
                Ok(listing.skipped)
            },
            Err(error) => Err(error),
        }
    }

    /// The directories to remove in order to delete invoice `number`: those
    /// of the entries whose directory name is exactly the number in decimal.
    /// Where no entry has that name there is nothing to remove, and the
    /// deletion is concluded as a success. The list itself stays as it is
    /// until the next refresh.
    pub fn delete_invoice(&self, number: i32) -> (paths: Vec<String>)
        ensures
            paths@ == removal_targets(self.entries@, dir_name_of(number as int)),
    {
        let mut paths: Vec<String> = Vec::new();
        let mut at: usize = 0;
        while at < self.entries.len()
            invariant
                at <= self.entries.len(),
                paths@ == removal_targets(
                    self.entries@.subrange(0, at as int),
                    dir_name_of(number as int),
                ),
            decreases self.entries.len() - at,
        {
            proof {
                let upto = self.entries@.subrange(0, at + 1);
                assert(upto.drop_last() =~= self.entries@.subrange(0, at as int));
                assert(upto.last() == self.entries@[at as int]);
            }
            if matches_invoice(&self.entries[at].name, number) {
                paths.push(self.entries[at].path.clone());
            }
            at = at + 1;
        }
        assert(self.entries@.subrange(0, at as int) =~= self.entries@);
        paths
    }
}

} // verus!
