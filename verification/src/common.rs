//! Shared filesystem rules: memory budgets, write quotas, directory listings,
//! text decoding and the decisions around host file operations.

use crate::fs_error::{io_err, IoError, IoErrorKind, MountError, MountErrorView};
use crate::host_path::{path_within, HostPath};
use crate::path_security::{
    is_normal, law_names_are_kept, law_normalized_is_normal, lemma_normal_is_absolute, lemma_split_one_more,
    lemma_virtual_components, normalized, slash_join, virtual_components,
};
use crate::text::{byte_len, cat2, cat3, chars_of, split, utf8_len, views};
use vstd::prelude::*;
use vstd::string::*;
use vstd::utf8::{decode_utf8, valid_utf8};

verus! {

/// Conservative per-item charge for transient listing bookkeeping.
pub const LISTING_ENTRY_MEMORY_USAGE: u64 = 128;

/// `n`, cut off at the largest `u64`.
pub open spec fn capped(n: nat) -> u64 {
    if n > u64::MAX { u64::MAX } else { n as u64 }
}

/// `usize` to `u64` for memory bookkeeping arithmetic.
pub fn as_u64(bytes: usize) -> (r: u64)
    ensures
        r == capped(bytes as nat),
        r as nat == bytes as nat,
{
    bytes as u64
}

/// Memory still available to one operation, plus the configured per-mount
/// limit for error reporting.
#[derive(Clone, Copy, Debug, PartialEq, Eq, Structural)]
pub struct MemoryBudget {
    /// Bytes still available before the mount's limit is exceeded.
    pub available: u64,
    /// The configured per-mount limit, reported in errors.
    pub limit: u64,
}

impl MemoryBudget {
    /// Budget for a mount with nothing retained.
    pub fn full(limit: u64) -> (r: MemoryBudget)
        ensures
            r == (MemoryBudget { available: limit, limit }),
    {
        MemoryBudget { available: limit, limit }
    }

    /// Errors if `bytes` exceeds the available budget.
    pub fn check(self, bytes: u64) -> (r: Result<(), MountError>)
        ensures
            r is Ok <==> bytes <= self.available,
            r is Err ==> r->Err_0@ == MountErrorView::MemoryUsageLimitExceeded(self.limit),
    {
        if bytes > self.available {
            Err(MountError::MemoryUsageLimitExceeded(self.limit))
        } else {
            Ok(())
        }
    }

    /// Returns the budget with `bytes` fewer available, erroring if `bytes`
    /// exceeds what is available.
    pub fn shrink(self, bytes: u64) -> (r: Result<MemoryBudget, MountError>)
        ensures
            r is Ok <==> bytes <= self.available,
            r is Ok ==> r->Ok_0 == (MemoryBudget { available: (self.available - bytes) as u64, limit: self.limit }),
            r is Err ==> r->Err_0@ == MountErrorView::MemoryUsageLimitExceeded(self.limit),
    {
        match self.available.checked_sub(bytes) {
            Some(available) => Ok(MemoryBudget { available, limit: self.limit }),
            None => Err(MountError::MemoryUsageLimitExceeded(self.limit)),
        }
    }

    /// Halves the available budget, for a listing phase that must leave room
    /// for a similarly-sized result phase built from it.
    pub fn halved(self) -> (r: MemoryBudget)
        ensures
            r == half(self),
    {
        MemoryBudget { available: self.available / 2, limit: self.limit }
    }
}

/// The budget with half as much available.
pub open spec fn half(budget: MemoryBudget) -> MemoryBudget {
    MemoryBudget { available: (budget.available / 2) as u64, limit: budget.limit }
}

/// Shrinking by two amounts one after the other is shrinking by their sum.
pub proof fn law_shrink_adds_up(budget: MemoryBudget, a: u64, b: u64)
    requires
        a <= budget.available,
    ensures
        (b <= budget.available - a) <==> (a + b <= budget.available),
        b <= budget.available - a ==> (budget.available - a) - b == budget.available - (a + b),
{
}

/// Per-call mount context shared by the filesystem backends.
pub struct MountContext {
    /// Virtual mount prefix such as `"/mnt/data"`.
    pub mount_virtual: String,
    /// Canonical host directory that backs the mount.
    pub mount_host: HostPath,
    /// Cumulative bytes written through this mount.
    pub write_bytes_used: u64,
    /// Optional cumulative write cap for the mount.
    pub write_bytes_limit: Option<u64>,
    /// Aggregate budget for retained overlay data and transient results.
    pub memory_usage_limit: u64,
}

/// Whether a quota with `used` bytes spent admits `bytes` more.
pub open spec fn write_admitted(used: u64, limit: Option<u64>, bytes: usize) -> bool {
    match limit {
        Some(limit) => capped(used as nat + bytes as nat) <= limit,
        None => true,
    }
}

/// The bytes written after `bytes` more.
pub open spec fn write_committed(used: u64, bytes: usize) -> u64 {
    capped(used as nat + bytes as nat)
}

/// The bytes written after a whole series of writes.
pub open spec fn writes_committed(used: u64, writes: Seq<usize>) -> u64
    decreases writes.len(),
{
    if writes.len() == 0 {
        used
    } else {
        write_committed(writes_committed(used, writes.drop_last()), writes.last())
    }
}

/// Whether a quota admits each of a series of writes in turn.
pub open spec fn writes_admitted(used: u64, limit: Option<u64>, writes: Seq<usize>) -> bool
    decreases writes.len(),
{
    writes.len() == 0 || (writes_admitted(used, limit, writes.drop_last()) && write_admitted(
        writes_committed(used, writes.drop_last()),
        limit,
        writes.last(),
    ))
}

/// The sum of a series of writes.
pub open spec fn total_written(writes: Seq<usize>) -> nat
    decreases writes.len(),
{
    if writes.len() == 0 {
        0
    } else {
        total_written(writes.drop_last()) + writes.last() as nat
    }
}

/// Validates that writing `bytes` would not exceed the mount's quota.
pub fn check_write_limit(bytes: usize, ctx: &MountContext) -> (r: Result<(), MountError>)
    ensures
        r is Ok <==> write_admitted(ctx.write_bytes_used, ctx.write_bytes_limit, bytes),
        r is Err ==> r->Err_0@ == MountErrorView::WriteLimitExceeded(ctx.write_bytes_limit->Some_0),
{
    if let Some(limit) = ctx.write_bytes_limit {
        if ctx.write_bytes_used.saturating_add(as_u64(bytes)) > limit {
            return Err(MountError::WriteLimitExceeded(limit));
        }
    }
    Ok(())
}

/// Records a successful write in the mount's cumulative counter, which counts
/// with and without a quota.
pub fn commit_write_bytes(bytes: usize, ctx: &mut MountContext)
    ensures
        *final(ctx) == (MountContext {
            write_bytes_used: write_committed(old(ctx).write_bytes_used, bytes),
            ..*old(ctx)
        }),
{
    ctx.write_bytes_used = ctx.write_bytes_used.saturating_add(as_u64(bytes));
}

/// The counter is the sum of everything written, it never goes back, and a
/// quota that admits each write before it is committed is never exceeded.
pub proof fn law_checked_writes_stay_within_limit(used: u64, limit: Option<u64>, writes: Seq<usize>)
    requires
        limit is Some ==> used <= limit->Some_0,
        writes_admitted(used, limit, writes),
    ensures
        writes_committed(used, writes) == capped(used as nat + total_written(writes)),
        writes_committed(used, writes) >= used,
        limit is Some ==> writes_committed(used, writes) <= limit->Some_0,
    decreases writes.len(),
{
    if writes.len() > 0 {
        law_checked_writes_stay_within_limit(used, limit, writes.drop_last());
    }
}

// ---------------------------------------------------------------------------
// Reading and writing files
// ---------------------------------------------------------------------------

/// What a host path denotes, symlinks followed.
#[derive(Clone, Copy, Debug, PartialEq, Eq, Structural)]
pub enum FileKind {
    Regular,
    Directory,
    /// A FIFO, socket or device.
    Special,
}

/// Rejects an existing path that is not a regular file: directories get an
/// `IsADirectory` error and special files `PermissionDenied`. A missing path
/// passes.
pub fn reject_non_regular(kind: Option<FileKind>, vpath: &str) -> (r: Result<(), MountError>)
    ensures
        r is Ok <==> kind is None || kind == Some(FileKind::Regular),
        kind == Some(FileKind::Directory) ==> r->Err_0@ == MountErrorView::Io(
            IoErrorKind::IsADirectory,
            "Is a directory"@,
            vpath@,
        ),
        kind == Some(FileKind::Special) ==> r->Err_0@ == MountErrorView::Io(
            IoErrorKind::PermissionDenied,
            "Permission denied"@,
            vpath@,
        ),
{
    match kind {
        Some(FileKind::Directory) => Err(io_err(IoErrorKind::IsADirectory, "Is a directory", vpath)),
        Some(FileKind::Special) => Err(io_err(IoErrorKind::PermissionDenied, "Permission denied", vpath)),
        _ => Ok(()),
    }
}

/// How many bytes may be read from a file whose metadata gives `meta_len`
/// bytes: one more than the budget, so that a file at the limit and a larger
/// one can be told apart.
pub fn read_limit(meta_len: u64, budget: MemoryBudget) -> (r: Result<u64, MountError>)
    ensures
        r is Ok <==> meta_len <= budget.available,
        r is Ok ==> r->Ok_0 == capped(budget.available as nat + 1),
        r is Err ==> r->Err_0@ == MountErrorView::MemoryUsageLimitExceeded(budget.limit),
{
    match budget.check(meta_len) {
        Err(e) => Err(e),
        Ok(()) => Ok(budget.available.saturating_add(1)),
    }
}

/// Accepts the bytes read from a file unless they exceed the budget.
pub fn accept_content(content: Vec<u8>, budget: MemoryBudget) -> (r: Result<Vec<u8>, MountError>)
    ensures
        r is Ok <==> content@.len() <= budget.available,
        r is Ok ==> r->Ok_0@ == content@,
        r is Err ==> r->Err_0@ == MountErrorView::MemoryUsageLimitExceeded(budget.limit),
{
    match budget.check(as_u64(content.len())) {
        Err(e) => Err(e),
        Ok(()) => Ok(content),
    }
}

/// Reading at most the read limit is enough to decide: the part read is
/// accepted exactly when the whole file fits, and is then the whole file.
pub proof fn law_read_limit_decides(file: Seq<u8>, budget: MemoryBudget)
    requires
        file.len() < u64::MAX,
    ensures
        ({
            let limit = capped(budget.available as nat + 1) as int;
            let part = if file.len() <= limit { file } else { file.take(limit) };
            &&& part.len() <= budget.available <==> file.len() <= budget.available
            &&& part.len() <= budget.available ==> part == file
        }),
{
}

/// How `String::from_utf8` fails: the bytes, how many of them are valid, and
/// the length of the invalid sequence (none where the input ends too early).
pub struct Utf8Failure {
    pub bytes: Vec<u8>,
    pub valid_up_to: usize,
    pub error_len: Option<usize>,
}

/// Whether bytes that are not valid UTF-8 end too early: something appended
/// would make them valid.
pub open spec fn utf8_incomplete(bytes: Seq<u8>) -> bool {
    exists|rest: Seq<u8>| valid_utf8(#[trigger] (bytes + rest))
}

/// The length that `Utf8Error::error_len` gives for bytes that do not decode.
pub uninterp spec fn utf8_error_len(bytes: Seq<u8>) -> Option<usize>;

/// `String::from_utf8` with `FromUtf8Error::utf8_error` and `into_bytes`.
///
/// It succeeds exactly on valid UTF-8, with the decoded text. On failure the
/// bytes come back unchanged; `valid_up_to` is the largest length of a valid
/// prefix. There is no `error_len` exactly where the input ends too early;
/// otherwise it is the length, one to three bytes, of the invalid sequence that
/// starts there, and depends on the bytes alone.
#[verifier::external_body]
pub(crate) fn string_from_utf8(bytes: Vec<u8>) -> (r: Result<String, Utf8Failure>)
    ensures
        r is Ok <==> valid_utf8(bytes@),
        r is Ok ==> r->Ok_0@ == decode_utf8(bytes@),
        r is Err ==> {
            let f = r->Err_0;
            &&& f.bytes@ == bytes@
            &&& f.valid_up_to < bytes@.len()
            &&& valid_utf8(bytes@.take(f.valid_up_to as int))
            &&& forall|n: int| f.valid_up_to < n <= bytes@.len() ==> !valid_utf8(#[trigger] bytes@.take(n))
            &&& f.error_len == utf8_error_len(bytes@)
            &&& f.error_len is None <==> utf8_incomplete(bytes@)
            &&& f.error_len is Some ==> 1 <= f.error_len->Some_0 <= 3 && f.valid_up_to + f.error_len->Some_0
                <= bytes@.len()
        },
{
    match String::from_utf8(bytes) {
        Ok(text) => Ok(text),
        Err(err) => {
            let utf8 = err.utf8_error();
            Err(Utf8Failure { valid_up_to: utf8.valid_up_to(), error_len: utf8.error_len(), bytes: err.into_bytes() })
        }
    }
}

/// The error of undecodable bytes: the range runs over the invalid sequence,
/// or to the end of the input where it ends too early.
pub fn utf8_failure_error(failure: Utf8Failure) -> (e: MountError)
    requires
        failure.valid_up_to < failure.bytes@.len(),
        failure.error_len is Some ==> failure.valid_up_to + failure.error_len->Some_0 <= failure.bytes@.len(),
    ensures
        e@ == (MountErrorView::InvalidUtf8 {
            start: failure.valid_up_to,
            end: match failure.error_len {
                Some(len) => (failure.valid_up_to + len) as usize,
                None => failure.bytes@.len() as usize,
            },
            first_byte: failure.bytes@[failure.valid_up_to as int],
            error_len: failure.error_len,
            data: failure.bytes@,
        }),
{
    let total: usize = failure.bytes.len();
    let start: usize = failure.valid_up_to;
    let end: usize = match failure.error_len {
        Some(len) => start + len,
        None => total,
    };
    let first_byte: u8 = failure.bytes[start];
    MountError::InvalidUtf8 { start, end, first_byte, error_len: failure.error_len, data: failure.bytes }
}

/// Converts raw bytes to text, or returns the byte range and first byte of
/// the decode failure.
pub fn bytes_to_utf8(bytes: Vec<u8>) -> (r: Result<String, MountError>)
    ensures
        r is Ok <==> valid_utf8(bytes@),
        r is Ok ==> r->Ok_0@ == decode_utf8(bytes@),
        r is Err ==> match r->Err_0@ {
            MountErrorView::InvalidUtf8 { start, end, first_byte, error_len, data } => {
                &&& data == bytes@
                &&& start < end <= bytes@.len()
                &&& first_byte == bytes@[start as int]
                &&& valid_utf8(bytes@.take(start as int))
                &&& forall|n: int| start < n <= bytes@.len() ==> !valid_utf8(#[trigger] bytes@.take(n))
                &&& error_len == utf8_error_len(bytes@)
                &&& error_len is None <==> utf8_incomplete(bytes@)
                &&& match error_len {
                    Some(len) => end == start + len && 1 <= len <= 3,
                    None => end == bytes@.len(),
                }
            },
            _ => false,
        },
{
    let total: usize = bytes.len();
    proof {
        assert(total == bytes@.len());
    }
    match string_from_utf8(bytes) {
        Ok(text) => Ok(text),
        Err(failure) => Err(utf8_failure_error(failure)),
    }
}

/// `n`, cut off at the largest `i64`.
pub open spec fn capped_i64(n: nat) -> i64 {
    if n > i64::MAX { i64::MAX } else { n as i64 }
}

/// The count that a text write returns: its characters.
pub fn written_chars(content: &str) -> (n: i64)
    ensures
        n == capped_i64(content@.len()),
{
    written_bytes(chars_of(content).len())
}

/// The count that a binary write of `len` bytes returns.
pub fn written_bytes(len: usize) -> (n: i64)
    ensures
        n == capped_i64(len as nat),
{
    if as_u64(len) > 0x7fff_ffff_ffff_ffff { 0x7fff_ffff_ffff_ffff } else { len as i64 }
}

/// What `stat` reports besides times.
#[derive(Clone, Copy, Debug, PartialEq, Eq, Structural)]
pub enum StatSummary {
    Dir { mode: u32 },
    File { mode: u32, size: i64 },
}

/// The permission bits and size reported for a directory or a file of `len` bytes.
pub fn stat_fs(is_dir: bool, len: u64) -> (r: StatSummary)
    ensures
        r == if is_dir {
            StatSummary::Dir { mode: 0o755 }
        } else {
            StatSummary::File { mode: 0o644, size: capped_i64(len as nat) }
        },
{
    if is_dir {
        StatSummary::Dir { mode: 0o755 }
    } else {
        let size: i64 = if len > 0x7fff_ffff_ffff_ffff { 0x7fff_ffff_ffff_ffff } else { len as i64 };
        StatSummary::File { mode: 0o644, size }
    }
}

// ---------------------------------------------------------------------------
// Creating directories
// ---------------------------------------------------------------------------

/// What is found at the path of a directory to be made, symlinks not followed.
#[derive(Clone, Copy, Debug, PartialEq, Eq, Structural)]
pub enum Existing {
    Nothing,
    Directory,
    Other,
}

/// What to do for a `mkdir`.
#[derive(Clone, Copy, Debug, PartialEq, Eq, Structural)]
pub enum MkdirStep {
    /// The directory is there already.
    Finished,
    /// Create the directory alone.
    CreateOne,
    /// Create the directory and its missing parents.
    CreateAll,
}

/// Decides a `mkdir` before anything is created. `existing` is looked up only
/// with `parents`, because creating all parents succeeds silently on an
/// existing directory.
pub fn mkdir_start(parents: bool, exist_ok: bool, existing: Existing, vpath: &str) -> (r: Result<MkdirStep, MountError>)
    ensures
        !parents ==> r == Ok::<MkdirStep, MountError>(MkdirStep::CreateOne),
        parents && existing is Nothing ==> r == Ok::<MkdirStep, MountError>(MkdirStep::CreateAll),
        parents && existing is Directory && exist_ok ==> r == Ok::<MkdirStep, MountError>(MkdirStep::Finished),
        parents && (existing is Other || (existing is Directory && !exist_ok)) ==> r is Err && r->Err_0@
            == MountErrorView::Io(IoErrorKind::AlreadyExists, "File exists"@, vpath@),
{
    if !parents {
        return Ok(MkdirStep::CreateOne);
    }
    match existing {
        Existing::Nothing => Ok(MkdirStep::CreateAll),
        Existing::Directory => {
            if exist_ok {
                Ok(MkdirStep::Finished)
            } else {
                Err(io_err(IoErrorKind::AlreadyExists, "File exists", vpath))
            }
        },
        Existing::Other => Err(io_err(IoErrorKind::AlreadyExists, "File exists", vpath)),
    }
}

/// Decides a `mkdir` after creation was tried: with `exist_ok` an existing
/// directory is no failure, anything else that exists is.
pub fn mkdir_finish(result: Result<(), IoError>, exist_ok: bool, is_dir: bool, vpath: &str) -> (r: Result<(), MountError>)
    ensures
        r is Ok <==> result is Ok || (result->Err_0.kind is AlreadyExists && exist_ok && is_dir),
        r is Err ==> r->Err_0@ == MountErrorView::Io(result->Err_0.kind, result->Err_0.message@, vpath@),
{
    match result {
        Ok(()) => Ok(()),
        Err(err) => {
            let tolerated: bool = match err.kind {
                IoErrorKind::AlreadyExists => exist_ok && is_dir,
                _ => false,
            };
            if tolerated {
                Ok(())
            } else {
                Err(MountError::Io(err, vpath.to_owned()))
            }
        },
    }
}

// ---------------------------------------------------------------------------
// Listing directories
// ---------------------------------------------------------------------------

/// Memory charged for a list of names: their bytes and a fixed amount each.
pub open spec fn listing_bytes(names: Seq<Seq<char>>) -> nat
    decreases names.len(),
{
    if names.len() == 0 {
        0
    } else {
        listing_bytes(names.drop_last()) + utf8_len(names.last()) + LISTING_ENTRY_MEMORY_USAGE as nat
    }
}

/// The virtual path of `child` in `parent`.
pub open spec fn child_path(parent: Seq<char>, child: Seq<char>) -> Seq<char> {
    if parent.len() > 0 && parent.last() == '/' { parent + child } else { parent + "/"@ + child }
}

/// Formats a child virtual path without introducing duplicate separators.
pub fn format_child_path(parent: &str, child: &str) -> (r: String)
    ensures
        r@ == child_path(parent@, child@),
{
    let p: Vec<char> = chars_of(parent);
    if p.len() > 0 && p[p.len() - 1] == '/' {
        cat2(parent, child)
    } else {
        cat3(parent, "/", child)
    }
}

/// A directory entry: its name, and for a symlink where it leads.
pub struct DirEntry {
    pub name: String,
    pub link: EntryLink,
}

/// Where a directory entry leads.
pub enum EntryLink {
    /// The entry is no symlink.
    Plain,
    /// A symlink whose target cannot be canonicalized.
    Broken,
    /// A symlink with its canonical target.
    To(HostPath),
}

impl DirEntry {
    /// Symlinks show only while their canonical target stays inside the mount.
    pub open spec fn visible(self, mount: Seq<crate::host_path::ComponentView>) -> bool {
        match self.link {
            EntryLink::Plain => true,
            EntryLink::Broken => false,
            EntryLink::To(target) => path_within(target@, mount),
        }
    }
}

/// The names of visible directory entries, gathered within a memory budget.
pub struct DirListing {
    pub names: Vec<String>,
    pub memory_usage: u64,
    pub budget: MemoryBudget,
}

impl DirListing {
    /// The names gathered so far are charged for and fit the budget.
    pub open spec fn wf(self) -> bool {
        &&& self.memory_usage == capped(listing_bytes(views(self.names@)))
        &&& self.memory_usage <= self.budget.available
    }

    /// An empty listing.
    pub fn new(budget: MemoryBudget) -> (r: DirListing)
        ensures
            r.wf(),
            r.names@.len() == 0,
            r.budget == budget,
    {
        let names: Vec<String> = Vec::new();
        proof {
            assert(views(names@).len() == 0);
        }
        DirListing { names, memory_usage: 0, budget }
    }

    /// An empty listing for `iterdir_fs`: the names may take half the budget,
    /// which leaves room for the paths built from them.
    pub fn for_iterdir(budget: MemoryBudget) -> (r: DirListing)
        ensures
            r.wf(),
            r.names@.len() == 0,
            r.budget == half(budget),
    {
        DirListing::new(budget.halved())
    }

    /// Takes in one entry of a host directory.
    pub fn add(&mut self, entry: DirEntry, mount_host_path: &HostPath) -> (r: Result<(), MountError>)
        requires
            old(self).wf(),
        ensures
            final(self).budget == old(self).budget,
            !entry.visible(mount_host_path@) ==> r is Ok && final(self).names@ == old(self).names@,
            entry.visible(mount_host_path@) ==> (r is Ok <==> capped(
                listing_bytes(views(old(self).names@).push(entry.name@)),
            ) <= old(self).budget.available),
            entry.visible(mount_host_path@) && r is Ok ==> final(self).names@ == old(self).names@.push(entry.name),
            r is Ok ==> final(self).wf(),
            r is Err ==> final(self).names@ == old(self).names@ && r->Err_0@
                == MountErrorView::MemoryUsageLimitExceeded(old(self).budget.limit),
    {
        let visible: bool = match &entry.link {
            EntryLink::Plain => true,
            EntryLink::Broken => false,
            EntryLink::To(target) => target.starts_with(mount_host_path),
        };
        if !visible {
            return Ok(());
        }
        let ghost before = views(self.names@);
        proof {
            assert(before.push(entry.name@).drop_last() =~= before);
        }
        self.memory_usage = self.memory_usage.saturating_add(as_u64(byte_len(entry.name.as_str()))).saturating_add(
            LISTING_ENTRY_MEMORY_USAGE,
        );
        match self.budget.check(self.memory_usage) {
            Err(e) => Err(e),
            Ok(()) => {
                let ghost name = entry.name@;
                self.names.push(entry.name);
                proof {
                    assert(views(self.names@) =~= before.push(name));
                }
                Ok(())
            },
        }
    }
}

/// The virtual paths of the entries `names` of `vpath`, in their order.
pub open spec fn child_paths(vpath: Seq<char>, names: Seq<Seq<char>>) -> Seq<Seq<char>> {
    names.map_values(|name: Seq<char>| child_path(vpath, name))
}

proof fn lemma_listing_bytes_take(names: Seq<Seq<char>>, k: int)
    requires
        0 <= k <= names.len(),
    ensures
        listing_bytes(names.take(k)) <= listing_bytes(names),
    decreases names.len(),
{
    if k < names.len() {
        assert(names.drop_last().take(k) =~= names.take(k));
        lemma_listing_bytes_take(names.drop_last(), k);
    } else {
        assert(names.take(k) =~= names);
    }
}

/// Lists the virtual paths of the entries that `listing` gathered within half
/// the mount memory budget; the names and the paths built from them are both
/// charged to the whole budget.
pub fn iterdir_fs(listing: DirListing, vpath: &str, budget: MemoryBudget) -> (r: Result<Vec<String>, MountError>)
    requires
        listing.wf(),
        listing.budget == half(budget),
    ensures
        capped(listing_bytes(views(listing.names@))) <= budget.available / 2,
        r is Ok <==> listing.names@.len() == 0 || capped(
            listing_bytes(views(listing.names@)) + listing_bytes(child_paths(vpath@, views(listing.names@))),
        ) <= budget.available,
        r is Ok ==> views(r->Ok_0@) == child_paths(vpath@, views(listing.names@)),
        r is Err ==> r->Err_0@ == MountErrorView::MemoryUsageLimitExceeded(budget.limit),
{
    let names: &Vec<String> = &listing.names;
    let ghost texts = views(names@);
    let ghost paths = child_paths(vpath@, texts);
    let mut memory_usage: u64 = 0;
    let mut i: usize = 0;
    proof {
        assert(texts.take(0) =~= Seq::<Seq<char>>::empty());
    }
    while i < names.len()
        invariant
            i <= names@.len(),
            texts == views(names@),
            listing.wf(),
            listing.budget == half(budget),
            texts == views(listing.names@),
            memory_usage == capped(listing_bytes(texts.take(i as int))),
        decreases names@.len() - i,
    {
        proof {
            assert(texts.take(i + 1).drop_last() =~= texts.take(i as int));
            assert(texts.take(i + 1).last() == names@[i as int]@);
        }
        memory_usage = memory_usage.saturating_add(as_u64(byte_len(names[i].as_str()))).saturating_add(
            LISTING_ENTRY_MEMORY_USAGE,
        );
        i = i + 1;
    }
    proof {
        assert(texts.take(texts.len() as int) =~= texts);
        assert(paths.take(0) =~= Seq::<Seq<char>>::empty());
    }
    let mut result: Vec<String> = Vec::new();
    let mut k: usize = 0;
    proof {
        assert(views(result@) =~= paths.take(0));
    }
    while k < names.len()
        invariant
            k <= names@.len(),
            texts == views(names@),
            listing.wf(),
            listing.budget == half(budget),
            texts == views(listing.names@),
            paths == child_paths(vpath@, texts),
            memory_usage == capped(listing_bytes(texts) + listing_bytes(paths.take(k as int))),
            k > 0 ==> memory_usage <= budget.available,
            views(result@) == paths.take(k as int),
        decreases names@.len() - k,
    {
        let path: String = format_child_path(vpath, names[k].as_str());
        proof {
            assert(paths.take(k + 1).drop_last() =~= paths.take(k as int));
            assert(paths.take(k + 1).last() == path@);
            lemma_listing_bytes_take(paths, k + 1);
        }
        memory_usage = memory_usage.saturating_add(as_u64(byte_len(path.as_str()))).saturating_add(
            LISTING_ENTRY_MEMORY_USAGE,
        );
        match budget.check(memory_usage) {
            Err(e) => return Err(e),
            Ok(()) => {},
        }
        let ghost before = result@;
        let ghost text = path@;
        result.push(path);
        proof {
            assert(views(result@) =~= views(before).push(text));
            assert(paths.take(k + 1) =~= paths.take(k as int).push(text));
        }
        k = k + 1;
    }
    proof {
        assert(paths.take(paths.len() as int) =~= paths);
    }
    Ok(result)
}

/// A write is admitted exactly up to the quota, and always without one; what is
/// written is added to the counter, which stops at its largest value.
pub proof fn law_quota_is_exact(used: u64, limit: u64, bytes: usize)
    ensures
        write_admitted(used, None, bytes),
        used + bytes <= u64::MAX ==> (write_admitted(used, Some(limit), bytes) <==> used + bytes <= limit),
        used + bytes > u64::MAX ==> (write_admitted(used, Some(limit), bytes) <==> limit == u64::MAX),
        used + bytes <= u64::MAX ==> write_committed(used, bytes) == used + bytes,
        used + bytes > u64::MAX ==> write_committed(used, bytes) == u64::MAX,
{
}

/// Two halves of a budget fit into it, and no larger parts would; the limit
/// that errors report stays.
pub proof fn law_halves_fit_the_budget(budget: MemoryBudget)
    ensures
        2 * half(budget).available <= budget.available,
        budget.available <= 2 * half(budget).available + 1,
        half(budget).limit == budget.limit,
{
}

/// Each name of a listing is charged its bytes and 128 more, in any order.
pub proof fn law_listings_are_charged_by_name(names: Seq<Seq<char>>, more: Seq<Seq<char>>, name: Seq<char>)
    ensures
        listing_bytes(Seq::empty()) == 0,
        listing_bytes(seq![name]) == utf8_len(name) + 128,
        listing_bytes(names + more) == listing_bytes(names) + listing_bytes(more),
    decreases more.len(),
{
    assert(seq![name].drop_last() =~= Seq::<Seq<char>>::empty());
    assert(listing_bytes(seq![name].drop_last()) == 0);
    if more.len() == 0 {
        assert(names + more =~= names);
    } else {
        law_listings_are_charged_by_name(names, more.drop_last(), name);
        assert((names + more).drop_last() =~= names + more.drop_last());
    }
}

/// The paths of a listing are those of its names, in the same order, each the
/// directory with the name behind it: the name is the last component, and the
/// components before it are those of the directory.
pub proof fn law_listed_paths_lie_in_the_directory(vpath: Seq<char>, names: Seq<Seq<char>>, i: int)
    requires
        0 <= i < names.len(),
        names[i].len() > 0,
        names[i] != "."@,
        names[i] != ".."@,
        !names[i].contains('/'),
    ensures
        child_paths(vpath, names).len() == names.len(),
        virtual_components(child_paths(vpath, names)[i]) == virtual_components(vpath).push(names[i]),
        is_normal(vpath) ==> is_normal(child_paths(vpath, names)[i]),
{
    let name = names[i];
    let path = child_path(vpath, name);
    reveal_strlit("/");
    if vpath.len() > 0 && vpath.last() == '/' {
        let front = vpath.drop_last();
        assert(vpath =~= front + "/"@);
        assert(path =~= front + "/"@ + name);
        lemma_split_one_more(front, name);
        lemma_split_one_more(front, Seq::empty());
        assert(front + "/"@ + Seq::<char>::empty() =~= vpath);
        let parts = split(front, '/');
        assert(parts.push(name).drop_last() =~= parts);
        assert(parts.push(Seq::empty()).drop_last() =~= parts);
    } else {
        lemma_split_one_more(vpath, name);
        assert(split(vpath, '/').push(name).drop_last() =~= split(vpath, '/'));
    }
    if is_normal(vpath) {
        lemma_normal_is_absolute(vpath);
        law_names_are_kept(vpath, name);
        law_normalized_is_normal(path);
        if vpath == "/"@ {
            assert(path =~= "/"@ + name);
            assert(path == normalized(vpath + "/"@ + name));
        } else {
            assert(vpath.len() > 1);
            lemma_virtual_components(vpath);
            let comps = virtual_components(vpath);
            let last = comps.last();
            assert(comps[comps.len() - 1] == last);
            assert(vpath == slash_join(comps.drop_last()).push('/') + last);
            assert(vpath.last() == last[last.len() - 1]);
            assert(last.contains(last[last.len() - 1]));
            assert(path == normalized(vpath + "/"@ + name));
        }
        law_normalized_is_normal(vpath + "/"@ + name);
    }
}

/// An entry is listed exactly where it is no symlink, or one whose canonical
/// target begins with the mounted directory.
pub proof fn law_only_links_inside_are_listed(entry: DirEntry, mount: Seq<crate::host_path::ComponentView>)
    ensures
        entry.visible(mount) <==> match entry.link {
            EntryLink::Plain => true,
            EntryLink::Broken => false,
            EntryLink::To(target) => target@.len() >= mount.len() && target@.take(mount.len() as int) == mount,
        },
{
}

/// A count that fits is reported as it is, and any other as the largest one.
pub proof fn law_counts_are_cut_off(n: nat)
    ensures
        n <= 0x7fff_ffff_ffff_ffff ==> capped_i64(n) == n,
        n > 0x7fff_ffff_ffff_ffff ==> capped_i64(n) == 0x7fff_ffff_ffff_ffff,
        n <= 0xffff_ffff_ffff_ffff ==> capped(n) == n,
        n > 0xffff_ffff_ffff_ffff ==> capped(n) == 0xffff_ffff_ffff_ffff,
{
}

/// A child is put behind its directory with one separator between them.
pub proof fn law_children_stand_behind_one_separator(parent: Seq<char>, child: Seq<char>)
    ensures
        child_path(parent.push('/'), child) == parent + "/"@ + child,
        parent.len() == 0 || parent.last() != '/' ==> child_path(parent, child) == parent + "/"@ + child,
{
    reveal_strlit("/");
    assert(parent.push('/') + child =~= parent + "/"@ + child);
}

} // verus!
