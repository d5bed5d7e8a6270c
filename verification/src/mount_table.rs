//! Mount table for mapping virtual paths to host directories.

use crate::common::MountContext;
use crate::fs_error::{MountError, MountErrorView};
use crate::host_path::{ComponentView, HostPath};
use crate::path_security::{
    is_normal, law_normalized_is_normal, normalize_virtual_path, normalized, path_matches_mount, under_mount,
};
use crate::text::{byte_len, cat3, cat4, is_prefix, starts_with, utf8_len};
use vstd::prelude::*;

verus! {

/// Default aggregate memory budget for one mount: 100 MB in decimal bytes.
pub const DEFAULT_MEMORY_USAGE_LIMIT: u64 = 100_000_000;

/// What an overlay retains in memory.
#[derive(Clone, Copy, Debug, PartialEq, Eq, Structural)]
pub struct OverlayState {
    /// Bytes retained by the overlay.
    pub memory_usage: u64,
}

/// Access mode of a mount.
#[derive(Clone, Copy, Debug, PartialEq, Eq, Structural)]
pub enum MountMode {
    ReadWrite,
    ReadOnly,
    OverlayMemory(OverlayState),
}

/// What is known of the host directory of a mount to be made.
pub enum HostDirectory {
    /// The path cannot be canonicalized, for the reason given.
    Unresolvable(String),
    /// The canonical path is no directory.
    NotADirectory,
    /// The canonical path of a directory.
    Found(HostPath),
}

/// A single mount point mapping a virtual path to a host directory.
pub struct Mount {
    virtual_path: String,
    host_path: HostPath,
    mode: MountMode,
    write_bytes_used: u64,
    write_bytes_limit: Option<u64>,
    memory_usage_limit: u64,
}

/// What a mount holds.
pub ghost struct MountView {
    /// Virtual path prefix (absolute, normalized).
    pub virtual_path: Seq<char>,
    /// Canonical host directory.
    pub host_path: Seq<ComponentView>,
    pub mode: MountMode,
    /// Cumulative bytes written through this mount.
    pub write_bytes_used: u64,
    /// Optional cap on cumulative bytes written.
    pub write_bytes_limit: Option<u64>,
    /// Aggregate budget for retained overlay data and transient results.
    pub memory_usage_limit: u64,
}

impl View for Mount {
    type V = MountView;

    closed spec fn view(&self) -> MountView {
        MountView {
            virtual_path: self.virtual_path@,
            host_path: self.host_path@,
            mode: self.mode,
            write_bytes_used: self.write_bytes_used,
            write_bytes_limit: self.write_bytes_limit,
            memory_usage_limit: self.memory_usage_limit,
        }
    }
}

impl MountView {
    /// The virtual path is in normal form.
    pub open spec fn wf(self) -> bool {
        is_normal(self.virtual_path)
    }
}

/// Why a mount cannot be made; `None` when it can.
pub open spec fn mount_error(virtual_path: Seq<char>, host_display: Seq<char>, host: HostDirectory) -> Option<Seq<char>> {
    if !is_prefix("/"@, virtual_path) {
        Some("virtual path must be absolute, got: '"@ + virtual_path + "'"@)
    } else {
        match host {
            HostDirectory::Unresolvable(reason) => Some(
                "cannot canonicalize host path '"@ + host_display + "': "@ + reason@,
            ),
            HostDirectory::NotADirectory => Some("host path is not a directory: '"@ + host_display + "'"@),
            HostDirectory::Found(_) => None,
        }
    }
}

impl Mount {
    #[verifier::type_invariant]
    closed spec fn inv(self) -> bool {
        self@.wf()
    }

    /// Creates a new mount point over a host directory that has been looked up.
    /// Mount memory defaults to `DEFAULT_MEMORY_USAGE_LIMIT`.
    pub fn new(
        virtual_path: &str,
        host_display: &str,
        host: HostDirectory,
        mode: MountMode,
        write_bytes_limit: Option<u64>,
    ) -> (r: Result<Mount, MountError>)
        ensures
            r is Ok <==> mount_error(virtual_path@, host_display@, host) is None,
            r is Err ==> r->Err_0@ == MountErrorView::InvalidMount(
                mount_error(virtual_path@, host_display@, host)->Some_0,
            ),
            r is Ok ==> r->Ok_0@ == (MountView {
                virtual_path: normalized(virtual_path@),
                host_path: host->Found_0@,
                mode,
                write_bytes_used: 0,
                write_bytes_limit,
                memory_usage_limit: DEFAULT_MEMORY_USAGE_LIMIT,
            }),
            r is Ok ==> r->Ok_0@.wf(),
    {
        proof {
            law_normalized_is_normal(virtual_path@);
        }
        if !starts_with(virtual_path, "/") {
            return Err(MountError::InvalidMount(cat3("virtual path must be absolute, got: '", virtual_path, "'")));
        }
        let virtual_path: String = normalize_virtual_path(virtual_path);
        match host {
            HostDirectory::Unresolvable(reason) => Err(
                MountError::InvalidMount(
                    cat4("cannot canonicalize host path '", host_display, "': ", reason.as_str()),
                ),
            ),
            HostDirectory::NotADirectory => Err(
                MountError::InvalidMount(cat3("host path is not a directory: '", host_display, "'")),
            ),
            HostDirectory::Found(host_path) => {
                Ok(
                    Mount {
                        virtual_path,
                        host_path,
                        mode,
                        write_bytes_used: 0,
                        write_bytes_limit,
                        memory_usage_limit: DEFAULT_MEMORY_USAGE_LIMIT,
                    },
                )
            },
        }
    }

    /// Returns the normalized virtual path prefix for this mount.
    #[must_use]
    pub fn virtual_path(&self) -> (r: &str)
        ensures
            r@ == self@.virtual_path,
            is_normal(r@),
    {
        proof {
            use_type_invariant(self);
        }
        self.virtual_path.as_str()
    }

    /// Returns the canonical host directory path.
    #[must_use]
    pub fn host_path(&self) -> (r: &HostPath)
        ensures
            r@ == self@.host_path,
    {
        &self.host_path
    }

    /// Returns the access mode for this mount.
    #[must_use]
    pub fn mode(&self) -> (r: &MountMode)
        ensures
            *r == self@.mode,
    {
        &self.mode
    }

    /// Returns the optional write bytes limit for this mount.
    #[must_use]
    pub fn write_bytes_limit(&self) -> (r: Option<u64>)
        ensures
            r == self@.write_bytes_limit,
    {
        self.write_bytes_limit
    }

    /// Returns the aggregate mount memory budget.
    #[must_use]
    pub fn memory_usage_limit(&self) -> (r: u64)
        ensures
            r == self@.memory_usage_limit,
    {
        self.memory_usage_limit
    }

    /// Overrides the aggregate mount memory budget.
    #[must_use]
    pub fn with_memory_usage_limit(self, limit: u64) -> (r: Mount)
        ensures
            r@ == (MountView { memory_usage_limit: limit, ..self@ }),
    {
        proof {
            use_type_invariant(&self);
        }
        Mount {
            virtual_path: self.virtual_path,
            host_path: self.host_path,
            mode: self.mode,
            write_bytes_used: self.write_bytes_used,
            write_bytes_limit: self.write_bytes_limit,
            memory_usage_limit: limit,
        }
    }

    /// Returns memory currently retained by this mount's overlay.
    #[must_use]
    pub fn memory_usage(&self) -> (r: u64)
        ensures
            r == match self@.mode {
                MountMode::OverlayMemory(state) => state.memory_usage,
                _ => 0,
            },
    {
        match &self.mode {
            MountMode::OverlayMemory(state) => state.memory_usage,
            MountMode::ReadWrite | MountMode::ReadOnly => 0,
        }
    }

    /// Returns the cumulative number of bytes written through this mount.
    #[must_use]
    pub fn write_bytes_used(&self) -> (r: u64)
        ensures
            r == self@.write_bytes_used,
    {
        self.write_bytes_used
    }

    /// The context in which a filesystem call is executed against this mount.
    pub fn context(&self) -> (r: MountContext)
        ensures
            r.mount_virtual@ == self@.virtual_path,
            r.mount_host@ == self@.host_path,
            r.write_bytes_used == self@.write_bytes_used,
            r.write_bytes_limit == self@.write_bytes_limit,
            r.memory_usage_limit == self@.memory_usage_limit,
    {
        MountContext {
            mount_virtual: self.virtual_path.clone(),
            mount_host: self.host_path.duplicate(),
            write_bytes_used: self.write_bytes_used,
            write_bytes_limit: self.write_bytes_limit,
            memory_usage_limit: self.memory_usage_limit,
        }
    }

    /// The mount after a filesystem call has been executed: what the call
    /// left in the write counter and in the overlay is kept.
    pub fn after_call(self, ctx: MountContext, mode: MountMode) -> (r: Mount)
        ensures
            r@ == (MountView { write_bytes_used: ctx.write_bytes_used, mode, ..self@ }),
    {
        proof {
            use_type_invariant(&self);
        }
        Mount {
            virtual_path: self.virtual_path,
            host_path: self.host_path,
            mode,
            write_bytes_used: ctx.write_bytes_used,
            write_bytes_limit: self.write_bytes_limit,
            memory_usage_limit: self.memory_usage_limit,
        }
    }
}

/// A call from sandboxed code to the operating system, as routing sees it.
#[derive(Debug)]
pub struct OsCall {
    /// Name of the function called, such as `Path.read_text`.
    pub function_name: String,
    /// Whether this is a filesystem operation.
    pub filesystem: bool,
    /// The path that the operation works on.
    pub primary_path: Option<String>,
    /// The destination of a rename.
    pub rename_destination: Option<String>,
}

impl OsCall {
    /// A filesystem call names the path it works on.
    pub open spec fn wf(self) -> bool {
        self.filesystem ==> self.primary_path is Some
    }
}

/// Outcome of `MountTable::handle_os_call`.
pub enum MountCallOutcome {
    /// The mount at this index covers the call and has to execute it.
    Execute(usize, OsCall),
    /// Mounts cover the call but it is refused.
    Refused(MountError),
    /// Non-filesystem op or no matching mount: the call, returned unchanged.
    NotHandled(OsCall),
}

/// A collection of mount points mapping virtual paths to host directories.
///
/// Mounts are checked in longest-prefix-first order so that more specific
/// mounts take precedence.
pub struct MountTable {
    mounts: Vec<Mount>,
}

/// Mounts stand in order of falling length of their virtual paths.
pub open spec fn longest_first(mounts: Seq<MountView>) -> bool {
    forall|i: int, j: int|
        0 <= i <= j < mounts.len() ==> utf8_len((#[trigger] mounts[i]).virtual_path) >= utf8_len(
            (#[trigger] mounts[j]).virtual_path,
        )
}

/// The first mount, from index `from` on, that covers the normalized path `path`.
pub open spec fn first_covering(mounts: Seq<MountView>, path: Seq<char>, from: int) -> Option<int>
    decreases mounts.len() - from,
{
    if from < 0 || from >= mounts.len() {
        None
    } else if under_mount(path, mounts[from].virtual_path) {
        Some(from)
    } else {
        first_covering(mounts, path, from + 1)
    }
}

/// The mount that handles the virtual path `path`.
pub open spec fn mount_for(mounts: Seq<MountView>, path: Seq<char>) -> Option<int> {
    first_covering(mounts, normalized(path), 0)
}

/// Where a new mount goes: before the first one whose virtual path is no longer.
pub open spec fn insert_position(mounts: Seq<MountView>, len: nat, from: int) -> int
    decreases mounts.len() - from,
{
    if from < 0 || from >= mounts.len() || utf8_len(mounts[from].virtual_path) <= len {
        from
    } else {
        insert_position(mounts, len, from + 1)
    }
}

proof fn lemma_insert_position(mounts: Seq<MountView>, len: nat, from: int)
    requires
        0 <= from <= mounts.len(),
    ensures
        from <= insert_position(mounts, len, from) <= mounts.len(),
        forall|i: int| from <= i < insert_position(mounts, len, from) ==> utf8_len((#[trigger] mounts[i]).virtual_path) > len,
        insert_position(mounts, len, from) < mounts.len() ==> utf8_len(
            mounts[insert_position(mounts, len, from)].virtual_path,
        ) <= len,
    decreases mounts.len() - from,
{
    if from < mounts.len() && utf8_len(mounts[from].virtual_path) > len {
        lemma_insert_position(mounts, len, from + 1);
    }
}

/// Routing picks a mount that covers the path, and no mount that covers it has
/// a longer virtual path; it fails only where no mount covers the path.
pub proof fn law_longest_prefix_wins(mounts: Seq<MountView>, path: Seq<char>)
    requires
        longest_first(mounts),
    ensures
        match mount_for(mounts, path) {
            Some(k) => {
                &&& 0 <= k < mounts.len()
                &&& under_mount(normalized(path), mounts[k].virtual_path)
                &&& forall|j: int|
                    0 <= j < mounts.len() && under_mount(normalized(path), (#[trigger] mounts[j]).virtual_path)
                        ==> utf8_len(mounts[j].virtual_path) <= utf8_len(mounts[k].virtual_path)
            },
            None => forall|j: int|
                0 <= j < mounts.len() ==> !under_mount(normalized(path), (#[trigger] mounts[j]).virtual_path),
        },
{
    lemma_first_covering(mounts, normalized(path), 0);
}

proof fn lemma_first_covering(mounts: Seq<MountView>, path: Seq<char>, from: int)
    requires
        0 <= from <= mounts.len(),
    ensures
        match first_covering(mounts, path, from) {
            Some(k) => {
                &&& from <= k < mounts.len()
                &&& under_mount(path, mounts[k].virtual_path)
                &&& forall|j: int| from <= j < k ==> !under_mount(path, (#[trigger] mounts[j]).virtual_path)
            },
            None => forall|j: int|
                from <= j < mounts.len() ==> !under_mount(path, (#[trigger] mounts[j]).virtual_path),
        },
    decreases mounts.len() - from,
{
    if from < mounts.len() && !under_mount(path, mounts[from].virtual_path) {
        lemma_first_covering(mounts, path, from + 1);
    }
}

/// Adding a mount keeps the table in order.
pub proof fn law_insertion_keeps_order(mounts: Seq<MountView>, m: MountView)
    requires
        longest_first(mounts),
    ensures
        longest_first(mounts.insert(insert_position(mounts, utf8_len(m.virtual_path), 0), m)),
{
    let at = insert_position(mounts, utf8_len(m.virtual_path), 0);
    lemma_insert_position(mounts, utf8_len(m.virtual_path), 0);
    let new = mounts.insert(at, m);
    assert forall|i: int, j: int| 0 <= i <= j < new.len() implies utf8_len((#[trigger] new[i]).virtual_path) >= utf8_len(
        (#[trigger] new[j]).virtual_path,
    ) by {
        let oi = if i < at { i } else { i - 1 };
        let oj = if j < at { j } else { j - 1 };
        if i != at {
            assert(new[i] == mounts[oi]);
        }
        if j != at {
            assert(new[j] == mounts[oj]);
        }
        if i == at && j != at {
            assert(utf8_len(mounts[at].virtual_path) >= utf8_len(mounts[oj].virtual_path));
        }
    }
}

/// A mount added over the virtual path of another takes its place: every path
/// that went to the older mount goes to the new one.
pub proof fn law_newer_mount_shadows(mounts: Seq<MountView>, m: MountView, path: Seq<char>)
    requires
        longest_first(mounts),
        mount_for(mounts, path) matches Some(k) && mounts[k].virtual_path == m.virtual_path,
    ensures
        ({
            let at = insert_position(mounts, utf8_len(m.virtual_path), 0);
            mount_for(mounts.insert(at, m), path) == Some(at)
        }),
{
    let len = utf8_len(m.virtual_path);
    let at = insert_position(mounts, len, 0);
    lemma_insert_position(mounts, len, 0);
    lemma_first_covering(mounts, normalized(path), 0);
    let new = mounts.insert(at, m);
    lemma_first_covering(new, normalized(path), 0);
    let k = mount_for(mounts, path)->Some_0;
    assert(at <= k) by {
        if k < at {
            assert(utf8_len(mounts[k].virtual_path) > len);
        }
    }
    assert(new[at] == m);
    assert forall|j: int| 0 <= j < at implies !under_mount(normalized(path), (#[trigger] new[j]).virtual_path) by {
        assert(new[j] == mounts[j]);
    }
}

/// What routing decides about an OS call.
pub open spec fn routed(mounts: Seq<MountView>, call: OsCall) -> MountCallOutcome {
    if !call.filesystem {
        MountCallOutcome::NotHandled(call)
    } else {
        match mount_for(mounts, call.primary_path->Some_0@) {
            None => MountCallOutcome::NotHandled(call),
            Some(k) => match call.rename_destination {
                None => MountCallOutcome::Execute(k as usize, call),
                Some(dst) => match mount_for(mounts, dst@) {
                    None => MountCallOutcome::NotHandled(call),
                    Some(d) => if d == k {
                        MountCallOutcome::Execute(k as usize, call)
                    } else {
                        MountCallOutcome::Refused(
                            MountError::CrossMountRename { src: call.primary_path->Some_0, dst },
                        )
                    },
                },
            },
        }
    }
}

impl MountTable {
    /// Mounts stand longest prefix first.
    pub open spec fn wf(self) -> bool {
        longest_first(self@)
    }

    /// Creates a new empty mount table.
    #[must_use]
    pub fn new() -> (r: MountTable)
        ensures
            r@ == Seq::<MountView>::empty(),
            r.wf(),
    {
        let r: MountTable = MountTable { mounts: Vec::new() };
        proof {
            assert(r@ =~= Seq::<MountView>::empty());
        }
        r
    }

    /// Adds a mount point mapping a virtual path to a host directory.
    pub fn mount(
        &mut self,
        virtual_path: &str,
        host_display: &str,
        host: HostDirectory,
        mode: MountMode,
        write_bytes_limit: Option<u64>,
    ) -> (r: Result<(), MountError>)
        requires
            old(self).wf(),
        ensures
            final(self).wf(),
            r is Ok <==> mount_error(virtual_path@, host_display@, host) is None,
            r is Err ==> final(self)@ == old(self)@ && r->Err_0@ == MountErrorView::InvalidMount(
                mount_error(virtual_path@, host_display@, host)->Some_0,
            ),
            r is Ok ==> ({
                let m = MountView {
                    virtual_path: normalized(virtual_path@),
                    host_path: host->Found_0@,
                    mode,
                    write_bytes_used: 0,
                    write_bytes_limit,
                    memory_usage_limit: DEFAULT_MEMORY_USAGE_LIMIT,
                };
                final(self)@ == old(self)@.insert(insert_position(old(self)@, utf8_len(m.virtual_path), 0), m)
            }),
    {
        match Mount::new(virtual_path, host_display, host, mode, write_bytes_limit) {
            Err(e) => Err(e),
            Ok(mount) => {
                self.push_mount(mount);
                Ok(())
            },
        }
    }

    /// Adds a pre-built mount to the table.
    pub fn push_mount(&mut self, mount: Mount)
        requires
            old(self).wf(),
        ensures
            final(self)@ == old(self)@.insert(
                insert_position(old(self)@, utf8_len(mount@.virtual_path), 0),
                mount@,
            ),
            final(self).wf(),
    {
        let len: usize = byte_len(mount.virtual_path.as_str());
        let mut at: usize = 0;
        while at < self.mounts.len() && byte_len(self.mounts[at].virtual_path.as_str()) > len
            invariant
                at <= self@.len(),
                len == utf8_len(mount@.virtual_path),
                insert_position(self@, len as nat, 0) == insert_position(self@, len as nat, at as int),
            decreases self@.len() - at,
        {
            proof {
                assert(self@[at as int] == self.mounts@[at as int]@);
            }
            at = at + 1;
        }
        proof {
            if at < self@.len() {
                assert(self@[at as int] == self.mounts@[at as int]@);
            }
            law_insertion_keeps_order(self@, mount@);
        }
        let ghost before = self@;
        let ghost m = mount@;
        self.mounts.insert(at, mount);
        proof {
            assert(self@ =~= before.insert(at as int, m));
        }
    }

    /// Handles an OS call using the mount table: names the mount that has to
    /// execute it, refuses it, or hands it back untouched.
    pub fn handle_os_call(&self, call: OsCall) -> (r: MountCallOutcome)
        requires
            call.wf(),
        ensures
            match routed(self@, call) {
                MountCallOutcome::Refused(e) => r is Refused && r->Refused_0@ == e@,
                other => r == other,
            },
            r is Execute ==> r->Execute_0 < self@.len(),
    {
        if call.filesystem {
            match self.route_call(&call) {
                Some(Ok(index)) => MountCallOutcome::Execute(index, call),
                Some(Err(err)) => MountCallOutcome::Refused(err),
                None => MountCallOutcome::NotHandled(call),
            }
        } else {
            MountCallOutcome::NotHandled(call)
        }
    }

    /// Returns `true` if no mount points are configured.
    #[must_use]
    pub fn is_empty(&self) -> (r: bool)
        ensures
            r == (self@.len() == 0),
    {
        self.mounts.len() == 0
    }

    /// Returns the number of configured mount points.
    #[must_use]
    pub fn len(&self) -> (r: usize)
        ensures
            r == self@.len(),
    {
        self.mounts.len()
    }

    /// The mount at an index.
    pub fn get(&self, index: usize) -> (r: Option<&Mount>)
        ensures
            r is Some <==> index < self@.len(),
            r is Some ==> r->Some_0@ == self@[index as int],
    {
        if index < self.mounts.len() {
            Some(&self.mounts[index])
        } else {
            None
        }
    }

    /// Takes in what executing a call on the mount at `index` left behind.
    pub fn finish_call(&mut self, index: usize, ctx: MountContext, mode: MountMode)
        requires
            index < old(self)@.len(),
            old(self).wf(),
        ensures
            final(self).wf(),
            final(self)@ == old(self)@.update(
                index as int,
                MountView { write_bytes_used: ctx.write_bytes_used, mode, ..old(self)@[index as int] },
            ),
    {
        let ghost before = self@;
        let ghost views = self.mounts@;
        let mount: Mount = self.mounts.remove(index);
        let updated: Mount = mount.after_call(ctx, mode);
        let ghost u = updated@;
        self.mounts.insert(index, updated);
        proof {
            assert(before[index as int] == views[index as int]@);
            assert(self@ =~= before.update(index as int, u));
        }
    }

    /// Selects the mount that should handle `call`.
    ///
    /// Rename requests require both source and destination to resolve to the
    /// same longest-prefix mount. Other requests only route on the primary path.
    pub fn route_call(&self, call: &OsCall) -> (r: Option<Result<usize, MountError>>)
        requires
            call.filesystem,
            call.wf(),
        ensures
            match routed(self@, *call) {
                MountCallOutcome::Execute(k, _) => r == Some(Ok::<usize, MountError>(k)) && k < self@.len(),
                MountCallOutcome::Refused(e) => r is Some && r->Some_0 is Err && r->Some_0->Err_0@ == e@,
                MountCallOutcome::NotHandled(_) => r is None,
            },
    {
        match &call.primary_path {
            None => None,
            Some(primary_path) => {
                match self.find_mount_index(primary_path.as_str()) {
                    None => None,
                    Some(src_mount_index) => {
                        match &call.rename_destination {
                            None => Some(Ok(src_mount_index)),
                            Some(dst_path) => {
                                match self.find_mount_index(dst_path.as_str()) {
                                    None => None,
                                    Some(dst_mount_index) => {
                                        if src_mount_index != dst_mount_index {
                                            Some(
                                                Err(
                                                    MountError::CrossMountRename {
                                                        src: primary_path.clone(),
                                                        dst: dst_path.clone(),
                                                    },
                                                ),
                                            )
                                        } else {
                                            Some(Ok(src_mount_index))
                                        }
                                    },
                                }
                            },
                        }
                    },
                }
            },
        }
    }

    /// Finds the longest-prefix mount index for `virtual_path`.
    pub fn find_mount_index(&self, virtual_path: &str) -> (r: Option<usize>)
        ensures
            match mount_for(self@, virtual_path@) {
                Some(k) => r == Some(k as usize) && k < self@.len() && k as usize == k,
                None => r is None,
            },
    {
        let path: String = normalize_virtual_path(virtual_path);
        let mut i: usize = 0;
        while i < self.mounts.len()
            invariant
                i <= self@.len(),
                path@ == normalized(virtual_path@),
                mount_for(self@, virtual_path@) == first_covering(self@, path@, i as int),
            decreases self@.len() - i,
        {
            proof {
                assert(self@[i as int] == self.mounts@[i as int]@);
            }
            if path_matches_mount(path.as_str(), self.mounts[i].virtual_path.as_str()) {
                return Some(i);
            }
            i = i + 1;
        }
        None
    }
}

impl View for MountTable {
    type V = Seq<MountView>;

    closed spec fn view(&self) -> Seq<MountView> {
        self.mounts@.map_values(|m: Mount| m@)
    }
}

/// A call is executed by the mount with the longest virtual path over the path
/// it works on, and a rename only where that mount is also the one for its
/// destination. A call that no mount covers, and one that is about no file,
/// comes back as it was; a rename from one mount to another is refused.
pub proof fn law_calls_go_to_the_mount_of_their_path(mounts: Seq<MountView>, call: OsCall)
    requires
        longest_first(mounts),
        mounts.len() <= usize::MAX,
        call.wf(),
    ensures
        match routed(mounts, call) {
            MountCallOutcome::Execute(k, same_call) => {
                let vp = mounts[k as int].virtual_path;
                &&& same_call == call
                &&& call.filesystem
                &&& k < mounts.len()
                &&& under_mount(normalized(call.primary_path->Some_0@), vp)
                &&& forall|j: int|
                    0 <= j < mounts.len() && under_mount(
                        normalized(call.primary_path->Some_0@),
                        (#[trigger] mounts[j]).virtual_path,
                    ) ==> utf8_len(mounts[j].virtual_path) <= utf8_len(vp)
                &&& call.rename_destination is Some ==> {
                    &&& under_mount(normalized(call.rename_destination->Some_0@), vp)
                    &&& forall|j: int|
                        0 <= j < mounts.len() && under_mount(
                            normalized(call.rename_destination->Some_0@),
                            (#[trigger] mounts[j]).virtual_path,
                        ) ==> utf8_len(mounts[j].virtual_path) <= utf8_len(vp)
                }
            },
            MountCallOutcome::Refused(e) => {
                &&& call.filesystem
                &&& call.rename_destination is Some
                &&& e == (MountError::CrossMountRename {
                    src: call.primary_path->Some_0,
                    dst: call.rename_destination->Some_0,
                })
                &&& mount_for(mounts, call.primary_path->Some_0@) is Some
                &&& mount_for(mounts, call.rename_destination->Some_0@) is Some
                &&& mount_for(mounts, call.primary_path->Some_0@) != mount_for(mounts, call.rename_destination->Some_0@)
            },
            MountCallOutcome::NotHandled(same_call) => {
                &&& same_call == call
                &&& {
                    ||| !call.filesystem
                    ||| forall|j: int|
                        0 <= j < mounts.len() ==> !under_mount(
                            normalized(call.primary_path->Some_0@),
                            (#[trigger] mounts[j]).virtual_path,
                        )
                    ||| call.rename_destination is Some && forall|j: int|
                        0 <= j < mounts.len() ==> !under_mount(
                            normalized(call.rename_destination->Some_0@),
                            (#[trigger] mounts[j]).virtual_path,
                        )
                }
            },
        },
{
    if call.filesystem {
        law_longest_prefix_wins(mounts, call.primary_path->Some_0@);
        if call.rename_destination is Some {
            law_longest_prefix_wins(mounts, call.rename_destination->Some_0@);
        }
    }
}

/// A new mount stands behind all those with a longer virtual path and before
/// all others; these keep their order.
pub proof fn law_new_mounts_stand_by_length(mounts: Seq<MountView>, m: MountView)
    requires
        longest_first(mounts),
    ensures
        ({
            let at = insert_position(mounts, utf8_len(m.virtual_path), 0);
            &&& 0 <= at <= mounts.len()
            &&& forall|i: int| 0 <= i < at ==> utf8_len((#[trigger] mounts[i]).virtual_path) > utf8_len(m.virtual_path)
            &&& forall|i: int|
                at <= i < mounts.len() ==> utf8_len((#[trigger] mounts[i]).virtual_path) <= utf8_len(m.virtual_path)
        }),
{
    let at = insert_position(mounts, utf8_len(m.virtual_path), 0);
    lemma_insert_position(mounts, utf8_len(m.virtual_path), 0);
    assert forall|i: int| at <= i < mounts.len() implies utf8_len((#[trigger] mounts[i]).virtual_path) <= utf8_len(
        m.virtual_path,
    ) by {
        assert(utf8_len(mounts[at].virtual_path) >= utf8_len(mounts[i].virtual_path));
    }
}

/// A mount can be made exactly where its virtual path is absolute and its host
/// path is that of a directory.
pub proof fn law_mounts_need_a_directory(virtual_path: Seq<char>, host_display: Seq<char>, host: HostDirectory)
    ensures
        mount_error(virtual_path, host_display, host) is None <==> virtual_path.len() > 0 && virtual_path[0] == '/'
            && host is Found,
{
    reveal_strlit("/");
    if virtual_path.len() > 0 {
        assert(virtual_path.take(1) =~= seq![virtual_path[0]]);
        assert("/"@ =~= seq!['/']);
        if virtual_path[0] != '/' {
            assert(virtual_path.take(1)[0] != "/"@[0]);
        }
    }
}

/// A mount that cannot be made says why: its virtual path, else its host path,
/// is quoted.
pub proof fn law_unusable_mounts_say_why(virtual_path: Seq<char>, host_display: Seq<char>, host: HostDirectory)
    ensures
        !(virtual_path.len() > 0 && virtual_path[0] == '/') ==> mount_error(virtual_path, host_display, host) == Some(
            "virtual path must be absolute, got: '"@ + virtual_path + "'"@,
        ),
        virtual_path.len() > 0 && virtual_path[0] == '/' && host is Unresolvable ==> mount_error(
            virtual_path,
            host_display,
            host,
        ) == Some("cannot canonicalize host path '"@ + host_display + "': "@ + host->Unresolvable_0@),
        virtual_path.len() > 0 && virtual_path[0] == '/' && host is NotADirectory ==> mount_error(
            virtual_path,
            host_display,
            host,
        ) == Some("host path is not a directory: '"@ + host_display + "'"@),
{
    reveal_strlit("/");
    if virtual_path.len() > 0 {
        assert(virtual_path.take(1) =~= seq![virtual_path[0]]);
        assert("/"@ =~= seq!['/']);
        if virtual_path[0] != '/' {
            assert(virtual_path.take(1)[0] != "/"@[0]);
        }
    }
}

} // verus!
