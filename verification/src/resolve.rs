//! Resolution of a virtual path against the host filesystem.
//!
//! The resolver asks one question about the host filesystem at a time and is
//! told the answer. Whatever the answers are, a path that resolution ends with
//! lies inside the mounted host directory.

use crate::fs_error::{path_escape, IoError, IoErrorKind, MountError, MountErrorView};
use crate::host_path::{
    clone_component, has_parent_component, has_prefix, has_root, lemma_within_append, path_file_name, path_join, path_parent, path_within, ComponentView,
    HostComponent, HostPath,
};
use crate::path_security::{
    check_boundary, law_candidate_within_mount, request_error, RequestView, ResolutionRequest,
};
use vstd::prelude::*;

verus! {

/// Resolution strategy for a filesystem operation.
#[derive(Clone, Copy, Debug, PartialEq, Eq, Structural)]
pub enum ResolveMode {
    /// Resolve an existing path by canonicalizing the full target.
    Existing,
    /// Resolve a path without following a final symlink.
    Lstat,
    /// Resolve a creation target by canonicalizing the parent and validating
    /// the final component.
    Creation,
    /// Resolve a target whose missing parents will be created, by walking
    /// existing ancestors and then appending missing components.
    MkdirParents,
}

/// Where a resolution stands. `P` is a path, `C` a component, `E` an error.
pub enum Stage<P, C, E> {
    /// The whole target is to be canonicalized.
    Target,
    /// The mounted directory itself is to be canonicalized.
    MountRoot,
    /// The parent is to be canonicalized; `name` is then appended unfollowed.
    LstatParent { parent: P, name: C },
    /// Whether the creation target exists is to be found out.
    CreationExists,
    /// The parent of a new entry called `name` is to be canonicalized.
    CreationParent { parent: P, name: C },
    /// Whether `resolved`, an entry of `parent`, is a symlink is to be found out.
    CreationLink { parent: P, resolved: P },
    /// The symlink target is to be canonicalized.
    CreationTarget { target: P, resolved: P },
    /// The directory of a symlink target that does not exist is to be canonicalized.
    CreationTargetParent { dir: P, target: P, resolved: P },
    /// Whether the component at `index` exists under `current` is to be found out.
    MkdirExists { current: P, index: usize },
    /// The existing path `next` that ends in the component at `index` is to be canonicalized.
    MkdirCanonical { next: P, index: usize },
    /// Resolution succeeded.
    Done(P),
    /// Resolution failed.
    Failed(E),
}

/// A question about the host filesystem.
pub enum Probe<P> {
    /// The canonical form of a path.
    Canonicalize(P),
    /// Whether a path exists, symlinks followed.
    Exists(P),
    /// Whether a path is a symlink, and what it points to.
    Link(P),
    /// Nothing: resolution has ended.
    Nothing,
}

/// An answer about the host filesystem. `I` is an I/O failure.
pub enum Reply<P, I> {
    Canonical(P),
    CanonicalFailed(I),
    Exists(bool),
    NotALink,
    LinkUnreadable(I),
    LinkTarget(P),
}

/// A stage over component sequences.
pub type StageView = Stage<Seq<ComponentView>, ComponentView, MountErrorView>;

/// An answer over component sequences.
pub type ReplyView = Reply<Seq<ComponentView>, (IoErrorKind, Seq<char>)>;

/// The stage `s` over component sequences.
pub open spec fn stage_view(s: Stage<HostPath, HostComponent, MountError>) -> StageView {
    match s {
        Stage::Target => Stage::Target,
        Stage::MountRoot => Stage::MountRoot,
        Stage::LstatParent { parent, name } => Stage::LstatParent { parent: parent@, name: name@ },
        Stage::CreationExists => Stage::CreationExists,
        Stage::CreationParent { parent, name } => Stage::CreationParent { parent: parent@, name: name@ },
        Stage::CreationLink { parent, resolved } => Stage::CreationLink { parent: parent@, resolved: resolved@ },
        Stage::CreationTarget { target, resolved } => Stage::CreationTarget { target: target@, resolved: resolved@ },
        Stage::CreationTargetParent { dir, target, resolved } => Stage::CreationTargetParent {
            dir: dir@,
            target: target@,
            resolved: resolved@,
        },
        Stage::MkdirExists { current, index } => Stage::MkdirExists { current: current@, index },
        Stage::MkdirCanonical { next, index } => Stage::MkdirCanonical { next: next@, index },
        Stage::Done(p) => Stage::Done(p@),
        Stage::Failed(e) => Stage::Failed(e@),
    }
}

/// The probe `p` over component sequences.
pub open spec fn probe_view(p: Probe<HostPath>) -> Probe<Seq<ComponentView>> {
    match p {
        Probe::Canonicalize(x) => Probe::Canonicalize(x@),
        Probe::Exists(x) => Probe::Exists(x@),
        Probe::Link(x) => Probe::Link(x@),
        Probe::Nothing => Probe::Nothing,
    }
}

/// The reply `r` over component sequences.
pub open spec fn reply_view(r: Reply<HostPath, IoError>) -> ReplyView {
    match r {
        Reply::Canonical(p) => Reply::Canonical(p@),
        Reply::CanonicalFailed(e) => Reply::CanonicalFailed((e.kind, e.message@)),
        Reply::Exists(b) => Reply::Exists(b),
        Reply::NotALink => Reply::NotALink,
        Reply::LinkUnreadable(e) => Reply::LinkUnreadable((e.kind, e.message@)),
        Reply::LinkTarget(p) => Reply::LinkTarget(p@),
    }
}

/// `on_inside` where `p` lies inside the mount, else the escape error.
pub open spec fn inside(req: RequestView, mount: Seq<ComponentView>, p: Seq<ComponentView>, on_inside: StageView) -> StageView {
    if path_within(p, mount) { on_inside } else { Stage::Failed(req.escape()) }
}

/// The I/O failure `e`, reported for the path of the request.
pub open spec fn io_failure(req: RequestView, e: (IoErrorKind, Seq<char>)) -> StageView {
    Stage::Failed(MountErrorView::Io(e.0, e.1, req.normalized_virtual))
}

/// The first stage of a resolution.
pub open spec fn begin_stage(req: RequestView, mount: Seq<ComponentView>, mode: ResolveMode) -> StageView {
    match mode {
        ResolveMode::Existing => Stage::Target,
        ResolveMode::Creation => Stage::CreationExists,
        ResolveMode::Lstat => if req.relative.len() == 0 {
            Stage::MountRoot
        } else {
            match (path_parent(req.candidate_host), path_file_name(req.candidate_host)) {
                (Some(parent), Some(name)) => Stage::LstatParent { parent, name },
                _ => Stage::Failed(req.escape()),
            }
        },
        ResolveMode::MkdirParents => if req.relative.len() == 0 {
            Stage::MountRoot
        } else if req.relative_components().len() == 0 {
            Stage::Done(mount)
        } else {
            Stage::MkdirExists { current: mount, index: 0 }
        },
    }
}

/// What is asked at a stage.
pub open spec fn question(req: RequestView, mount: Seq<ComponentView>, stage: StageView) -> Probe<Seq<ComponentView>> {
    match stage {
        Stage::Target => Probe::Canonicalize(req.candidate_host),
        Stage::MountRoot => Probe::Canonicalize(mount),
        Stage::LstatParent { parent, .. } => Probe::Canonicalize(parent),
        Stage::CreationExists => Probe::Exists(req.candidate_host),
        Stage::CreationParent { parent, .. } => Probe::Canonicalize(parent),
        Stage::CreationLink { resolved, .. } => Probe::Link(resolved),
        Stage::CreationTarget { target, .. } => Probe::Canonicalize(target),
        Stage::CreationTargetParent { dir, .. } => Probe::Canonicalize(dir),
        Stage::MkdirExists { current, index } => Probe::Exists(
            if index < req.relative_components().len() { current.push(req.relative_components()[index as int]) } else { current },
        ),
        Stage::MkdirCanonical { next, .. } => Probe::Canonicalize(next),
        Stage::Done(_) => Probe::Nothing,
        Stage::Failed(_) => Probe::Nothing,
    }
}

/// The canonical place of a symlink target that does not exist itself.
pub open spec fn missing_target(dir: Seq<ComponentView>, target: Seq<ComponentView>) -> Seq<ComponentView> {
    match path_file_name(target) {
        Some(name) => dir.push(name),
        None => dir,
    }
}

/// The stage after an answer. An answer to another question changes nothing.
pub open spec fn next_stage(req: RequestView, mount: Seq<ComponentView>, stage: StageView, reply: ReplyView) -> StageView {
    match (stage, reply) {
        (Stage::Target, Reply::Canonical(p)) => inside(req, mount, p, Stage::Done(p)),
        (Stage::Target, Reply::CanonicalFailed(e)) => io_failure(req, e),
        (Stage::MountRoot, Reply::Canonical(p)) => inside(req, mount, p, Stage::Done(p)),
        (Stage::MountRoot, Reply::CanonicalFailed(e)) => io_failure(req, e),
        (Stage::LstatParent { name, .. }, Reply::Canonical(p)) => inside(req, mount, p, Stage::Done(p.push(name))),
        (Stage::LstatParent { .. }, Reply::CanonicalFailed(e)) => io_failure(req, e),
        (Stage::CreationExists, Reply::Exists(true)) => Stage::Target,
        (Stage::CreationExists, Reply::Exists(false)) => match (path_parent(req.candidate_host), req.final_component()) {
            (Some(parent), Some(name)) => Stage::CreationParent { parent, name },
            _ => Stage::Failed(req.escape()),
        },
        (Stage::CreationParent { name, .. }, Reply::Canonical(p)) => inside(
            req,
            mount,
            p,
            Stage::CreationLink { parent: p, resolved: p.push(name) },
        ),
        (Stage::CreationParent { .. }, Reply::CanonicalFailed(e)) => io_failure(req, e),
        (Stage::CreationLink { resolved, .. }, Reply::NotALink) => Stage::Done(resolved),
        (Stage::CreationLink { .. }, Reply::LinkUnreadable(e)) => io_failure(req, e),
        (Stage::CreationLink { parent, resolved }, Reply::LinkTarget(t)) => Stage::CreationTarget {
            target: path_join(parent, t),
            resolved,
        },
        (Stage::CreationTarget { resolved, .. }, Reply::Canonical(p)) => inside(req, mount, p, Stage::Done(resolved)),
        (Stage::CreationTarget { target, resolved }, Reply::CanonicalFailed(_)) => match path_parent(target) {
            Some(dir) => Stage::CreationTargetParent { dir, target, resolved },
            None => Stage::Failed(req.escape()),
        },
        (Stage::CreationTargetParent { target, resolved, .. }, Reply::Canonical(p)) => inside(
            req,
            mount,
            missing_target(p, target),
            Stage::Done(resolved),
        ),
        (Stage::CreationTargetParent { .. }, Reply::CanonicalFailed(_)) => Stage::Failed(req.escape()),
        (Stage::MkdirExists { current, index }, Reply::Exists(true)) => if index < req.relative_components().len() {
            Stage::MkdirCanonical { next: current.push(req.relative_components()[index as int]), index }
        } else {
            Stage::Done(current)
        },
        (Stage::MkdirExists { current, index }, Reply::Exists(false)) => if index < req.relative_components().len() {
            Stage::Done(current + req.relative_components().skip(index as int))
        } else {
            Stage::Done(current)
        },
        (Stage::MkdirCanonical { index, .. }, Reply::Canonical(p)) => inside(
            req,
            mount,
            p,
            if index + 1 < req.relative_components().len() {
                Stage::MkdirExists { current: p, index: (index + 1) as usize }
            } else {
                Stage::Done(p)
            },
        ),
        (Stage::MkdirCanonical { .. }, Reply::CanonicalFailed(e)) => io_failure(req, e),
        _ => stage,
    }
}

/// The stage after a whole series of answers.
pub open spec fn after_replies(
    req: RequestView,
    mount: Seq<ComponentView>,
    stage: StageView,
    replies: Seq<ReplyView>,
) -> StageView
    decreases replies.len(),
{
    if replies.len() == 0 {
        stage
    } else {
        next_stage(req, mount, after_replies(req, mount, stage, replies.drop_last()), replies.last())
    }
}

/// A resolution in progress.
pub struct Resolver {
    request: ResolutionRequest,
    mount_host: HostPath,
    components: HostPath,
    stage: Stage<HostPath, HostComponent, MountError>,
}

fn io_failed(request: &ResolutionRequest, e: IoError) -> (s: Stage<HostPath, HostComponent, MountError>)
    ensures
        stage_view(s) == io_failure(request@, (e.kind, e.message@)),
{
    Stage::Failed(MountError::Io(e, request.normalized_virtual.clone()))
}

fn escaped(request: &ResolutionRequest) -> (s: Stage<HostPath, HostComponent, MountError>)
    ensures
        stage_view(s) == Stage::<Seq<ComponentView>, ComponentView, MountErrorView>::Failed(request@.escape()),
{
    Stage::Failed(path_escape(request.normalized_virtual.as_str()))
}

impl Resolver {
    /// The request being resolved.
    pub closed spec fn request(self) -> RequestView {
        self.request@
    }

    /// The mounted host directory.
    pub closed spec fn mount(self) -> Seq<ComponentView> {
        self.mount_host@
    }

    /// Where the resolution stands.
    pub closed spec fn stage(self) -> StageView {
        stage_view(self.stage)
    }

    /// The resolver keeps the components of its mount-relative path at hand.
    #[verifier::type_invariant]
    closed spec fn wf(self) -> bool {
        self.components@ == self.request@.relative_components()
    }

    /// Starts resolving a virtual path under a mount.
    pub fn start(virtual_path: &str, mount_virtual_path: &str, mount_host_path: &HostPath, mode: ResolveMode) -> (r: Result<
        Resolver,
        MountError,
    >)
        ensures
            r is Ok <==> request_error(virtual_path@, mount_virtual_path@, mount_host_path@) is None,
            r is Err ==> Some(r->Err_0@) == request_error(virtual_path@, mount_virtual_path@, mount_host_path@),
            r is Ok ==> {
                &&& r->Ok_0.request() == RequestView::of(virtual_path@, mount_virtual_path@, mount_host_path@)
                &&& r->Ok_0.mount() == mount_host_path@
                &&& r->Ok_0.stage() == begin_stage(r->Ok_0.request(), mount_host_path@, mode)
            },
    {
        let request: ResolutionRequest = match ResolutionRequest::new(virtual_path, mount_virtual_path, mount_host_path) {
            Err(e) => return Err(e),
            Ok(request) => request,
        };
        let components: HostPath = HostPath::from_relative(request.relative.as_str());
        let mount_host: HostPath = mount_host_path.duplicate();
        let stage: Stage<HostPath, HostComponent, MountError> = match mode {
            ResolveMode::Existing => Stage::Target,
            ResolveMode::Creation => Stage::CreationExists,
            ResolveMode::Lstat => {
                if request.relative.as_str().is_empty() {
                    Stage::MountRoot
                } else {
                    match (request.candidate_host.parent(), request.candidate_host.file_name()) {
                        (Some(parent), Some(name)) => Stage::LstatParent { parent, name },
                        _ => escaped(&request),
                    }
                }
            },
            ResolveMode::MkdirParents => {
                if request.relative.as_str().is_empty() {
                    Stage::MountRoot
                } else if components.components.len() == 0 {
                    Stage::Done(mount_host_path.duplicate())
                } else {
                    Stage::MkdirExists { current: mount_host_path.duplicate(), index: 0 }
                }
            },
        };
        Ok(Resolver { request, mount_host, components, stage })
    }

    /// What has to be found out next.
    pub fn probe(&self) -> (p: Probe<HostPath>)
        ensures
            probe_view(p) == question(self.request(), self.mount(), self.stage()),
    {
        proof {
            use_type_invariant(self);
        }
        match &self.stage {
            Stage::Target => Probe::Canonicalize(self.request.candidate_host.duplicate()),
            Stage::MountRoot => Probe::Canonicalize(self.mount_host.duplicate()),
            Stage::LstatParent { parent, .. } => Probe::Canonicalize(parent.duplicate()),
            Stage::CreationExists => Probe::Exists(self.request.candidate_host.duplicate()),
            Stage::CreationParent { parent, .. } => Probe::Canonicalize(parent.duplicate()),
            Stage::CreationLink { resolved, .. } => Probe::Link(resolved.duplicate()),
            Stage::CreationTarget { target, .. } => Probe::Canonicalize(target.duplicate()),
            Stage::CreationTargetParent { dir, .. } => Probe::Canonicalize(dir.duplicate()),
            Stage::MkdirExists { current, index } => {
                if *index < self.components.components.len() {
                    Probe::Exists(current.join_component(&self.components.components[*index]))
                } else {
                    Probe::Exists(current.duplicate())
                }
            },
            Stage::MkdirCanonical { next, .. } => Probe::Canonicalize(next.duplicate()),
            Stage::Done(_) => Probe::Nothing,
            Stage::Failed(_) => Probe::Nothing,
        }
    }

    /// `on_inside` where `p` lies inside the mount, else the escape error.
    fn inside(&self, p: &HostPath, on_inside: Stage<HostPath, HostComponent, MountError>) -> (s: Stage<
        HostPath,
        HostComponent,
        MountError,
    >)
        ensures
            stage_view(s) == inside(self.request(), self.mount(), p@, stage_view(on_inside)),
    {
        match check_boundary(p, &self.mount_host, self.request.normalized_virtual.as_str()) {
            Ok(()) => on_inside,
            Err(e) => Stage::Failed(e),
        }
    }

    /// Takes in the answer to the last question.
    pub fn answer(self, reply: Reply<HostPath, IoError>) -> (r: Resolver)
        ensures
            r.request() == self.request(),
            r.mount() == self.mount(),
            r.stage() == next_stage(self.request(), self.mount(), self.stage(), reply_view(reply)),
    {
        proof {
            use_type_invariant(&self);
        }
        let next: Option<Stage<HostPath, HostComponent, MountError>> = match (&self.stage, reply) {
            (Stage::Target, Reply::Canonical(p)) => Some(self.inside(&p, Stage::Done(p.duplicate()))),
            (Stage::Target, Reply::CanonicalFailed(e)) => Some(io_failed(&self.request, e)),
            (Stage::MountRoot, Reply::Canonical(p)) => Some(self.inside(&p, Stage::Done(p.duplicate()))),
            (Stage::MountRoot, Reply::CanonicalFailed(e)) => Some(io_failed(&self.request, e)),
            (Stage::LstatParent { name, .. }, Reply::Canonical(p)) => {
                Some(self.inside(&p, Stage::Done(p.join_component(name))))
            },
            (Stage::LstatParent { .. }, Reply::CanonicalFailed(e)) => Some(io_failed(&self.request, e)),
            (Stage::CreationExists, Reply::Exists(found)) => {
                if found {
                    Some(Stage::Target)
                } else {
                    match (self.request.candidate_host.parent(), self.request.final_component()) {
                        (Some(parent), Ok(name)) => Some(Stage::CreationParent { parent, name }),
                        _ => Some(escaped(&self.request)),
                    }
                }
            },
            (Stage::CreationParent { name, .. }, Reply::Canonical(p)) => {
                let resolved: HostPath = p.join_component(name);
                Some(self.inside(&p, Stage::CreationLink { parent: p.duplicate(), resolved }))
            },
            (Stage::CreationParent { .. }, Reply::CanonicalFailed(e)) => Some(io_failed(&self.request, e)),
            (Stage::CreationLink { resolved, .. }, Reply::NotALink) => Some(Stage::Done(resolved.duplicate())),
            (Stage::CreationLink { .. }, Reply::LinkUnreadable(e)) => Some(io_failed(&self.request, e)),
            (Stage::CreationLink { parent, resolved }, Reply::LinkTarget(t)) => {
                Some(Stage::CreationTarget { target: parent.join(&t), resolved: resolved.duplicate() })
            },
            (Stage::CreationTarget { resolved, .. }, Reply::Canonical(p)) => {
                Some(self.inside(&p, Stage::Done(resolved.duplicate())))
            },
            (Stage::CreationTarget { target, resolved }, Reply::CanonicalFailed(_)) => {
                match target.parent() {
                    Some(dir) => Some(
                        Stage::CreationTargetParent {
                            dir,
                            target: target.duplicate(),
                            resolved: resolved.duplicate(),
                        },
                    ),
                    None => Some(escaped(&self.request)),
                }
            },
            (Stage::CreationTargetParent { target, resolved, .. }, Reply::Canonical(p)) => {
                let place: HostPath = match target.file_name() {
                    Some(name) => p.join_component(&name),
                    None => p,
                };
                Some(self.inside(&place, Stage::Done(resolved.duplicate())))
            },
            (Stage::CreationTargetParent { .. }, Reply::CanonicalFailed(_)) => Some(escaped(&self.request)),
            (Stage::MkdirExists { current, index }, Reply::Exists(found)) => {
                if *index < self.components.components.len() {
                    if found {
                        let next: HostPath = current.join_component(&self.components.components[*index]);
                        Some(Stage::MkdirCanonical { next, index: *index })
                    } else {
                        Some(Stage::Done(self.append_from(current, *index)))
                    }
                } else {
                    Some(Stage::Done(current.duplicate()))
                }
            },
            (Stage::MkdirCanonical { index, .. }, Reply::Canonical(p)) => {
                let after: Stage<HostPath, HostComponent, MountError> = if *index < self.components.components.len()
                    && *index + 1 < self.components.components.len() {
                    Stage::MkdirExists { current: p.duplicate(), index: *index + 1 }
                } else {
                    Stage::Done(p.duplicate())
                };
                Some(self.inside(&p, after))
            },
            (Stage::MkdirCanonical { .. }, Reply::CanonicalFailed(e)) => Some(io_failed(&self.request, e)),
            _ => None,
        };
        match next {
            Some(stage) => Resolver {
                request: self.request,
                mount_host: self.mount_host,
                components: self.components,
                stage,
            },
            None => self,
        }
    }

    /// `current` followed by the components from `index` on.
    fn append_from(&self, current: &HostPath, index: usize) -> (r: HostPath)
        requires
            index < self.components@.len(),
        ensures
            r@ == current@ + self.components@.skip(index as int),
    {
        let mut out: HostPath = current.duplicate();
        let mut i: usize = index;
        let ghost comps = self.components@;
        proof {
            assert(out@ =~= current@ + comps.subrange(index as int, index as int));
        }
        while i < self.components.components.len()
            invariant
                index <= i <= comps.len(),
                comps == self.components@,
                out@ == current@ + comps.subrange(index as int, i as int),
            decreases comps.len() - i,
        {
            let ghost before = out@;
            out.components.push(clone_component(&self.components.components[i]));
            proof {
                assert(out@ =~= before.push(comps[i as int]));
                assert(comps.subrange(index as int, i + 1) =~= comps.subrange(index as int, i as int).push(
                    comps[i as int],
                ));
                assert(out@ =~= current@ + comps.subrange(index as int, i + 1));
            }
            i = i + 1;
        }
        proof {
            assert(comps.subrange(index as int, comps.len() as int) =~= comps.skip(index as int));
        }
        out
    }

    /// The outcome, once resolution has ended.
    pub fn finish(self) -> (r: Option<Result<HostPath, MountError>>)
        ensures
            match self.stage() {
                Stage::Done(p) => r is Some && r->Some_0 is Ok && r->Some_0->Ok_0@ == p,
                Stage::Failed(e) => r is Some && r->Some_0 is Err && r->Some_0->Err_0@ == e,
                _ => r is None,
            },
    {
        match self.stage {
            Stage::Done(p) => Some(Ok(p)),
            Stage::Failed(e) => Some(Err(e)),
            _ => None,
        }
    }
}

/// The host paths a stage may still end with lie inside the mount.
pub open spec fn stage_inside(mount: Seq<ComponentView>, stage: StageView) -> bool {
    match stage {
        Stage::CreationLink { resolved, .. } => path_within(resolved, mount),
        Stage::CreationTarget { resolved, .. } => path_within(resolved, mount),
        Stage::CreationTargetParent { resolved, .. } => path_within(resolved, mount),
        Stage::MkdirExists { current, .. } => path_within(current, mount),
        Stage::Done(p) => path_within(p, mount),
        _ => true,
    }
}

/// Whatever the host filesystem answers, a resolution that succeeds ends with
/// a path inside the mounted directory.
pub proof fn law_resolved_paths_stay_inside(
    req: RequestView,
    mount: Seq<ComponentView>,
    mode: ResolveMode,
    replies: Seq<ReplyView>,
)
    ensures
        stage_inside(mount, after_replies(req, mount, begin_stage(req, mount, mode), replies)),
    decreases replies.len(),
{
    lemma_within_self(mount);
    if replies.len() > 0 {
        law_resolved_paths_stay_inside(req, mount, mode, replies.drop_last());
        let stage = after_replies(req, mount, begin_stage(req, mount, mode), replies.drop_last());
        match (stage, replies.last()) {
            (Stage::LstatParent { name, .. }, Reply::Canonical(p)) => {
                if path_within(p, mount) {
                    lemma_within_append(mount, p, seq![name]);
                    assert(p.push(name) =~= p + seq![name]);
                }
            },
            (Stage::CreationParent { name, .. }, Reply::Canonical(p)) => {
                if path_within(p, mount) {
                    lemma_within_append(mount, p, seq![name]);
                    assert(p.push(name) =~= p + seq![name]);
                }
            },
            (Stage::MkdirExists { current, index }, Reply::Exists(_)) => {
                lemma_within_append(mount, current, req.relative_components().skip(index as int));
            },
            _ => {},
        }
    }
}

/// The host paths and names a stage may still end with hold no `..`.
pub open spec fn stage_plain(stage: StageView) -> bool {
    match stage {
        Stage::LstatParent { name, .. } => !(name is ParentDir),
        Stage::CreationParent { name, .. } => !(name is ParentDir),
        Stage::CreationLink { resolved, .. } => !has_parent_component(resolved),
        Stage::CreationTarget { resolved, .. } => !has_parent_component(resolved),
        Stage::CreationTargetParent { resolved, .. } => !has_parent_component(resolved),
        Stage::MkdirExists { current, .. } => !has_parent_component(current),
        Stage::Done(p) => !has_parent_component(p),
        _ => true,
    }
}

/// Where canonical paths hold no `..`, neither does a path that resolution ends
/// with: it lies inside the mounted directory by its names alone.
pub proof fn law_resolved_paths_hold_no_parent_components(
    virtual_path: Seq<char>,
    mount_virtual: Seq<char>,
    mount: Seq<ComponentView>,
    mode: ResolveMode,
    replies: Seq<ReplyView>,
)
    requires
        request_error(virtual_path, mount_virtual, mount) is None,
        !has_parent_component(mount),
        forall|i: int|
            0 <= i < replies.len() && (#[trigger] replies[i]) is Canonical ==> !has_parent_component(
                replies[i]->Canonical_0,
            ),
    ensures
        ({
            let req = RequestView::of(virtual_path, mount_virtual, mount);
            stage_plain(after_replies(req, mount, begin_stage(req, mount, mode), replies))
        }),
    decreases replies.len(),
{
    let req = RequestView::of(virtual_path, mount_virtual, mount);
    if replies.len() > 0 {
        let before = replies.drop_last();
        assert forall|i: int| 0 <= i < before.len() && (#[trigger] before[i]) is Canonical implies !has_parent_component(
            before[i]->Canonical_0,
        ) by {
            assert(before[i] == replies[i]);
        }
        law_resolved_paths_hold_no_parent_components(virtual_path, mount_virtual, mount, mode, before);
        let stage = after_replies(req, mount, begin_stage(req, mount, mode), before);
        match (stage, replies.last()) {
            (Stage::LstatParent { name, .. }, Reply::Canonical(p)) => {
                lemma_plain_append(p, seq![name]);
                assert(p.push(name) =~= p + seq![name]);
            },
            (Stage::CreationParent { name, .. }, Reply::Canonical(p)) => {
                lemma_plain_append(p, seq![name]);
                assert(p.push(name) =~= p + seq![name]);
            },
            (Stage::MkdirExists { current, index }, Reply::Exists(_)) => {
                law_candidate_within_mount(virtual_path, mount_virtual, mount);
                if index < req.relative_components().len() {
                    lemma_plain_append(current, req.relative_components().skip(index as int));
                }
            },
            _ => {},
        }
    }
}

proof fn lemma_plain_append(p: Seq<ComponentView>, tail: Seq<ComponentView>)
    requires
        !has_parent_component(p),
        forall|i: int| 0 <= i < tail.len() ==> !((#[trigger] tail[i]) is ParentDir),
    ensures
        !has_parent_component(p + tail),
{
    assert forall|i: int| 0 <= i < (p + tail).len() implies !((#[trigger] (p + tail)[i]) is ParentDir) by {
        if i >= p.len() {
            assert((p + tail)[i] == tail[i - p.len()]);
        } else {
            assert((p + tail)[i] == p[i]);
        }
    }
}

proof fn lemma_within_self(mount: Seq<ComponentView>)
    ensures
        path_within(mount, mount),
{
    assert(mount.take(mount.len() as int) =~= mount);
}

/// A resolution that has ended asks nothing and no answer changes it.
pub proof fn law_ended_resolution_is_final(
    req: RequestView,
    mount: Seq<ComponentView>,
    stage: StageView,
    reply: ReplyView,
)
    requires
        question(req, mount, stage) is Nothing,
    ensures
        next_stage(req, mount, stage, reply) == stage,
{
}

/// Whether an answer is one to the question that was asked.
pub open spec fn answers_question(probe: Probe<Seq<ComponentView>>, reply: ReplyView) -> bool {
    match probe {
        Probe::Canonicalize(_) => reply is Canonical || reply is CanonicalFailed,
        Probe::Exists(_) => reply is Exists,
        Probe::Link(_) => reply is NotALink || reply is LinkUnreadable || reply is LinkTarget,
        Probe::Nothing => false,
    }
}

/// How many questions a resolution may still ask, at most.
pub open spec fn questions_left(req: RequestView, stage: StageView) -> nat {
    let n = req.relative_components().len();
    match stage {
        Stage::Target | Stage::MountRoot | Stage::LstatParent { .. } => 1,
        Stage::CreationExists => 5,
        Stage::CreationParent { .. } => 4,
        Stage::CreationLink { .. } => 3,
        Stage::CreationTarget { .. } => 2,
        Stage::CreationTargetParent { .. } => 1,
        Stage::MkdirExists { index, .. } => if index < n { (2 * (n - index)) as nat } else { 1 },
        Stage::MkdirCanonical { index, .. } => if index < n { (2 * (n - index) - 1) as nat } else { 1 },
        Stage::Done(_) | Stage::Failed(_) => 0,
    }
}

/// Every answer brings a resolution closer to its end, and it asks nothing more
/// exactly when it has ended.
pub proof fn law_resolution_ends(req: RequestView, mount: Seq<ComponentView>, stage: StageView, reply: ReplyView)
    requires
        answers_question(question(req, mount, stage), reply),
        req.relative_components().len() <= usize::MAX,
    ensures
        questions_left(req, next_stage(req, mount, stage, reply)) < questions_left(req, stage),
        question(req, mount, next_stage(req, mount, stage, reply)) is Nothing <==> questions_left(
            req,
            next_stage(req, mount, stage, reply),
        ) == 0,
{
}

// ---------------------------------------------------------------------------
// What each way of resolving comes to
// ---------------------------------------------------------------------------

/// The answers of a host on which the first components of a path exist and
/// have the canonical forms `canonical`, one after the other.
pub open spec fn existing_ancestors(canonical: Seq<Seq<ComponentView>>) -> Seq<ReplyView>
    decreases canonical.len(),
{
    if canonical.len() == 0 {
        Seq::empty()
    } else {
        existing_ancestors(canonical.drop_last()).push(Reply::Exists(true)).push(Reply::Canonical(canonical.last()))
    }
}

/// The canonical form of the deepest ancestor that exists: the mounted
/// directory itself where none of the components does.
pub open spec fn deepest_ancestor(mount: Seq<ComponentView>, canonical: Seq<Seq<ComponentView>>) -> Seq<ComponentView> {
    if canonical.len() == 0 { mount } else { canonical.last() }
}

proof fn lemma_after_one_more(
    req: RequestView,
    mount: Seq<ComponentView>,
    stage: StageView,
    replies: Seq<ReplyView>,
    reply: ReplyView,
)
    ensures
        after_replies(req, mount, stage, replies.push(reply)) == next_stage(
            req,
            mount,
            after_replies(req, mount, stage, replies),
            reply,
        ),
{
    assert(replies.push(reply).drop_last() =~= replies);
}

/// Making a directory with its parents asks for one component after the other
/// behind the deepest ancestor found so far. At the first that does not exist it
/// ends with that ancestor followed by every component from there on, in order;
/// where all exist it ends with the canonical form of the last.
pub proof fn law_missing_parents_are_all_made(
    req: RequestView,
    mount: Seq<ComponentView>,
    canonical: Seq<Seq<ComponentView>>,
)
    requires
        req.relative.len() > 0,
        0 < req.relative_components().len() <= usize::MAX,
        canonical.len() <= req.relative_components().len(),
        forall|i: int|
            0 <= i < canonical.len() ==> (#[trigger] canonical[i]).len() >= mount.len() && canonical[i].take(
                mount.len() as int,
            ) == mount,
    ensures
        ({
            let names = req.relative_components();
            let found = canonical.len() as int;
            let replies = existing_ancestors(canonical);
            let begin = begin_stage(req, mount, ResolveMode::MkdirParents);
            let here = deepest_ancestor(mount, canonical);
            if found < names.len() {
                &&& question(req, mount, after_replies(req, mount, begin, replies)) == Probe::Exists(
                    here + seq![names[found]],
                )
                &&& question(req, mount, after_replies(req, mount, begin, replies.push(Reply::Exists(true))))
                    == Probe::Canonicalize(here + seq![names[found]])
                &&& after_replies(req, mount, begin, replies.push(Reply::Exists(false))) == Stage::<
                    Seq<ComponentView>,
                    ComponentView,
                    MountErrorView,
                >::Done(here + names.subrange(found, names.len() as int))
            } else {
                after_replies(req, mount, begin, replies) == Stage::<
                    Seq<ComponentView>,
                    ComponentView,
                    MountErrorView,
                >::Done(here)
            }
        }),
    decreases canonical.len(),
{
    let names = req.relative_components();
    let found = canonical.len() as int;
    let replies = existing_ancestors(canonical);
    let begin = begin_stage(req, mount, ResolveMode::MkdirParents);
    let here = deepest_ancestor(mount, canonical);
    if found > 0 {
        let before = canonical.drop_last();
        assert forall|i: int| 0 <= i < before.len() implies (#[trigger] before[i]).len() >= mount.len() && before[i].take(
            mount.len() as int,
        ) == mount by {
            assert(before[i] == canonical[i]);
        }
        law_missing_parents_are_all_made(req, mount, before);
        let earlier = existing_ancestors(before);
        lemma_after_one_more(req, mount, begin, earlier, Reply::Exists(true));
        lemma_after_one_more(req, mount, begin, earlier.push(Reply::Exists(true)), Reply::Canonical(canonical.last()));
        let at = after_replies(req, mount, begin, earlier);
        lemma_mkdir_stage(req, mount, before);
        assert(canonical[found - 1].take(mount.len() as int) == mount);
    }
    lemma_mkdir_stage(req, mount, canonical);
    lemma_after_one_more(req, mount, begin, replies, Reply::Exists(true));
    lemma_after_one_more(req, mount, begin, replies, Reply::Exists(false));
    if found < names.len() {
        assert(here.push(names[found]) =~= here + seq![names[found]]);
        assert(names.skip(found) =~= names.subrange(found, names.len() as int));
    }
}

/// Where the walk stands once some ancestors have been found.
proof fn lemma_mkdir_stage(req: RequestView, mount: Seq<ComponentView>, canonical: Seq<Seq<ComponentView>>)
    requires
        req.relative.len() > 0,
        0 < req.relative_components().len() <= usize::MAX,
        canonical.len() <= req.relative_components().len(),
        forall|i: int|
            0 <= i < canonical.len() ==> (#[trigger] canonical[i]).len() >= mount.len() && canonical[i].take(
                mount.len() as int,
            ) == mount,
    ensures
        ({
            let stage = after_replies(
                req,
                mount,
                begin_stage(req, mount, ResolveMode::MkdirParents),
                existing_ancestors(canonical),
            );
            if canonical.len() < req.relative_components().len() {
                stage == (Stage::<Seq<ComponentView>, ComponentView, MountErrorView>::MkdirExists {
                    current: deepest_ancestor(mount, canonical),
                    index: canonical.len() as usize,
                })
            } else {
                stage == Stage::<Seq<ComponentView>, ComponentView, MountErrorView>::Done(canonical.last())
            }
        }),
    decreases canonical.len(),
{
    let begin = begin_stage(req, mount, ResolveMode::MkdirParents);
    if canonical.len() > 0 {
        let before = canonical.drop_last();
        assert forall|i: int| 0 <= i < before.len() implies (#[trigger] before[i]).len() >= mount.len() && before[i].take(
            mount.len() as int,
        ) == mount by {
            assert(before[i] == canonical[i]);
        }
        lemma_mkdir_stage(req, mount, before);
        let earlier = existing_ancestors(before);
        lemma_after_one_more(req, mount, begin, earlier, Reply::Exists(true));
        lemma_after_one_more(req, mount, begin, earlier.push(Reply::Exists(true)), Reply::Canonical(canonical.last()));
        assert(canonical[canonical.len() - 1].take(mount.len() as int) == mount);
    }
}

/// On a host without symlinks, where every existing ancestor is its own
/// canonical form, making a directory with its parents ends with the whole
/// candidate path, however many of the ancestors exist.
pub proof fn law_plain_mkdir_ends_at_the_candidate(
    virtual_path: Seq<char>,
    mount_virtual: Seq<char>,
    mount: Seq<ComponentView>,
    canonical: Seq<Seq<ComponentView>>,
)
    requires
        request_error(virtual_path, mount_virtual, mount) is None,
        ({
            let req = RequestView::of(virtual_path, mount_virtual, mount);
            &&& req.relative.len() > 0
            &&& 0 < req.relative_components().len() <= usize::MAX
            &&& canonical.len() <= req.relative_components().len()
            &&& forall|i: int|
                0 <= i < canonical.len() ==> #[trigger] canonical[i] == req.candidate_host.take(mount.len() + i + 1)
        }),
    ensures
        ({
            let req = RequestView::of(virtual_path, mount_virtual, mount);
            let begin = begin_stage(req, mount, ResolveMode::MkdirParents);
            let replies = if canonical.len() < req.relative_components().len() {
                existing_ancestors(canonical).push(Reply::Exists(false))
            } else {
                existing_ancestors(canonical)
            };
            after_replies(req, mount, begin, replies) == Stage::<Seq<ComponentView>, ComponentView, MountErrorView>::Done(
                req.candidate_host,
            )
        }),
{
    let req = RequestView::of(virtual_path, mount_virtual, mount);
    let names = req.relative_components();
    let begin = begin_stage(req, mount, ResolveMode::MkdirParents);
    law_candidate_within_mount(virtual_path, mount_virtual, mount);
    assert(names[0] is Normal);
    assert(req.candidate_host == mount + names);
    assert forall|i: int| 0 <= i < canonical.len() implies (#[trigger] canonical[i]).len() >= mount.len() && canonical[i].take(
        mount.len() as int,
    ) == mount by {
        assert(canonical[i].take(mount.len() as int) =~= mount);
    }
    law_missing_parents_are_all_made(req, mount, canonical);
    let found = canonical.len() as int;
    let here = deepest_ancestor(mount, canonical);
    if found > 0 {
        assert(here == req.candidate_host.take(mount.len() + found));
    } else {
        assert(here =~= req.candidate_host.take(mount.len() + found));
    }
    if found < names.len() {
        assert(here + names.subrange(found, names.len() as int) =~= req.candidate_host);
    } else {
        assert(here =~= req.candidate_host);
    }
}

/// An existing path is looked up as a whole; what it canonicalizes to is the
/// result exactly where that begins with the mounted directory.
pub proof fn law_existing_paths_resolve_to_their_canonical_form(
    req: RequestView,
    mount: Seq<ComponentView>,
    canonical: Seq<ComponentView>,
    failure: (IoErrorKind, Seq<char>),
)
    ensures
        ({
            let begin = begin_stage(req, mount, ResolveMode::Existing);
            &&& question(req, mount, begin) == Probe::Canonicalize(req.candidate_host)
            &&& next_stage(req, mount, begin, Reply::Canonical(canonical)) == if canonical.len() >= mount.len()
                && canonical.take(mount.len() as int) == mount {
                Stage::<Seq<ComponentView>, ComponentView, MountErrorView>::Done(canonical)
            } else {
                Stage::Failed(MountErrorView::PathEscape { virtual_path: req.normalized_virtual })
            }
            &&& next_stage(req, mount, begin, Reply::CanonicalFailed(failure)) == Stage::<
                Seq<ComponentView>,
                ComponentView,
                MountErrorView,
            >::Failed(MountErrorView::Io(failure.0, failure.1, req.normalized_virtual))
        }),
{
}

/// A path whose last entry is not followed is that entry of the canonical form
/// of its directory; the mounted directory itself is looked up as it is.
pub proof fn law_unfollowed_paths_keep_their_last_name(
    req: RequestView,
    mount: Seq<ComponentView>,
    directory: Seq<ComponentView>,
    name: Seq<char>,
    canonical: Seq<ComponentView>,
)
    requires
        req.relative.len() > 0 ==> req.candidate_host == directory + seq![ComponentView::Normal(name)],
    ensures
        ({
            let begin = begin_stage(req, mount, ResolveMode::Lstat);
            let inside = canonical.len() >= mount.len() && canonical.take(mount.len() as int) == mount;
            &&& question(req, mount, begin) == Probe::Canonicalize(if req.relative.len() > 0 { directory } else { mount })
            &&& next_stage(req, mount, begin, Reply::Canonical(canonical)) == if !inside {
                Stage::<Seq<ComponentView>, ComponentView, MountErrorView>::Failed(
                    MountErrorView::PathEscape { virtual_path: req.normalized_virtual },
                )
            } else if req.relative.len() > 0 {
                Stage::Done(canonical + seq![ComponentView::Normal(name)])
            } else {
                Stage::Done(canonical)
            }
        }),
{
    if req.relative.len() > 0 {
        let whole = directory + seq![ComponentView::Normal(name)];
        assert(whole.last() == ComponentView::Normal(name));
        assert(whole.drop_last() =~= directory);
        assert(canonical.push(ComponentView::Normal(name)) =~= canonical + seq![ComponentView::Normal(name)]);
    }
}

/// A new entry is made in the canonical form of its directory, under its own
/// name, and only where that directory lies inside the mount. One that exists
/// already is resolved as an existing path.
pub proof fn law_new_entries_are_made_in_their_directory(
    req: RequestView,
    mount: Seq<ComponentView>,
    directory: Seq<ComponentView>,
    name: Seq<char>,
    canonical: Seq<ComponentView>,
)
    requires
        req.candidate_host == directory + seq![ComponentView::Normal(name)],
        !name.contains('/'),
        !name.contains('\\'),
        name != "."@,
        name != ".."@,
    ensures
        ({
            let begin = begin_stage(req, mount, ResolveMode::Creation);
            let missing = next_stage(req, mount, begin, Reply::Exists(false));
            let found = next_stage(req, mount, missing, Reply::Canonical(canonical));
            let entry = canonical + seq![ComponentView::Normal(name)];
            &&& question(req, mount, begin) == Probe::Exists(req.candidate_host)
            &&& next_stage(req, mount, begin, Reply::Exists(true)) == begin_stage(req, mount, ResolveMode::Existing)
            &&& question(req, mount, missing) == Probe::Canonicalize(directory)
            &&& if canonical.len() >= mount.len() && canonical.take(mount.len() as int) == mount {
                &&& question(req, mount, found) == Probe::Link(entry)
                &&& next_stage(req, mount, found, Reply::NotALink) == Stage::<
                    Seq<ComponentView>,
                    ComponentView,
                    MountErrorView,
                >::Done(entry)
            } else {
                found == Stage::<Seq<ComponentView>, ComponentView, MountErrorView>::Failed(
                    MountErrorView::PathEscape { virtual_path: req.normalized_virtual },
                )
            }
        }),
{
    let whole = directory + seq![ComponentView::Normal(name)];
    assert(whole.last() == ComponentView::Normal(name));
    assert(whole.drop_last() =~= directory);
    assert(canonical.push(ComponentView::Normal(name)) =~= canonical + seq![ComponentView::Normal(name)]);
}

/// Where a new entry is a symlink, its target decides: the target, seen from
/// the directory of the entry, or the place it would have in its own directory
/// where it does not exist, has to lie inside the mount. The entry itself is
/// then the result.
pub proof fn law_links_at_new_entries_must_stay_inside(
    req: RequestView,
    mount: Seq<ComponentView>,
    directory: Seq<ComponentView>,
    entry: Seq<ComponentView>,
    target: Seq<ComponentView>,
    place: Seq<ComponentView>,
    last: ComponentView,
    canonical: Seq<ComponentView>,
    failure: (IoErrorKind, Seq<char>),
)
    requires
        path_join(directory, target) == place + seq![last],
    ensures
        ({
            let link = Stage::CreationLink { parent: directory, resolved: entry };
            let followed = next_stage(req, mount, link, Reply::LinkTarget(target));
            let inside = canonical.len() >= mount.len() && canonical.take(mount.len() as int) == mount;
            let escape = Stage::<Seq<ComponentView>, ComponentView, MountErrorView>::Failed(
                MountErrorView::PathEscape { virtual_path: req.normalized_virtual },
            );
            let absent = next_stage(req, mount, followed, Reply::CanonicalFailed(failure));
            let beside = if last is Normal || last is Opaque { canonical + seq![last] } else { canonical };
            &&& question(req, mount, followed) == Probe::Canonicalize(place + seq![last])
            &&& next_stage(req, mount, followed, Reply::Canonical(canonical)) == if inside {
                Stage::Done(entry)
            } else {
                escape
            }
            &&& last is RootDir || last is Prefix ==> absent == escape
            &&& !(last is RootDir || last is Prefix) ==> {
                &&& question(req, mount, absent) == Probe::Canonicalize(place)
                &&& next_stage(req, mount, absent, Reply::Canonical(canonical)) == if beside.len() >= mount.len()
                    && beside.take(mount.len() as int) == mount {
                    Stage::Done(entry)
                } else {
                    escape
                }
                &&& next_stage(req, mount, absent, Reply::CanonicalFailed(failure)) == escape
            }
            &&& next_stage(req, mount, link, Reply::LinkUnreadable(failure)) == Stage::<
                Seq<ComponentView>,
                ComponentView,
                MountErrorView,
            >::Failed(MountErrorView::Io(failure.0, failure.1, req.normalized_virtual))
        }),
{
    let whole = place + seq![last];
    assert(whole.last() == last);
    assert(whole.drop_last() =~= place);
    assert(canonical.push(last) =~= canonical + seq![last]);
}

/// A name that cannot be created, one with a separator or a dot name, is
/// refused as an escape once the entry turns out not to exist.
pub proof fn law_uncreatable_names_are_refused(req: RequestView, mount: Seq<ComponentView>)
    requires
        req.candidate_host.len() == 0 || match req.candidate_host.last() {
            ComponentView::Normal(name) => name.contains('/') || name.contains('\\') || name == "."@ || name == ".."@,
            _ => true,
        },
    ensures
        next_stage(req, mount, begin_stage(req, mount, ResolveMode::Creation), Reply::Exists(false)) == Stage::<
            Seq<ComponentView>,
            ComponentView,
            MountErrorView,
        >::Failed(MountErrorView::PathEscape { virtual_path: req.normalized_virtual }),
{
}

/// An ancestor whose canonical form lies outside the mount ends the making of
/// directories as an escape, and one that cannot be canonicalized with the
/// failure of the host.
pub proof fn law_ancestors_must_stay_inside(
    req: RequestView,
    mount: Seq<ComponentView>,
    canonical: Seq<Seq<ComponentView>>,
    outside: Seq<ComponentView>,
    failure: (IoErrorKind, Seq<char>),
)
    requires
        req.relative.len() > 0,
        0 < req.relative_components().len() <= usize::MAX,
        canonical.len() < req.relative_components().len(),
        forall|i: int|
            0 <= i < canonical.len() ==> (#[trigger] canonical[i]).len() >= mount.len() && canonical[i].take(
                mount.len() as int,
            ) == mount,
        outside.len() < mount.len() || outside.take(mount.len() as int) != mount,
    ensures
        ({
            let begin = begin_stage(req, mount, ResolveMode::MkdirParents);
            let found = existing_ancestors(canonical).push(Reply::Exists(true));
            &&& after_replies(req, mount, begin, found.push(Reply::Canonical(outside))) == Stage::<
                Seq<ComponentView>,
                ComponentView,
                MountErrorView,
            >::Failed(MountErrorView::PathEscape { virtual_path: req.normalized_virtual })
            &&& after_replies(req, mount, begin, found.push(Reply::CanonicalFailed(failure))) == Stage::<
                Seq<ComponentView>,
                ComponentView,
                MountErrorView,
            >::Failed(MountErrorView::Io(failure.0, failure.1, req.normalized_virtual))
        }),
{
    let begin = begin_stage(req, mount, ResolveMode::MkdirParents);
    let replies = existing_ancestors(canonical);
    lemma_mkdir_stage(req, mount, canonical);
    lemma_after_one_more(req, mount, begin, replies, Reply::Exists(true));
    let found = replies.push(Reply::Exists(true));
    lemma_after_one_more(req, mount, begin, found, Reply::Canonical(outside));
    lemma_after_one_more(req, mount, begin, found, Reply::CanonicalFailed(failure));
}

/// Where the directory of a path cannot be canonicalized, the failure of the
/// host is reported for the path.
pub proof fn law_host_failures_are_reported(
    req: RequestView,
    mount: Seq<ComponentView>,
    directory: Seq<ComponentView>,
    name: Seq<char>,
    failure: (IoErrorKind, Seq<char>),
)
    requires
        req.candidate_host == directory + seq![ComponentView::Normal(name)],
        !name.contains('/'),
        !name.contains('\\'),
        name != "."@,
        name != ".."@,
    ensures
        ({
            let reported = Stage::<Seq<ComponentView>, ComponentView, MountErrorView>::Failed(
                MountErrorView::Io(failure.0, failure.1, req.normalized_virtual),
            );
            let missing = next_stage(
                req,
                mount,
                begin_stage(req, mount, ResolveMode::Creation),
                Reply::Exists(false),
            );
            &&& next_stage(req, mount, begin_stage(req, mount, ResolveMode::Lstat), Reply::CanonicalFailed(failure))
                == reported
            &&& next_stage(req, mount, missing, Reply::CanonicalFailed(failure)) == reported
        }),
{
    let whole = directory + seq![ComponentView::Normal(name)];
    assert(whole.last() == ComponentView::Normal(name));
    assert(whole.drop_last() =~= directory);
}

/// The mounted directory itself resolves to its canonical form when directories
/// are made: there is nothing to make behind it.
pub proof fn law_the_mount_itself_needs_no_making(
    req: RequestView,
    mount: Seq<ComponentView>,
    canonical: Seq<ComponentView>,
)
    requires
        req.relative.len() == 0,
    ensures
        ({
            let begin = begin_stage(req, mount, ResolveMode::MkdirParents);
            &&& question(req, mount, begin) == Probe::Canonicalize(mount)
            &&& next_stage(req, mount, begin, Reply::Canonical(canonical)) == if canonical.len() >= mount.len()
                && canonical.take(mount.len() as int) == mount {
                Stage::<Seq<ComponentView>, ComponentView, MountErrorView>::Done(canonical)
            } else {
                Stage::Failed(MountErrorView::PathEscape { virtual_path: req.normalized_virtual })
            }
        }),
{
}

/// An answer to another question than the one asked changes nothing.
pub proof fn law_other_answers_change_nothing(
    req: RequestView,
    mount: Seq<ComponentView>,
    stage: StageView,
    reply: ReplyView,
)
    requires
        match question(req, mount, stage) {
            Probe::Canonicalize(_) => !(reply is Canonical || reply is CanonicalFailed),
            Probe::Exists(_) => !(reply is Exists),
            Probe::Link(_) => !(reply is NotALink || reply is LinkUnreadable || reply is LinkTarget),
            Probe::Nothing => true,
        },
    ensures
        next_stage(req, mount, stage, reply) == stage,
{
}

/// Whether a symlink target is absolute where `host_path` lies: it begins at a
/// root, and among paths with prefixes it has one itself.
pub open spec fn is_absolute(target: Seq<ComponentView>, host_path: Seq<ComponentView>) -> bool {
    has_root(target) && (has_prefix(target) || !has_prefix(host_path))
}

/// Where the host path that the symlink `host_path` points to lies.
pub fn symlink_destination(host_path: &HostPath, target: &HostPath, virtual_path: &str) -> (r: Result<HostPath, MountError>)
    ensures
        r is Ok <==> is_absolute(target@, host_path@) || path_parent(host_path@) is Some,
        r is Ok ==> r->Ok_0@ == if is_absolute(target@, host_path@) {
            target@
        } else {
            path_join(path_parent(host_path@)->Some_0, target@)
        },
        r is Err ==> r->Err_0@ == (MountErrorView::PathEscape { virtual_path: virtual_path@ }),
{
    if target.has_root() && (target.has_prefix() || !host_path.has_prefix()) {
        return Ok(target.duplicate());
    }
    match host_path.parent() {
        None => Err(path_escape(virtual_path)),
        Some(parent) => Ok(parent.join(target)),
    }
}

/// Checks where a symlink leads: `canonical` is the canonical form of its
/// destination and `canonical_mount` that of the mounted directory.
///
/// A destination that cannot be canonicalized counts as an escape.
pub fn reject_escaping_symlink(
    canonical: Result<HostPath, IoError>,
    canonical_mount: Result<HostPath, IoError>,
    virtual_path: &str,
) -> (r: Result<(), MountError>)
    ensures
        r is Ok <==> canonical is Ok && canonical_mount is Ok && path_within(canonical->Ok_0@, canonical_mount->Ok_0@),
        r is Err ==> r->Err_0@ == if canonical is Ok && canonical_mount is Err {
            MountErrorView::Io(canonical_mount->Err_0.kind, canonical_mount->Err_0.message@, virtual_path@)
        } else {
            MountErrorView::PathEscape { virtual_path: virtual_path@ }
        },
{
    match canonical {
        Err(_) => Err(path_escape(virtual_path)),
        Ok(path) => match canonical_mount {
            Err(e) => Err(MountError::Io(e, virtual_path.to_owned())),
            Ok(mount) => check_boundary(&path, &mount, virtual_path),
        },
    }
}

/// A symlink target is absolute where it begins at a root; where paths have
/// prefixes it needs one of its own.
pub proof fn law_absolute_targets_begin_at_a_root(target: Seq<ComponentView>, host_path: Seq<ComponentView>)
    ensures
        target.len() == 0 ==> !is_absolute(target, host_path),
        target.len() > 0 && (target[0] is Normal || target[0] is ParentDir || target[0] is CurDir || target[0] is Opaque)
            ==> !is_absolute(target, host_path),
        target.len() > 0 && target[0] is RootDir ==> (is_absolute(target, host_path) <==> !(host_path.len() > 0
            && host_path[0] is Prefix)),
        target.len() > 0 && target[0] is Prefix ==> (is_absolute(target, host_path) <==> target.len() > 1
            && target[1] is RootDir),
{
}

} // verus!
