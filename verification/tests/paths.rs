use monty_host::common::{
    accept_content, bytes_to_utf8, check_write_limit, commit_write_bytes, format_child_path, iterdir_fs, mkdir_finish,
    mkdir_start, read_limit, reject_non_regular, stat_fs, written_bytes, written_chars, DirEntry, DirListing,
    EntryLink, Existing, FileKind, MemoryBudget, MkdirStep, MountContext, StatSummary,
};
use monty_host::fs_error::{IoError, IoErrorKind, MountError};
use monty_host::host_path::{HostComponent, HostPath};
use monty_host::mount_table::{
    HostDirectory, Mount, MountCallOutcome, MountMode, MountTable, OsCall, OverlayState, DEFAULT_MEMORY_USAGE_LIMIT,
};
use monty_host::path_security::{
    is_already_normalized_absolute_path, normalize_virtual_path, path_matches_mount, strip_mount_prefix,
    ResolutionRequest,
};
use monty_host::resolve::{
    reject_escaping_symlink, symlink_destination, Probe, Reply, ResolveMode, Resolver,
};

fn host(path: &str) -> HostPath {
    let mut components = Vec::new();
    for (i, part) in path.split('/').enumerate() {
        if part.is_empty() {
            if i == 0 {
                components.push(HostComponent::RootDir);
            }
        } else if part == ".." {
            components.push(HostComponent::ParentDir);
        } else if part == "." {
            if i == 0 {
                components.push(HostComponent::CurDir);
            }
        } else {
            components.push(HostComponent::Normal(part.to_owned()));
        }
    }
    HostPath { components }
}

fn text(path: &HostPath) -> String {
    let mut out = String::new();
    for component in &path.components {
        match component {
            HostComponent::RootDir => {}
            HostComponent::CurDir => out.push_str("/."),
            HostComponent::ParentDir => out.push_str("/.."),
            HostComponent::Normal(name) => {
                out.push('/');
                out.push_str(name);
            }
            HostComponent::Opaque(_) => out.push_str("/?"),
            HostComponent::Prefix(prefix) => out.push_str(prefix),
        }
    }
    out
}

fn io(kind: IoErrorKind) -> IoError {
    IoError { kind, message: "boom".to_owned() }
}

#[test]
fn test_normalize_virtual_path() {
    assert_eq!(normalize_virtual_path("/data/file.txt"), "/data/file.txt");
    assert_eq!(normalize_virtual_path("/data/./file.txt"), "/data/file.txt");
    assert_eq!(normalize_virtual_path("/data/../etc/passwd"), "/etc/passwd");
    assert_eq!(normalize_virtual_path("/../../../etc/passwd"), "/etc/passwd");
    assert_eq!(normalize_virtual_path("/"), "/");
    assert_eq!(normalize_virtual_path("/data/"), "/data");
    assert_eq!(normalize_virtual_path("/a/b/../c/./d"), "/a/c/d");
}

#[test]
fn test_strip_mount_prefix() {
    assert_eq!(strip_mount_prefix("/data/file.txt", "/data"), Some("file.txt"));
    assert_eq!(strip_mount_prefix("/data", "/data"), Some(""));
    assert_eq!(strip_mount_prefix("/data/sub/file", "/data"), Some("sub/file"));
    assert_eq!(strip_mount_prefix("/other/file", "/data"), None);
    assert_eq!(strip_mount_prefix("/anything", "/"), Some("anything"));
    assert_eq!(strip_mount_prefix("/", "/"), Some(""));
    assert_eq!(strip_mount_prefix("/data2/file", "/data"), None);
}

#[test]
fn normalizing_is_idempotent_on_odd_paths() {
    for path in ["", "a", "//a//b/", "./x/..", "/é/../ü/.", "../..", "/..a/b..", "a/./b/../../c"] {
        let once = normalize_virtual_path(path);
        assert!(once.starts_with('/'));
        assert!(is_already_normalized_absolute_path(&once));
        assert_eq!(normalize_virtual_path(&once), once);
    }
    assert!(!is_already_normalized_absolute_path("/a/"));
    assert!(!is_already_normalized_absolute_path("a"));
    assert!(!is_already_normalized_absolute_path("/a/../b"));
    assert_eq!(normalize_virtual_path(""), "/");
    assert_eq!(normalize_virtual_path("./x/.."), "/");
}

#[test]
fn stripping_and_matching_agree() {
    for (path, mount) in [("/data/x", "/data"), ("/data", "/data"), ("/data2", "/data"), ("/x", "/"), ("/", "/a")] {
        assert_eq!(strip_mount_prefix(path, mount).is_some(), path_matches_mount(path, mount));
    }
    assert!(path_matches_mount("/data/x", "/data"));
    assert!(!path_matches_mount("/data2", "/data"));
}

#[test]
fn requests_are_refused_before_any_lookup() {
    let mount = host("/srv/data");
    match ResolutionRequest::new("/data/a\0b", "/data", &mount) {
        Err(MountError::PathEscape { virtual_path }) => assert_eq!(virtual_path, "/data/a\0b"),
        other => panic!("{:?}", other.err()),
    }
    let long = format!("/data/{}", "x".repeat(256));
    match ResolutionRequest::new(&long, "/data", &mount) {
        Err(MountError::Io(e, p)) => {
            assert_eq!(e.kind, IoErrorKind::InvalidFilename);
            assert_eq!(e.message, "File name too long");
            assert_eq!(p, long);
        }
        other => panic!("{:?}", other.err()),
    }
    let wide = format!("/data/{}", "é".repeat(127));
    assert!(ResolutionRequest::new(&wide, "/data", &mount).is_ok());
    let deep = format!("/data{}", "/abcdefg".repeat(512));
    assert!(matches!(ResolutionRequest::new(&deep, "/data", &mount), Err(MountError::Io(..))));
    match ResolutionRequest::new("/other/../etc", "/data", &mount) {
        Err(MountError::NoMountPoint(p)) => assert_eq!(p, "/other/../etc"),
        other => panic!("{:?}", other.err()),
    }
    match ResolutionRequest::new("/data/x", "/data", &host("/srv/../data")) {
        Err(MountError::PathEscape { virtual_path }) => assert_eq!(virtual_path, "/data/x"),
        other => panic!("{:?}", other.err()),
    }
    let ok = ResolutionRequest::new("/data/./sub/../f.txt", "/data", &mount).ok().expect("request");
    assert_eq!(ok.normalized_virtual, "/data/f.txt");
    assert_eq!(ok.relative, "f.txt");
    assert_eq!(text(&ok.candidate_host), "/srv/data/f.txt");
    assert!(matches!(ok.final_component(), Ok(HostComponent::Normal(n)) if n == "f.txt"));
}

#[test]
fn existing_paths_must_stay_inside() {
    let mount = host("/srv/data");
    let r = Resolver::start("/data/a", "/data", &mount, ResolveMode::Existing).ok().expect("start");
    assert!(matches!(r.probe(), Probe::Canonicalize(p) if text(&p) == "/srv/data/a"));
    let r = r.answer(Reply::Canonical(host("/srv/data/b/c")));
    assert!(matches!(r.probe(), Probe::Nothing));
    assert_eq!(text(&r.finish().expect("done").ok().expect("ok")), "/srv/data/b/c");

    let r = Resolver::start("/data/a", "/data", &mount, ResolveMode::Existing).ok().expect("start");
    let r = r.answer(Reply::Canonical(host("/srv/database/x")));
    match r.finish() {
        Some(Err(MountError::PathEscape { virtual_path })) => assert_eq!(virtual_path, "/data/a"),
        _ => panic!("escape expected"),
    }
    let r = Resolver::start("/data/a", "/data", &mount, ResolveMode::Existing).ok().expect("start");
    assert!(r.answer(Reply::Exists(true)).finish().is_none());
}

#[test]
fn lstat_keeps_the_last_component() {
    let mount = host("/srv/data");
    let r = Resolver::start("/data/dir/link", "/data", &mount, ResolveMode::Lstat).ok().expect("start");
    assert!(matches!(r.probe(), Probe::Canonicalize(p) if text(&p) == "/srv/data/dir"));
    let r = r.answer(Reply::Canonical(host("/srv/data/real")));
    assert_eq!(text(&r.finish().expect("done").ok().expect("ok")), "/srv/data/real/link");
    let r = Resolver::start("/data", "/data", &mount, ResolveMode::Lstat).ok().expect("start");
    assert!(matches!(r.probe(), Probe::Canonicalize(p) if text(&p) == "/srv/data"));
    let r = r.answer(Reply::CanonicalFailed(io(IoErrorKind::NotFound)));
    assert!(matches!(r.finish(), Some(Err(MountError::Io(e, p))) if e.kind == IoErrorKind::NotFound && p == "/data"));
}

#[test]
fn creation_checks_links_that_dangle() {
    let mount = host("/srv/data");
    let start = || Resolver::start("/data/d/new", "/data", &mount, ResolveMode::Creation).ok().expect("start");
    let r = start();
    assert!(matches!(r.probe(), Probe::Exists(p) if text(&p) == "/srv/data/d/new"));
    let r = r.answer(Reply::Exists(false)).answer(Reply::Canonical(host("/srv/data/d")));
    assert!(matches!(r.probe(), Probe::Link(p) if text(&p) == "/srv/data/d/new"));
    assert_eq!(
        text(&r.answer(Reply::NotALink).finish().expect("done").ok().expect("ok")),
        "/srv/data/d/new"
    );
    // a dangling relative link that leads outside
    let r = start()
        .answer(Reply::Exists(false))
        .answer(Reply::Canonical(host("/srv/data/d")))
        .answer(Reply::LinkTarget(host("../../outside")));
    assert!(matches!(r.probe(), Probe::Canonicalize(p) if text(&p) == "/srv/data/d/../../outside"));
    let r = r.answer(Reply::CanonicalFailed(io(IoErrorKind::NotFound)));
    assert!(matches!(r.probe(), Probe::Canonicalize(p) if text(&p) == "/srv/data/d/../.."));
    let r = r.answer(Reply::Canonical(host("/srv")));
    assert!(matches!(r.finish(), Some(Err(MountError::PathEscape { .. }))));
    // a dangling link that stays inside
    let r = start()
        .answer(Reply::Exists(false))
        .answer(Reply::Canonical(host("/srv/data/d")))
        .answer(Reply::LinkTarget(host("/srv/data/later")))
        .answer(Reply::CanonicalFailed(io(IoErrorKind::NotFound)))
        .answer(Reply::Canonical(host("/srv/data")));
    assert_eq!(text(&r.finish().expect("done").ok().expect("ok")), "/srv/data/d/new");
    // an existing target resolves like any existing path
    let r = start().answer(Reply::Exists(true)).answer(Reply::Canonical(host("/srv/data/x")));
    assert_eq!(text(&r.finish().expect("done").ok().expect("ok")), "/srv/data/x");
    // unreadable link
    let r = start()
        .answer(Reply::Exists(false))
        .answer(Reply::Canonical(host("/srv/data/d")))
        .answer(Reply::LinkUnreadable(io(IoErrorKind::PermissionDenied)));
    assert!(matches!(r.finish(), Some(Err(MountError::Io(e, _))) if e.kind == IoErrorKind::PermissionDenied));
}

#[test]
fn mkdir_parents_walks_existing_ancestors() {
    let mount = host("/srv/data");
    let r = Resolver::start("/data/a/b/c", "/data", &mount, ResolveMode::MkdirParents).ok().expect("start");
    assert!(matches!(r.probe(), Probe::Exists(p) if text(&p) == "/srv/data/a"));
    let r = r.answer(Reply::Exists(true));
    assert!(matches!(r.probe(), Probe::Canonicalize(p) if text(&p) == "/srv/data/a"));
    let r = r.answer(Reply::Canonical(host("/srv/data/real")));
    assert!(matches!(r.probe(), Probe::Exists(p) if text(&p) == "/srv/data/real/b"));
    let r = r.answer(Reply::Exists(false));
    assert_eq!(text(&r.finish().expect("done").ok().expect("ok")), "/srv/data/real/b/c");
    let r = Resolver::start("/data/a", "/data", &mount, ResolveMode::MkdirParents).ok().expect("start");
    let r = r.answer(Reply::Exists(true)).answer(Reply::Canonical(host("/elsewhere")));
    assert!(matches!(r.finish(), Some(Err(MountError::PathEscape { .. }))));
}

/// Answers every question as a filesystem in which everything exists, or nothing.
fn settle(mut resolver: Resolver, exists: bool) -> (usize, Option<Result<HostPath, MountError>>) {
    let mut questions = 0;
    loop {
        let reply = match resolver.probe() {
            Probe::Nothing => return (questions, resolver.finish()),
            Probe::Canonicalize(p) if exists || text(&p) == "/srv/data" => Reply::Canonical(p),
            Probe::Canonicalize(_) => Reply::CanonicalFailed(io(IoErrorKind::NotFound)),
            Probe::Exists(_) => Reply::Exists(exists),
            Probe::Link(_) => Reply::LinkTarget(host("gone")),
        };
        questions += 1;
        resolver = resolver.answer(reply);
    }
}

#[test]
fn resolutions_end_inside_the_mount() {
    let mount = host("/srv/data");
    let modes = [ResolveMode::Existing, ResolveMode::Lstat, ResolveMode::Creation, ResolveMode::MkdirParents];
    for path in ["/data", "/data/a", "/data/x/../a/./b", "/data/a/b/c/d"] {
        for mode in modes {
            for exists in [true, false] {
                let start = Resolver::start(path, "/data", &mount, mode).ok().expect("start");
                let (questions, outcome) = settle(start, exists);
                assert!(questions <= 8, "{path} {mode:?}: {questions}");
                if let Ok(resolved) = outcome.expect("ended") {
                    let resolved = text(&resolved);
                    assert!(resolved == "/srv/data" || resolved.starts_with("/srv/data/"), "{resolved}");
                    assert!(!resolved.split('/').any(|part| part == ".."), "{resolved}");
                }
            }
        }
    }
    // four components, each looked up and canonicalized
    let start = Resolver::start("/data/a/b/c/d", "/data", &mount, ResolveMode::MkdirParents).ok().expect("start");
    assert_eq!(settle(start, true).0, 8);
    // a dangling link to a missing entry of the mount takes the most questions of a creation
    let start = Resolver::start("/data/a", "/data", &mount, ResolveMode::Creation).ok().expect("start");
    let (questions, outcome) = settle(start, false);
    assert_eq!(questions, 5);
    assert_eq!(text(&outcome.expect("ended").ok().expect("ok")), "/srv/data/a");
}

#[test]
fn prefixes_belong_to_the_path_they_stand_before() {
    let drive = |letter: &str, rest: &str| {
        let mut path = host(rest);
        path.components.insert(0, HostComponent::Prefix(letter.to_owned()));
        path
    };
    assert!(drive("C:", "/srv/data").starts_with(&drive("C:", "/srv")));
    assert!(!drive("D:", "/srv/data").starts_with(&drive("C:", "/srv")));
    // a target that begins at a root stays on the drive of its symlink
    let p = symlink_destination(&drive("C:", "/srv/l"), &host("/abs"), "/data/l").ok().expect("dest");
    assert!(matches!(&p.components[0], HostComponent::Prefix(d) if d == "C:") && p.components.len() == 3);
    let p = symlink_destination(&drive("C:", "/srv/l"), &drive("D:", "/x"), "/data/l").ok().expect("dest");
    assert!(matches!(&p.components[0], HostComponent::Prefix(d) if d == "D:"));
    assert!(drive("C:", "/").parent().is_none());
}

#[test]
fn symlinks_that_escape_are_rejected() {
    let p = symlink_destination(&host("/srv/data/l"), &host("x/y"), "/data/l").ok().expect("dest");
    assert_eq!(text(&p), "/srv/data/x/y");
    let p = symlink_destination(&host("/srv/data/l"), &host("/abs"), "/data/l").ok().expect("dest");
    assert_eq!(text(&p), "/abs");
    assert!(symlink_destination(&host("/"), &host("x"), "/data/l").is_err());
    assert!(reject_escaping_symlink(Ok(host("/srv/data/x")), Ok(host("/srv/data")), "/l").is_ok());
    assert!(matches!(
        reject_escaping_symlink(Ok(host("/etc")), Ok(host("/srv/data")), "/l"),
        Err(MountError::PathEscape { .. })
    ));
    assert!(matches!(
        reject_escaping_symlink(Err(io(IoErrorKind::NotFound)), Err(io(IoErrorKind::Other)), "/l"),
        Err(MountError::PathEscape { .. })
    ));
    assert!(matches!(
        reject_escaping_symlink(Ok(host("/srv/data/x")), Err(io(IoErrorKind::Other)), "/l"),
        Err(MountError::Io(..))
    ));
}

#[test]
fn budgets_shrink_and_report_the_limit() {
    let b = MemoryBudget::full(100);
    assert!(b.check(100).is_ok());
    assert!(matches!(b.check(101), Err(MountError::MemoryUsageLimitExceeded(100))));
    let half = b.halved();
    assert_eq!(half, MemoryBudget { available: 50, limit: 100 });
    let less = half.shrink(20).ok().expect("shrink");
    assert_eq!(less.available, 30);
    assert!(matches!(less.shrink(31), Err(MountError::MemoryUsageLimitExceeded(100))));
    let both = b.shrink(70).ok().expect("once");
    assert_eq!(both.shrink(30).ok().expect("twice").available, 0);
}

#[test]
fn write_quota_is_never_passed() {
    let mut ctx = MountContext {
        mount_virtual: "/data".to_owned(),
        mount_host: host("/srv/data"),
        write_bytes_used: 0,
        write_bytes_limit: Some(10),
        memory_usage_limit: 1,
    };
    assert!(check_write_limit(10, &ctx).is_ok());
    commit_write_bytes(7, &mut ctx);
    assert_eq!(ctx.write_bytes_used, 7);
    assert!(check_write_limit(3, &ctx).is_ok());
    assert!(matches!(check_write_limit(4, &ctx), Err(MountError::WriteLimitExceeded(10))));
    // without a limit nothing is refused, and the counter goes on counting
    ctx.write_bytes_limit = None;
    commit_write_bytes(5, &mut ctx);
    assert_eq!(ctx.write_bytes_used, 12);
    assert!(check_write_limit(usize::MAX, &ctx).is_ok());
    ctx.write_bytes_used = u64::MAX - 1;
    commit_write_bytes(5, &mut ctx);
    assert_eq!(ctx.write_bytes_used, u64::MAX);
}

#[test]
fn reads_stop_one_byte_past_the_budget() {
    let b = MemoryBudget::full(4);
    assert_eq!(read_limit(4, b).ok(), Some(5));
    assert!(matches!(read_limit(5, b), Err(MountError::MemoryUsageLimitExceeded(4))));
    assert_eq!(read_limit(0, MemoryBudget::full(u64::MAX)).ok(), Some(u64::MAX));
    assert_eq!(accept_content(vec![1, 2, 3, 4], b).ok(), Some(vec![1, 2, 3, 4]));
    assert!(accept_content(vec![0; 5], b).is_err());
}

#[test]
fn utf8_failures_name_their_range() {
    assert_eq!(bytes_to_utf8("héllo".as_bytes().to_vec()).ok().as_deref(), Some("héllo"));
    match bytes_to_utf8(vec![b'a', 0xff, b'b']) {
        Err(MountError::InvalidUtf8 { start, end, first_byte, error_len, data }) => {
            assert_eq!((start, end, first_byte, error_len), (1, 2, 0xff, Some(1)));
            assert_eq!(data, vec![b'a', 0xff, b'b']);
        }
        other => panic!("{:?}", other.ok()),
    }
    match bytes_to_utf8(vec![b'a', 0xe2, 0x82]) {
        Err(MountError::InvalidUtf8 { start, end, first_byte, error_len, .. }) => {
            assert_eq!((start, end, first_byte, error_len), (1, 3, 0xe2, None));
        }
        other => panic!("{:?}", other.ok()),
    }
    match bytes_to_utf8(vec![0xe2, 0x82, b'x']) {
        Err(MountError::InvalidUtf8 { start, end, error_len, .. }) => {
            assert_eq!((start, end, error_len), (0, 2, Some(2)));
        }
        other => panic!("{:?}", other.ok()),
    }
}

#[test]
fn file_operations_decide_by_kind() {
    assert!(reject_non_regular(None, "/f").is_ok());
    assert!(reject_non_regular(Some(FileKind::Regular), "/f").is_ok());
    assert!(matches!(reject_non_regular(Some(FileKind::Directory), "/f"),
        Err(MountError::Io(e, _)) if e.kind == IoErrorKind::IsADirectory && e.message == "Is a directory"));
    assert!(matches!(reject_non_regular(Some(FileKind::Special), "/f"),
        Err(MountError::Io(e, _)) if e.kind == IoErrorKind::PermissionDenied));
    assert_eq!(written_chars("héllo"), 5);
    assert_eq!(written_bytes(6), 6);
    assert_eq!(stat_fs(true, 9), StatSummary::Dir { mode: 0o755 });
    assert_eq!(stat_fs(false, u64::MAX), StatSummary::File { mode: 0o644, size: i64::MAX });
    assert_eq!(mkdir_start(false, false, Existing::Directory, "/d").ok(), Some(MkdirStep::CreateOne));
    assert_eq!(mkdir_start(true, true, Existing::Directory, "/d").ok(), Some(MkdirStep::Finished));
    assert_eq!(mkdir_start(true, true, Existing::Nothing, "/d").ok(), Some(MkdirStep::CreateAll));
    assert!(matches!(mkdir_start(true, false, Existing::Directory, "/d"),
        Err(MountError::Io(e, _)) if e.message == "File exists"));
    assert!(mkdir_start(true, true, Existing::Other, "/d").is_err());
    assert!(mkdir_finish(Err(io(IoErrorKind::AlreadyExists)), true, true, "/d").is_ok());
    assert!(mkdir_finish(Err(io(IoErrorKind::AlreadyExists)), true, false, "/d").is_err());
    assert!(mkdir_finish(Err(io(IoErrorKind::NotFound)), true, true, "/d").is_err());
    assert!(mkdir_finish(Ok(()), false, false, "/d").is_ok());
}

#[test]
fn listings_hide_links_that_leave_the_mount() {
    let mount = host("/srv/data");
    let mut listing = DirListing::new(MemoryBudget::full(300));
    let entry = |name: &str, link| DirEntry { name: name.to_owned(), link };
    assert!(listing.add(entry("a", EntryLink::Plain), &mount).is_ok());
    assert!(listing.add(entry("bad", EntryLink::Broken), &mount).is_ok());
    assert!(listing.add(entry("out", EntryLink::To(host("/etc"))), &mount).is_ok());
    assert!(listing.add(entry("in", EntryLink::To(host("/srv/data/x"))), &mount).is_ok());
    assert_eq!(listing.names, vec!["a".to_owned(), "in".to_owned()]);
    assert_eq!(listing.memory_usage, 1 + 128 + 2 + 128);
    assert!(matches!(
        listing.add(entry("zz", EntryLink::Plain), &mount),
        Err(MountError::MemoryUsageLimitExceeded(300))
    ));
    assert_eq!(format_child_path("/", "x"), "/x");
    assert_eq!(format_child_path("/d", "x"), "/d/x");
    let list = |names: &[&str], limit| {
        let budget = MemoryBudget::full(limit);
        let mut listing = DirListing::for_iterdir(budget);
        for name in names {
            listing.add(entry(name, EntryLink::Plain), &host("/srv/data"))?;
        }
        iterdir_fs(listing, "/d", budget)
    };
    assert_eq!(list(&["a", "b"], 2 * (129 + 132)).ok(), Some(vec!["/d/a".to_owned(), "/d/b".to_owned()]));
    // the names fit half the budget, the paths built from them do not fit the rest
    assert!(matches!(list(&["a", "b"], 2 * (129 + 132) - 1), Err(MountError::MemoryUsageLimitExceeded(521))));
    // the names alone take more than half the budget
    assert!(matches!(list(&["a", "b"], 2 * 258 - 1), Err(MountError::MemoryUsageLimitExceeded(515))));
    assert_eq!(list(&[], 0).ok(), Some(vec![]));
}

fn mount(virtual_path: &str) -> Mount {
    Mount::new(virtual_path, "/h", HostDirectory::Found(host("/h")), MountMode::ReadOnly, None).ok().expect("mount")
}

fn call(name: &str, path: Option<&str>, dst: Option<&str>) -> OsCall {
    OsCall {
        function_name: name.to_owned(),
        filesystem: path.is_some(),
        primary_path: path.map(|p| p.to_owned()),
        rename_destination: dst.map(|p| p.to_owned()),
    }
}

#[test]
fn mounts_validate_their_configuration() {
    assert!(matches!(
        Mount::new("data", "/h", HostDirectory::Found(host("/h")), MountMode::ReadOnly, None),
        Err(MountError::InvalidMount(m)) if m == "virtual path must be absolute, got: 'data'"
    ));
    assert!(matches!(
        Mount::new("/d", "/h", HostDirectory::Unresolvable("gone".to_owned()), MountMode::ReadOnly, None),
        Err(MountError::InvalidMount(m)) if m == "cannot canonicalize host path '/h': gone"
    ));
    assert!(matches!(
        Mount::new("/d", "/h", HostDirectory::NotADirectory, MountMode::ReadOnly, None),
        Err(MountError::InvalidMount(m)) if m == "host path is not a directory: '/h'"
    ));
    let m = Mount::new(
        "/d/./e/..",
        "/h",
        HostDirectory::Found(host("/real")),
        MountMode::OverlayMemory(OverlayState { memory_usage: 12 }),
        Some(5),
    )
    .ok()
    .expect("mount");
    assert_eq!(m.virtual_path(), "/d");
    assert_eq!(text(m.host_path()), "/real");
    assert_eq!(m.memory_usage(), 12);
    assert_eq!(m.memory_usage_limit(), DEFAULT_MEMORY_USAGE_LIMIT);
    assert_eq!(m.write_bytes_limit(), Some(5));
    assert_eq!(m.write_bytes_used(), 0);
    let m = m.with_memory_usage_limit(7);
    assert_eq!(m.memory_usage_limit(), 7);
    assert_eq!(*m.mode(), MountMode::OverlayMemory(OverlayState { memory_usage: 12 }));
    assert_eq!(mount("/x").memory_usage(), 0);
}

#[test]
fn the_longest_prefix_handles_a_call() {
    let mut table = MountTable::new();
    assert!(table.is_empty());
    table.push_mount(mount("/"));
    table.push_mount(mount("/data/deep"));
    table.push_mount(mount("/data"));
    assert!(table
        .mount("/other", "/h", HostDirectory::Found(host("/h")), MountMode::ReadWrite, None)
        .is_ok());
    assert!(table
        .mount("rel", "/h", HostDirectory::Found(host("/h")), MountMode::ReadWrite, None)
        .is_err());
    assert_eq!(table.len(), 4);
    let prefix = |p: &str| {
        let index = table.find_mount_index(p).expect("covered");
        table.get(index).expect("mount").virtual_path().to_owned()
    };
    assert_eq!(prefix("/data/deep/x"), "/data/deep");
    assert_eq!(prefix("/data/deeper"), "/data");
    assert_eq!(prefix("/data/deep/../x"), "/data");
    assert_eq!(prefix("/elsewhere"), "/");
    assert!(MountTable::new().find_mount_index("/x").is_none());
}

#[test]
fn routing_keeps_renames_inside_one_mount() {
    let mut table = MountTable::new();
    table.push_mount(mount("/a"));
    table.push_mount(mount("/b"));
    assert!(matches!(
        table.handle_os_call(call("Path.read_text", Some("/a/f"), None)),
        MountCallOutcome::Execute(_, _)
    ));
    match table.handle_os_call(call("Path.rename", Some("/a/f"), Some("/b/f"))) {
        MountCallOutcome::Refused(MountError::CrossMountRename { src, dst }) => {
            assert_eq!((src.as_str(), dst.as_str()), ("/a/f", "/b/f"));
        }
        _ => panic!("refusal expected"),
    }
    assert!(matches!(
        table.handle_os_call(call("Path.rename", Some("/a/f"), Some("/a/g"))),
        MountCallOutcome::Execute(_, _)
    ));
    assert!(matches!(
        table.handle_os_call(call("Path.rename", Some("/a/f"), Some("/c/g"))),
        MountCallOutcome::NotHandled(_)
    ));
    match table.handle_os_call(call("os.getenv", None, None)) {
        MountCallOutcome::NotHandled(c) => assert_eq!(c.function_name, "os.getenv"),
        _ => panic!("not handled expected"),
    }
}

#[test]
fn executed_calls_leave_their_usage() {
    let mut table = MountTable::new();
    table.push_mount(mount("/a"));
    let mut ctx = table.get(0).expect("mount").context();
    assert_eq!(ctx.mount_virtual, "/a");
    ctx.write_bytes_used = 9;
    table.finish_call(0, ctx, MountMode::OverlayMemory(OverlayState { memory_usage: 4 }));
    assert_eq!(table.get(0).expect("mount").write_bytes_used(), 9);
    assert_eq!(table.get(0).expect("mount").memory_usage(), 4);
    // a mount without a limit counts its writes all the same
    let mount = table.get(0).expect("mount");
    assert_eq!(mount.write_bytes_limit(), None);
    let (mut ctx, mode) = (mount.context(), *mount.mode());
    assert!(check_write_limit(6, &ctx).is_ok());
    commit_write_bytes(6, &mut ctx);
    table.finish_call(0, ctx, mode);
    assert_eq!(table.get(0).expect("mount").write_bytes_used(), 15);
    assert!(table.get(1).is_none());
}

#[test]
fn a_newer_mount_shadows_an_older_one() {
    let mut table = MountTable::new();
    table.push_mount(mount("/data"));
    table.push_mount(mount("/"));
    let newer = mount("/data").with_memory_usage_limit(7);
    table.push_mount(newer);
    let index = table.find_mount_index("/data/x").expect("covered");
    assert_eq!(table.get(index).map(|m| m.memory_usage_limit()), Some(7));
    let index = table.find_mount_index("/elsewhere").expect("covered");
    assert_eq!(table.get(index).map(|m| m.virtual_path().to_owned()).as_deref(), Some("/"));
}
