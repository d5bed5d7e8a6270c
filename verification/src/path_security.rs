//! Virtual path normalization and mount-boundary resolution.
//!
//! Sandboxed code names files by virtual paths. Resolution turns such a path
//! into a mount-relative path and a host path candidate; `resolve` then checks
//! that candidate against the host filesystem.

use crate::fs_error::{io_err, path_escape, IoErrorKind, MountError, MountErrorView};
use crate::host_path::{
    component_of, components_of, has_parent_component, lemma_within_append, path_file_name, path_join, path_within, ComponentView, HostComponent, HostPath,
};
use crate::text::{
    byte_len, chars_of, contains_char, is_prefix, lemma_split_nonempty, lemma_split_pieces, lemma_split_push, same,
    split, split_chars, starts_with, string_of, utf8_len,
};
use vstd::prelude::*;
use vstd::slice::slice_subrange;
use vstd::string::*;

verus! {

/// Maximum total path length in bytes.
pub const PATH_MAX: usize = 4096;

/// Maximum length of one path component in bytes.
pub const NAME_MAX: usize = 255;

// ---------------------------------------------------------------------------
// Normalization
// ---------------------------------------------------------------------------

/// A part that names something: not empty, not `.`, not `..`.
pub open spec fn proper(part: Seq<char>) -> bool {
    part.len() > 0 && part != "."@ && part != ".."@
}

/// The named components left when `.` is dropped and `..` takes back the
/// component before it; at the root `..` has nothing to take back.
pub open spec fn resolve_parts(parts: Seq<Seq<char>>) -> Seq<Seq<char>>
    decreases parts.len(),
{
    if parts.len() == 0 {
        Seq::empty()
    } else {
        let before = resolve_parts(parts.drop_last());
        let part = parts.last();
        if part.len() == 0 || part == "."@ {
            before
        } else if part == ".."@ {
            if before.len() == 0 { before } else { before.drop_last() }
        } else {
            before.push(part)
        }
    }
}

/// Every component with a `/` in front.
pub open spec fn slash_join(comps: Seq<Seq<char>>) -> Seq<char>
    decreases comps.len(),
{
    if comps.len() == 0 {
        Seq::empty()
    } else {
        slash_join(comps.drop_last()).push('/') + comps.last()
    }
}

/// The components that a virtual path names.
pub open spec fn virtual_components(path: Seq<char>) -> Seq<Seq<char>> {
    resolve_parts(split(path, '/'))
}

/// The absolute path with the given components.
pub open spec fn absolute(comps: Seq<Seq<char>>) -> Seq<char> {
    if comps.len() == 0 { seq!['/'] } else { slash_join(comps) }
}

/// The normalized absolute form of a virtual path.
pub open spec fn normalized(path: Seq<char>) -> Seq<char> {
    absolute(virtual_components(path))
}

/// Whether `path` is an absolute path without `.`, `..` or empty components.
pub open spec fn is_normal(path: Seq<char>) -> bool {
    path == seq!['/'] || (path.len() > 0 && path[0] == '/' && all_proper(split(path.skip(1), '/')))
}

/// Whether every part names something.
pub open spec fn all_proper(parts: Seq<Seq<char>>) -> bool {
    forall|i: int| 0 <= i < parts.len() ==> proper(#[trigger] parts[i])
}

/// Whether every part is free of `/`.
pub open spec fn slash_free(parts: Seq<Seq<char>>) -> bool {
    forall|i: int| 0 <= i < parts.len() ==> !(#[trigger] parts[i]).contains('/')
}

/// Resolved components are proper and free of `/`.
pub proof fn lemma_resolved_proper(parts: Seq<Seq<char>>)
    requires
        slash_free(parts),
    ensures
        all_proper(resolve_parts(parts)),
        slash_free(resolve_parts(parts)),
    decreases parts.len(),
{
    if parts.len() > 0 {
        let front = parts.drop_last();
        assert forall|i: int| 0 <= i < front.len() implies !(#[trigger] front[i]).contains('/') by {
            assert(front[i] == parts[i]);
        }
        lemma_resolved_proper(front);
        assert(!parts[parts.len() - 1].contains('/'));
        let before = resolve_parts(front);
        let r = resolve_parts(parts);
        assert forall|i: int| 0 <= i < r.len() implies proper(#[trigger] r[i]) && !r[i].contains('/') by {
            if i < before.len() {
                assert(r[i] == before[i]);
            }
        }
    }
}

/// Proper parts resolve to themselves.
pub proof fn lemma_resolve_proper_is_id(parts: Seq<Seq<char>>)
    requires
        all_proper(parts),
    ensures
        resolve_parts(parts) == parts,
    decreases parts.len(),
{
    if parts.len() > 0 {
        let front = parts.drop_last();
        assert forall|i: int| 0 <= i < front.len() implies proper(#[trigger] front[i]) by {
            assert(front[i] == parts[i]);
        }
        lemma_resolve_proper_is_id(front);
        assert(proper(parts[parts.len() - 1]));
        assert(front.push(parts.last()) =~= parts);
    } else {
        assert(parts =~= Seq::empty());
    }
}

/// An empty part in front changes nothing.
proof fn lemma_resolve_leading_empty(parts: Seq<Seq<char>>)
    ensures
        resolve_parts(seq![Seq::<char>::empty()] + parts) == resolve_parts(parts),
    decreases parts.len(),
{
    let whole = seq![Seq::<char>::empty()] + parts;
    if parts.len() == 0 {
        assert(whole.drop_last() =~= Seq::<Seq<char>>::empty());
        assert(whole.last().len() == 0);
        assert(resolve_parts(whole.drop_last()) =~= Seq::<Seq<char>>::empty());
        assert(resolve_parts(parts) =~= Seq::<Seq<char>>::empty());
    } else {
        assert(whole.drop_last() =~= seq![Seq::<char>::empty()] + parts.drop_last());
        assert(whole.last() == parts.last());
        lemma_resolve_leading_empty(parts.drop_last());
    }
}

/// Splitting an absolute path gives an empty part and then the components.
pub proof fn lemma_split_slash_join(comps: Seq<Seq<char>>)
    requires
        slash_free(comps),
    ensures
        split(slash_join(comps), '/') == seq![Seq::<char>::empty()] + comps,
    decreases comps.len(),
{
    if comps.len() == 0 {
        assert(seq![Seq::<char>::empty()] + comps =~= seq![Seq::<char>::empty()]);
    } else {
        let front = comps.drop_last();
        assert forall|i: int| 0 <= i < front.len() implies !(#[trigger] front[i]).contains('/') by {
            assert(front[i] == comps[i]);
        }
        lemma_split_slash_join(front);
        assert(!comps[comps.len() - 1].contains('/'));
        lemma_split_push(slash_join(front), comps.last(), '/');
        assert((seq![Seq::<char>::empty()] + front).push(comps.last()) =~= seq![Seq::<char>::empty()] + comps);
    }
}

/// Splitting at a separator in the middle splits both sides.
pub proof fn lemma_split_concat(a: Seq<char>, b: Seq<char>, sep: char)
    ensures
        split(a.push(sep) + b, sep) == split(a, sep) + split(b, sep),
    decreases b.len(),
{
    lemma_split_nonempty(b, sep);
    if b.len() == 0 {
        assert(a.push(sep) + b =~= a.push(sep));
        assert(a.push(sep).drop_last() =~= a);
        assert(split(a, sep).push(Seq::empty()) =~= split(a, sep) + split(b, sep));
    } else {
        let front = b.drop_last();
        let s = a.push(sep) + b;
        lemma_split_concat(a, front, sep);
        lemma_split_nonempty(front, sep);
        assert(s.drop_last() =~= a.push(sep) + front);
        assert(s.last() == b.last());
        let x = split(a, sep);
        let y = split(front, sep);
        if b.last() == sep {
            assert((x + y).push(Seq::empty()) =~= x + y.push(Seq::empty()));
        } else {
            assert((x + y).drop_last().push((x + y).last().push(b.last())) =~= x + y.drop_last().push(
                y.last().push(b.last()),
            ));
        }
    }
}

/// The components of a path are proper and free of `/`.
pub proof fn lemma_virtual_components(path: Seq<char>)
    ensures
        all_proper(virtual_components(path)),
        slash_free(virtual_components(path)),
{
    lemma_split_pieces(path, '/');
    lemma_resolved_proper(split(path, '/'));
}

/// The absolute path with some components names just those components.
pub proof fn lemma_absolute_components(comps: Seq<Seq<char>>)
    requires
        all_proper(comps),
        slash_free(comps),
    ensures
        virtual_components(absolute(comps)) == comps,
        is_normal(absolute(comps)),
        absolute(comps).len() > 0,
        absolute(comps)[0] == '/',
        comps.len() > 0 ==> split(absolute(comps).skip(1), '/') == comps,
{
    if comps.len() == 0 {
        let root = seq!['/'];
        assert(root.drop_last() =~= Seq::<char>::empty());
        let parts = split(root, '/');
        assert(split(root.drop_last(), '/') =~= seq![Seq::<char>::empty()]);
        assert(root.last() == '/');
        assert(parts =~= seq![Seq::<char>::empty(), Seq::<char>::empty()]);
        assert(parts.drop_last() =~= seq![Seq::<char>::empty()]);
        assert(parts.drop_last().drop_last() =~= Seq::<Seq<char>>::empty());
        assert(resolve_parts(parts.drop_last()) == resolve_parts(parts.drop_last().drop_last()));
        assert(comps =~= Seq::empty());
    } else {
        lemma_split_slash_join(comps);
        lemma_resolve_leading_empty(comps);
        lemma_resolve_proper_is_id(comps);
        lemma_slash_join_head(comps);
        let s = slash_join(comps);
        assert(s =~= Seq::<char>::empty().push('/') + s.skip(1));
        lemma_split_concat(Seq::empty(), s.skip(1), '/');
        let tail = split(s.skip(1), '/');
        assert(tail =~= (split(Seq::<char>::empty(), '/') + tail).skip(1));
        assert((seq![Seq::<char>::empty()] + comps).skip(1) =~= comps);
    }
}

proof fn lemma_slash_join_head(comps: Seq<Seq<char>>)
    requires
        comps.len() > 0,
    ensures
        slash_join(comps).len() > 0,
        slash_join(comps)[0] == '/',
    decreases comps.len(),
{
    if comps.len() > 1 {
        lemma_slash_join_head(comps.drop_last());
    } else {
        assert(comps.drop_last() =~= Seq::<Seq<char>>::empty());
        assert(slash_join(comps.drop_last()) =~= Seq::<char>::empty());
    }
}

/// A path in normal form is the absolute path of its components.
pub proof fn lemma_normal_is_absolute(path: Seq<char>)
    requires
        is_normal(path),
    ensures
        path == absolute(virtual_components(path)),
        path.len() > 1 ==> virtual_components(path) == split(path.skip(1), '/'),
{
    if path == seq!['/'] {
        lemma_absolute_components(Seq::empty());
    } else {
        let tail = path.skip(1);
        let parts = split(tail, '/');
        assert(path =~= Seq::<char>::empty().push('/') + tail);
        lemma_split_concat(Seq::empty(), tail, '/');
        assert(split(Seq::<char>::empty(), '/') == seq![Seq::<char>::empty()]);
        lemma_resolve_leading_empty(parts);
        lemma_resolve_proper_is_id(parts);
        lemma_split_nonempty(tail, '/');
        lemma_slash_join_split(tail);
    }
}

/// Joining the pieces of a split with a `/` in front of each gives `/` and the text.
proof fn lemma_slash_join_split(s: Seq<char>)
    ensures
        slash_join(split(s, '/')) == seq!['/'] + s,
    decreases s.len(),
{
    if s.len() == 0 {
        let one = seq![Seq::<char>::empty()];
        assert(one.drop_last() =~= Seq::<Seq<char>>::empty());
        assert(slash_join(one.drop_last()) =~= Seq::<char>::empty());
        assert(slash_join(one) =~= seq!['/'] + s);
    } else {
        let t = s.drop_last();
        let before = split(t, '/');
        lemma_slash_join_split(t);
        lemma_split_nonempty(t, '/');
        assert(t.push(s.last()) =~= s);
        if s.last() == '/' {
            let parts = before.push(Seq::<char>::empty());
            assert(parts.drop_last() =~= before);
            assert(slash_join(parts) =~= seq!['/'] + s);
        } else {
            let parts = before.drop_last().push(before.last().push(s.last()));
            assert(parts.drop_last() =~= before.drop_last());
            assert(slash_join(parts) =~= slash_join(before).push(s.last()));
            assert(slash_join(parts) =~= seq!['/'] + s);
        }
    }
}

/// Whether `path` is already an absolute normalized sandbox path.
pub fn is_already_normalized_absolute_path(path: &str) -> (r: bool)
    ensures
        r == is_normal(path@),
{
    let chars: Vec<char> = chars_of(path);
    let n: usize = chars.len();
    if n == 0 || chars[0] != '/' {
        proof {
            assert(path@ != seq!['/']) by {
                assert(seq!['/'][0] == '/');
            }
        }
        return false;
    }
    if n == 1 {
        proof {
            assert(path@ =~= seq!['/']);
        }
        return true;
    }
    let tail: &[char] = slice_subrange(chars.as_slice(), 1, n);
    let parts: Vec<Vec<char>> = split_chars(tail, '/');
    let ghost texts = parts@.map_values(|p: Vec<char>| p@);
    proof {
        assert(tail@ =~= path@.skip(1));
        assert(path@.len() != seq!['/'].len());
    }
    let mut i: usize = 0;
    while i < parts.len()
        invariant
            i <= parts@.len(),
            texts == parts@.map_values(|p: Vec<char>| p@),
            texts == split(path@.skip(1), '/'),
            path@.len() > 1,
            forall|j: int| 0 <= j < i ==> proper(#[trigger] texts[j]),
        decreases parts@.len() - i,
    {
        let part: String = string_of(parts[i].as_slice());
        proof {
            assert(texts[i as int] == part@);
        }
        if part.as_str().is_empty() || same(part.as_str(), ".") || same(part.as_str(), "..") {
            proof {
                assert(!proper(texts[i as int]));
            }
            return false;
        }
        i = i + 1;
    }
    true
}

/// Normalizes a virtual sandbox path by removing `.` and resolving `..`.
///
/// The result is always absolute. Excess `..` components at the root collapse
/// to `/` instead of escaping the sandbox namespace.
#[must_use]
pub fn normalize_virtual_path(path: &str) -> (r: String)
    ensures
        r@ == normalized(path@),
{
    if is_already_normalized_absolute_path(path) {
        proof {
            lemma_normal_is_absolute(path@);
        }
        return path.to_owned();
    }
    let chars: Vec<char> = chars_of(path);
    let parts: Vec<Vec<char>> = split_chars(chars.as_slice(), '/');
    let ghost texts = parts@.map_values(|p: Vec<char>| p@);
    let mut comps: Vec<String> = Vec::new();
    let mut i: usize = 0;
    proof {
        assert(texts.take(0) =~= Seq::<Seq<char>>::empty());
        assert(crate::text::views(comps@) =~= resolve_parts(texts.take(0)));
    }
    while i < parts.len()
        invariant
            i <= parts@.len(),
            texts == parts@.map_values(|p: Vec<char>| p@),
            crate::text::views(comps@) == resolve_parts(texts.take(i as int)),
        decreases parts@.len() - i,
    {
        let part: String = string_of(parts[i].as_slice());
        let ghost before = comps@;
        proof {
            assert(texts.take(i + 1).drop_last() =~= texts.take(i as int));
            assert(texts.take(i + 1).last() == part@);
        }
        let skip: bool = part.as_str().is_empty() || same(part.as_str(), ".");
        if !skip {
            if same(part.as_str(), "..") {
                let _ = comps.pop();
                proof {
                    if before.len() > 0 {
                        assert(crate::text::views(comps@) =~= crate::text::views(before).drop_last());
                    } else {
                        assert(comps@ =~= before);
                    }
                }
            } else {
                let ghost name = part@;
                comps.push(part);
                proof {
                    assert(crate::text::views(comps@) =~= crate::text::views(before).push(name));
                }
            }
        }
        i = i + 1;
    }
    proof {
        assert(texts.take(texts.len() as int) =~= texts);
    }
    if comps.len() == 0 {
        let root: String = "/".to_owned();
        proof {
            reveal_strlit("/");
            assert(root@ =~= seq!['/']);
        }
        return root;
    }
    let mut out: String = String::new();
    let mut k: usize = 0;
    let ghost names = crate::text::views(comps@);
    proof {
        assert(names.take(0) =~= Seq::<Seq<char>>::empty());
    }
    while k < comps.len()
        invariant
            k <= comps@.len(),
            names == crate::text::views(comps@),
            out@ == slash_join(names.take(k as int)),
        decreases comps@.len() - k,
    {
        proof {
            assert(names.take(k + 1).drop_last() =~= names.take(k as int));
            assert(names.take(k + 1).last() == comps@[k as int]@);
        }
        out.push('/');
        out.append(comps[k].as_str());
        k = k + 1;
    }
    proof {
        assert(names.take(names.len() as int) =~= names);
    }
    out
}

/// A normalized path is absolute and holds no `.`, `..` or empty component.
pub proof fn law_normalized_is_normal(path: Seq<char>)
    ensures
        is_normal(normalized(path)),
        virtual_components(normalized(path)) == virtual_components(path),
{
    lemma_virtual_components(path);
    lemma_absolute_components(virtual_components(path));
}

/// Normalizing twice is normalizing once.
pub proof fn law_normalize_idempotent(path: Seq<char>)
    ensures
        normalized(normalized(path)) == normalized(path),
{
    law_normalized_is_normal(path);
}

/// Paths in normal form are the ones that normalization leaves unchanged.
pub proof fn law_normal_iff_fixed(path: Seq<char>)
    ensures
        is_normal(path) <==> normalized(path) == path,
{
    if is_normal(path) {
        lemma_normal_is_absolute(path);
    }
    law_normalized_is_normal(path);
}

// ---------------------------------------------------------------------------
// Mount prefixes
// ---------------------------------------------------------------------------

/// Whether a normalized path falls under a mount prefix.
pub open spec fn under_mount(path: Seq<char>, mount: Seq<char>) -> bool {
    mount == seq!['/'] || path == mount || (is_prefix(mount, path) && path.len() > mount.len()
        && path[mount.len() as int] == '/')
}

/// The mount-relative rest of a normalized path.
pub open spec fn stripped(path: Seq<char>, mount: Seq<char>) -> Option<Seq<char>> {
    if mount == seq!['/'] {
        if path.len() > 0 && path[0] == '/' { Some(path.skip(1)) } else { Some(path) }
    } else if path == mount {
        Some(Seq::empty())
    } else if is_prefix(mount, path) && path.len() > mount.len() && path[mount.len() as int] == '/' {
        Some(path.skip(mount.len() as int + 1))
    } else {
        None
    }
}

/// Checks whether `normalized_path` falls under `mount_virtual_path`.
pub fn path_matches_mount(normalized_path: &str, mount_virtual_path: &str) -> (r: bool)
    ensures
        r == under_mount(normalized_path@, mount_virtual_path@),
{
    proof {
        reveal_strlit("/");
        assert("/"@ =~= seq!['/']);
    }
    if same(mount_virtual_path, "/") || same(normalized_path, mount_virtual_path) {
        return true;
    }
    if !starts_with(normalized_path, mount_virtual_path) {
        return false;
    }
    let p: Vec<char> = chars_of(normalized_path);
    let m: Vec<char> = chars_of(mount_virtual_path);
    p.len() > m.len() && p[m.len()] == '/'
}

/// Strips a normalized mount prefix from a normalized sandbox path.
#[must_use]
pub fn strip_mount_prefix<'a>(normalized_path: &'a str, mount_virtual_path: &str) -> (r: Option<&'a str>)
    ensures
        r is Some <==> stripped(normalized_path@, mount_virtual_path@) is Some,
        r is Some ==> r->Some_0@ == stripped(normalized_path@, mount_virtual_path@)->Some_0,
{
    proof {
        reveal_strlit("/");
        assert("/"@ =~= seq!['/']);
    }
    let p: Vec<char> = chars_of(normalized_path);
    let n: usize = p.len();
    if same(mount_virtual_path, "/") {
        if n > 0 && p[0] == '/' {
            proof {
                assert(normalized_path@.subrange(1, n as int) =~= normalized_path@.skip(1));
            }
            return Some(normalized_path.substring_char(1, n));
        }
        return Some(normalized_path);
    }
    if same(normalized_path, mount_virtual_path) {
        proof {
            assert(normalized_path@.subrange(n as int, n as int) =~= Seq::<char>::empty());
        }
        return Some(normalized_path.substring_char(n, n));
    }
    if path_matches_mount(normalized_path, mount_virtual_path) {
        let m: Vec<char> = chars_of(mount_virtual_path);
        let k: usize = m.len();
        proof {
            assert(normalized_path@.subrange(k + 1, n as int) =~= normalized_path@.skip(k + 1));
        }
        return Some(normalized_path.substring_char(k + 1, n));
    }
    None
}

/// A path has a mount-relative rest exactly when it falls under the mount.
pub proof fn law_strip_iff_under_mount(path: Seq<char>, mount: Seq<char>)
    ensures
        stripped(path, mount) is Some <==> under_mount(path, mount),
{
}

/// For paths in normal form, falling under a mount means that the mount's
/// components are the first components of the path.
pub proof fn law_under_mount_is_component_prefix(path: Seq<char>, mount: Seq<char>)
    requires
        is_normal(path),
        is_normal(mount),
    ensures
        under_mount(path, mount) <==> {
            &&& virtual_components(mount).len() <= virtual_components(path).len()
            &&& virtual_components(path).take(virtual_components(mount).len() as int) == virtual_components(mount)
        },
{
    let pc = virtual_components(path);
    let mc = virtual_components(mount);
    lemma_normal_is_absolute(path);
    lemma_normal_is_absolute(mount);
    lemma_virtual_components(path);
    lemma_virtual_components(mount);
    if mount == seq!['/'] {
        lemma_absolute_components(Seq::empty());
        assert(mc =~= Seq::<Seq<char>>::empty());
        assert(pc.take(0) =~= mc);
    } else {
        assert(mc.len() > 0);
        if under_mount(path, mount) {
            if path == mount {
                assert(pc.take(mc.len() as int) =~= mc);
            } else {
                let rest = path.skip(mount.len() as int + 1);
                assert(path =~= mount.push('/') + rest);
                lemma_split_concat(mount, rest, '/');
                assert(path.len() > 1);
                // both splits begin with an empty part
                lemma_split_slash_join(mc);
                assert(split(mount, '/') == seq![Seq::<char>::empty()] + mc);
                assert(path =~= Seq::<char>::empty().push('/') + path.skip(1));
                lemma_split_concat(Seq::empty(), path.skip(1), '/');
                assert(split(Seq::<char>::empty(), '/') == seq![Seq::<char>::empty()]);
                assert(split(path, '/') == seq![Seq::<char>::empty()] + pc);
                let q = seq![Seq::<char>::empty()] + pc;
                assert(q == seq![Seq::<char>::empty()] + mc + split(rest, '/'));
                assert forall|i: int| 0 <= i < mc.len() implies pc[i] == mc[i] by {
                    assert(q[i + 1] == pc[i]);
                    assert((seq![Seq::<char>::empty()] + mc + split(rest, '/'))[i + 1] == mc[i]);
                }
                assert(pc.take(mc.len() as int) =~= mc);
            }
        }
        if mc.len() <= pc.len() && pc.take(mc.len() as int) == mc {
            lemma_slash_join_take(pc, mc.len() as int);
        }
    }
}

/// Joined leading components are a prefix, followed by `/` unless they are all.
proof fn lemma_slash_join_take(comps: Seq<Seq<char>>, k: int)
    requires
        0 < k <= comps.len(),
    ensures
        is_prefix(slash_join(comps.take(k)), slash_join(comps)),
        k < comps.len() ==> slash_join(comps).len() > slash_join(comps.take(k)).len() && slash_join(comps)[slash_join(
            comps.take(k),
        ).len() as int] == '/',
        k == comps.len() ==> slash_join(comps) == slash_join(comps.take(k)),
    decreases comps.len(),
{
    if k == comps.len() {
        assert(comps.take(k) =~= comps);
        assert(slash_join(comps).take(slash_join(comps).len() as int) =~= slash_join(comps));
    } else {
        let front = comps.drop_last();
        assert(front.take(k) =~= comps.take(k));
        lemma_slash_join_take(front, k);
        let whole = slash_join(comps);
        let part = slash_join(front);
        let head = slash_join(comps.take(k));
        assert(whole == part.push('/') + comps.last());
        assert(whole.take(head.len() as int) =~= part.take(head.len() as int));
        if k == front.len() {
            assert(whole[head.len() as int] == '/');
        } else {
            assert(whole[head.len() as int] == part[head.len() as int]);
        }
    }
}

/// What is left of a normalized path under a mount holds no `.`, `..` or empty part.
pub proof fn lemma_rest_is_proper(path: Seq<char>, mount: Seq<char>)
    requires
        is_normal(path),
        stripped(path, mount) is Some,
        stripped(path, mount)->Some_0.len() > 0,
    ensures
        all_proper(split(stripped(path, mount)->Some_0, '/')),
{
    let rest = stripped(path, mount)->Some_0;
    if mount == seq!['/'] {
        assert(path.len() > 0 && path[0] == '/');
        assert(path != seq!['/']);
    } else {
        assert(path =~= mount.push('/') + rest);
        lemma_split_concat(mount, rest, '/');
        lemma_split_nonempty(mount, '/');
        let parts = split(path, '/');
        assert(path != seq!['/']) by {
            assert(path.len() > 1);
        }
        assert(path =~= Seq::<char>::empty().push('/') + path.skip(1));
        lemma_split_concat(Seq::empty(), path.skip(1), '/');
        let x = split(Seq::<char>::empty(), '/');
        let y = split(path.skip(1), '/');
        assert(x.len() == 1);
        let k = split(mount, '/').len();
        let z = split(rest, '/');
        assert(x + y == split(mount, '/') + z);
        assert forall|i: int| 0 <= i < z.len() implies proper(#[trigger] z[i]) by {
            assert((split(mount, '/') + z)[k + i] == z[i]);
            assert((x + y).len() == k + z.len());
            assert((x + y)[k + i] == y[k + i - 1]);
        }
    }
}

// ---------------------------------------------------------------------------
// What normalization does to a path, part by part
// ---------------------------------------------------------------------------

/// Whether a text can stand behind a whole part of a path: it is empty or
/// begins the next part.
pub open spec fn follows_part(rest: Seq<char>) -> bool {
    rest.len() == 0 || rest[0] == '/'
}

/// The parts before a resolved path matter only by what they resolve to.
proof fn lemma_resolve_front(a: Seq<Seq<char>>, b: Seq<Seq<char>>, parts: Seq<Seq<char>>)
    requires
        resolve_parts(a) == resolve_parts(b),
    ensures
        resolve_parts(a + parts) == resolve_parts(b + parts),
    decreases parts.len(),
{
    if parts.len() == 0 {
        assert(a + parts =~= a);
        assert(b + parts =~= b);
    } else {
        lemma_resolve_front(a, b, parts.drop_last());
        assert((a + parts).drop_last() =~= a + parts.drop_last());
        assert((b + parts).drop_last() =~= b + parts.drop_last());
    }
}

/// The parts of a path that goes on behind a whole part.
proof fn lemma_split_follow(p: Seq<char>, rest: Seq<char>)
    requires
        follows_part(rest),
    ensures
        rest.len() == 0 ==> split(p + rest, '/') == split(p, '/'),
        rest.len() > 0 ==> split(p + rest, '/') == split(p, '/') + split(rest.skip(1), '/'),
{
    if rest.len() == 0 {
        assert(p + rest =~= p);
    } else {
        assert(p + rest =~= p.push('/') + rest.skip(1));
        lemma_split_concat(p, rest.skip(1), '/');
    }
}

/// Two beginnings that resolve alike resolve alike with anything behind them.
proof fn lemma_same_front(a: Seq<char>, b: Seq<char>, rest: Seq<char>)
    requires
        follows_part(rest),
        resolve_parts(split(a, '/')) == resolve_parts(split(b, '/')),
    ensures
        normalized(a + rest) == normalized(b + rest),
{
    lemma_split_follow(a, rest);
    lemma_split_follow(b, rest);
    if rest.len() > 0 {
        lemma_resolve_front(split(a, '/'), split(b, '/'), split(rest.skip(1), '/'));
    }
}

/// The parts of a path with one part more.
pub proof fn lemma_split_one_more(p: Seq<char>, part: Seq<char>)
    requires
        !part.contains('/'),
    ensures
        split(p + "/"@ + part, '/') == split(p, '/').push(part),
{
    reveal_strlit("/");
    assert(p + "/"@ + part =~= p.push('/') + part);
    lemma_split_push(p, part, '/');
}

/// A `..` takes back exactly the one name before it, wherever both stand.
pub proof fn law_parent_takes_back_one_name(p: Seq<char>, name: Seq<char>, rest: Seq<char>)
    requires
        name.len() > 0,
        name != "."@,
        name != ".."@,
        !name.contains('/'),
        follows_part(rest),
    ensures
        normalized(p + "/"@ + name + "/.."@ + rest) == normalized(p + rest),
{
    reveal_strlit("/");
    reveal_strlit("..");
    reveal_strlit("/..");
    let named = p + "/"@ + name;
    let back = p + "/"@ + name + "/.."@;
    assert(back =~= named + "/"@ + ".."@);
    assert(!".."@.contains('/'));
    lemma_split_one_more(p, name);
    lemma_split_one_more(named, ".."@);
    let parts = split(p, '/');
    assert(parts.push(name).drop_last() =~= parts);
    assert(parts.push(name).push(".."@).drop_last() =~= parts.push(name));
    reveal_strlit(".");
    assert(".."@ != "."@) by {
        assert(".."@.len() == 2);
        assert("."@.len() == 1);
    }
    assert(resolve_parts(parts.push(name)) == resolve_parts(parts).push(name));
    assert(resolve_parts(parts).push(name).drop_last() =~= resolve_parts(parts));
    lemma_same_front(back, p, rest);
}

/// A `.` and an empty part change nothing, wherever they stand.
pub proof fn law_dots_and_empty_parts_vanish(p: Seq<char>, rest: Seq<char>)
    requires
        follows_part(rest),
    ensures
        normalized(p + "/."@ + rest) == normalized(p + rest),
        normalized(p + "/"@ + rest) == normalized(p + rest),
{
    reveal_strlit("/");
    reveal_strlit(".");
    reveal_strlit("/.");
    assert(p + "/."@ =~= p + "/"@ + "."@);
    assert(!"."@.contains('/'));
    lemma_split_one_more(p, "."@);
    let parts = split(p, '/');
    assert(parts.push("."@).drop_last() =~= parts);
    lemma_same_front(p + "/."@, p, rest);
    let empty = Seq::<char>::empty();
    assert(p + "/"@ =~= p + "/"@ + empty);
    lemma_split_one_more(p, empty);
    assert(parts.push(empty).drop_last() =~= parts);
    lemma_same_front(p + "/"@, p, rest);
}

/// A name behind a path becomes the last component of the normalized path, with
/// everything before it as it was.
pub proof fn law_names_are_kept(p: Seq<char>, name: Seq<char>)
    requires
        name.len() > 0,
        name != "."@,
        name != ".."@,
        !name.contains('/'),
    ensures
        normalized(p + "/"@ + name) == if normalized(p) == "/"@ {
            "/"@ + name
        } else {
            normalized(p) + "/"@ + name
        },
{
    reveal_strlit("/");
    lemma_split_one_more(p, name);
    let parts = split(p, '/');
    let before = resolve_parts(parts);
    assert(parts.push(name).drop_last() =~= parts);
    assert(before.push(name).drop_last() =~= before);
    assert(normalized(p + "/"@ + name) == slash_join(before).push('/') + name);
    lemma_virtual_components(p);
    if before.len() == 0 {
        assert(normalized(p) =~= "/"@);
        assert(slash_join(before) =~= Seq::<char>::empty());
        assert(normalized(p + "/"@ + name) =~= "/"@ + name);
    } else {
        assert(normalized(p) == slash_join(before));
        assert(slash_join(before).len() > 1) by {
            assert(slash_join(before) == slash_join(before.drop_last()).push('/') + before.last());
            assert(proper(before[before.len() - 1]));
        }
        assert(normalized(p) != "/"@);
        assert(normalized(p + "/"@ + name) =~= normalized(p) + "/"@ + name);
    }
}

/// At the root there is nothing to take back, a path need not begin with `/`,
/// and the empty path is the root.
pub proof fn law_the_root_has_no_parent(rest: Seq<char>)
    requires
        follows_part(rest),
    ensures
        normalized("/.."@ + rest) == normalized(rest),
        normalized(".."@ + rest) == normalized(rest),
        normalized(Seq::<char>::empty()) == "/"@,
{
    reveal_strlit("/");
    reveal_strlit("..");
    reveal_strlit("/..");
    let empty = Seq::<char>::empty();
    let one = seq![empty];
    assert(split(empty, '/') == one);
    assert(one.drop_last() =~= Seq::<Seq<char>>::empty());
    assert(resolve_parts(one.drop_last()) =~= Seq::<Seq<char>>::empty());
    assert(one.last().len() == 0);
    assert(resolve_parts(one) =~= Seq::<Seq<char>>::empty());
    assert("/.."@ =~= empty + "/"@ + ".."@);
    assert(!".."@.contains('/'));
    lemma_split_one_more(empty, ".."@);
    assert(one.push(".."@).drop_last() =~= one);
    assert(resolve_parts(one.push(".."@)) =~= Seq::<Seq<char>>::empty());
    lemma_same_front("/.."@, empty, rest);
    assert(empty + rest =~= rest);
    let dots = seq![".."@];
    assert(split(".."@, '/') == dots) by {
        lemma_split_no_sep(".."@);
    }
    assert(dots.drop_last() =~= Seq::<Seq<char>>::empty());
    assert(resolve_parts(dots) =~= Seq::<Seq<char>>::empty());
    lemma_same_front(".."@, empty, rest);
    assert(normalized(empty) =~= "/"@);
}

/// A text without a separator is its own only piece.
proof fn lemma_split_no_sep(s: Seq<char>)
    requires
        !s.contains('/'),
    ensures
        split(s, '/') == seq![s],
    decreases s.len(),
{
    if s.len() > 0 {
        let t = s.drop_last();
        assert(!t.contains('/')) by {
            if t.contains('/') {
                let i = choose|i: int| 0 <= i < t.len() && t[i] == '/';
                assert(s[i] == '/');
            }
        }
        lemma_split_no_sep(t);
        assert(s[s.len() - 1] != '/');
        assert(seq![t].drop_last().push(t.push(s.last())) =~= seq![s]) by {
            assert(t.push(s.last()) =~= s);
        }
    } else {
        assert(s =~= Seq::<char>::empty());
    }
}

/// What is left of a path under a mount, put behind the mount again, is the
/// path; and what is put behind a mount is what is left.
pub proof fn law_stripped_rest_rebuilds_the_path(path: Seq<char>, mount: Seq<char>, tail: Seq<char>)
    requires
        is_normal(path),
        is_normal(mount),
    ensures
        stripped(path, mount) is Some ==> path == if mount == "/"@ {
            "/"@ + stripped(path, mount)->Some_0
        } else if stripped(path, mount)->Some_0.len() == 0 {
            mount
        } else {
            mount + "/"@ + stripped(path, mount)->Some_0
        },
        stripped(mount, mount) == Some(Seq::<char>::empty()),
        mount != "/"@ ==> stripped(mount + "/"@ + tail, mount) == Some(tail),
        mount == "/"@ ==> stripped("/"@ + tail, mount) == Some(tail),
{
    reveal_strlit("/");
    assert("/"@ =~= seq!['/']);
    if mount == "/"@ {
        assert(path.len() > 0 && path[0] == '/');
        assert(path =~= "/"@ + path.skip(1));
        assert(("/"@ + tail).skip(1) =~= tail);
        assert(mount.skip(1) =~= Seq::<char>::empty());
    } else {
        let longer = mount + "/"@ + tail;
        assert(longer.take(mount.len() as int) =~= mount);
        assert(longer.skip(mount.len() as int + 1) =~= tail);
        if stripped(path, mount) is Some && path != mount {
            let rest = path.skip(mount.len() as int + 1);
            assert(path =~= mount + "/"@ + rest);
            if rest.len() == 0 {
                // a path in normal form does not end in `/`
                assert(path =~= mount.push('/'));
                lemma_split_one_more(mount, rest);
                lemma_normal_is_absolute(path);
                assert(path.len() > 1);
                assert(path =~= Seq::<char>::empty().push('/') + path.skip(1));
                lemma_split_concat(Seq::empty(), path.skip(1), '/');
                let parts = split(path.skip(1), '/');
                assert(split(path, '/').last() == rest);
                assert((split(Seq::<char>::empty(), '/') + parts).last() == parts.last()) by {
                    lemma_split_nonempty(path.skip(1), '/');
                }
                lemma_split_nonempty(path.skip(1), '/');
                assert(proper(parts[parts.len() - 1]));
                assert(false);
            }
        }
    }
}

// ---------------------------------------------------------------------------
// Resolution requests
// ---------------------------------------------------------------------------

/// Whether a normalized path or one of its components is too long.
pub open spec fn overlong(path: Seq<char>) -> bool {
    utf8_len(path) > PATH_MAX || exists|i: int|
        0 <= i < split(path, '/').len() && utf8_len(#[trigger] split(path, '/')[i]) > NAME_MAX
}

/// The host path that a mount-relative path stands for.
pub open spec fn host_candidate(mount_host: Seq<ComponentView>, relative: Seq<char>) -> Seq<ComponentView> {
    if relative.len() == 0 {
        mount_host
    } else {
        path_join(mount_host, components_of(split(relative, '/')))
    }
}

/// Why a virtual path cannot be resolved at all; `None` when it can be tried.
pub open spec fn request_error(
    path: Seq<char>,
    mount: Seq<char>,
    mount_host: Seq<ComponentView>,
) -> Option<MountErrorView> {
    let n = normalized(path);
    if path.contains('\0') {
        Some(MountErrorView::PathEscape { virtual_path: path })
    } else if overlong(n) {
        Some(MountErrorView::Io(IoErrorKind::InvalidFilename, "File name too long"@, path))
    } else if stripped(n, mount) is None {
        Some(MountErrorView::NoMountPoint(path))
    } else if has_parent_component(host_candidate(mount_host, stripped(n, mount)->Some_0)) {
        Some(MountErrorView::PathEscape { virtual_path: n })
    } else {
        None
    }
}

/// Rejects embedded null characters before any path manipulation occurs.
pub fn reject_null_bytes(virtual_path: &str) -> (r: Result<(), MountError>)
    ensures
        r is Ok <==> !virtual_path@.contains('\0'),
        r is Err ==> r->Err_0@ == (MountErrorView::PathEscape { virtual_path: virtual_path@ }),
{
    if contains_char(virtual_path, '\0') {
        Err(path_escape(virtual_path))
    } else {
        Ok(())
    }
}

/// Rejects paths that exceed `PATH_MAX` in total or `NAME_MAX` in a component.
pub fn reject_overlong_path(normalized: &str, original: &str) -> (r: Result<(), MountError>)
    ensures
        r is Ok <==> !overlong(normalized@),
        r is Err ==> r->Err_0@ == MountErrorView::Io(
            IoErrorKind::InvalidFilename,
            "File name too long"@,
            original@,
        ),
{
    if byte_len(normalized) > PATH_MAX {
        return Err(io_err(IoErrorKind::InvalidFilename, "File name too long", original));
    }
    let chars: Vec<char> = chars_of(normalized);
    let parts: Vec<Vec<char>> = split_chars(chars.as_slice(), '/');
    let ghost texts = parts@.map_values(|p: Vec<char>| p@);
    let mut i: usize = 0;
    while i < parts.len()
        invariant
            i <= parts@.len(),
            texts == parts@.map_values(|p: Vec<char>| p@),
            texts == split(normalized@, '/'),
            forall|j: int| 0 <= j < i ==> utf8_len(#[trigger] texts[j]) <= NAME_MAX,
        decreases parts@.len() - i,
    {
        let part: String = string_of(parts[i].as_slice());
        proof {
            assert(texts[i as int] == part@);
        }
        if byte_len(part.as_str()) > NAME_MAX {
            return Err(io_err(IoErrorKind::InvalidFilename, "File name too long", original));
        }
        i = i + 1;
    }
    Ok(())
}

/// Rejects `..` components in the joined host candidate.
pub fn reject_parent_components(candidate_host_path: &HostPath, normalized_virtual_path: &str) -> (r: Result<
    (),
    MountError,
>)
    ensures
        r is Ok <==> !has_parent_component(candidate_host_path@),
        r is Err ==> r->Err_0@ == (MountErrorView::PathEscape { virtual_path: normalized_virtual_path@ }),
{
    if candidate_host_path.has_parent_component() {
        Err(path_escape(normalized_virtual_path))
    } else {
        Ok(())
    }
}

/// Ensures a canonical host path stays within the canonical mount boundary.
pub fn check_boundary(canonical_path: &HostPath, mount_host_path: &HostPath, virtual_path: &str) -> (r: Result<
    (),
    MountError,
>)
    ensures
        r is Ok <==> path_within(canonical_path@, mount_host_path@),
        r is Err ==> r->Err_0@ == (MountErrorView::PathEscape { virtual_path: virtual_path@ }),
{
    if canonical_path.starts_with(mount_host_path) {
        Ok(())
    } else {
        Err(path_escape(virtual_path))
    }
}

/// A virtual path prepared for resolution under one mount.
pub struct ResolutionRequest {
    /// Normalized absolute sandbox path, used in error reports.
    pub normalized_virtual: String,
    /// Mount-relative path inside the sandbox namespace.
    pub relative: String,
    /// Lexically joined host path before it is checked against the host.
    pub candidate_host: HostPath,
}

/// What a resolution request holds.
pub ghost struct RequestView {
    /// Normalized absolute sandbox path, used in error reports.
    pub normalized_virtual: Seq<char>,
    /// Mount-relative path.
    pub relative: Seq<char>,
    /// Lexically joined host path.
    pub candidate_host: Seq<ComponentView>,
}

impl View for ResolutionRequest {
    type V = RequestView;

    open spec fn view(&self) -> RequestView {
        RequestView {
            normalized_virtual: self.normalized_virtual@,
            relative: self.relative@,
            candidate_host: self.candidate_host@,
        }
    }
}

/// Whether a name may be created: plain text without separators and not a dot name.
pub open spec fn creatable_name(c: ComponentView) -> bool {
    match c {
        ComponentView::Normal(n) => !n.contains('/') && !n.contains('\\') && n != "."@ && n != ".."@,
        _ => false,
    }
}

impl RequestView {
    /// The request made for `path` under a mount.
    pub open spec fn of(path: Seq<char>, mount: Seq<char>, mount_host: Seq<ComponentView>) -> RequestView {
        let n = normalized(path);
        let relative = stripped(n, mount)->Some_0;
        RequestView { normalized_virtual: n, relative, candidate_host: host_candidate(mount_host, relative) }
    }

    /// The final component of the host path where a file may be created under it.
    pub open spec fn final_component(self) -> Option<ComponentView> {
        match path_file_name(self.candidate_host) {
            Some(c) => if creatable_name(c) { Some(c) } else { None },
            None => None,
        }
    }

    /// The components of the mount-relative path.
    pub open spec fn relative_components(self) -> Seq<ComponentView> {
        components_of(split(self.relative, '/'))
    }

    /// The error of a path that leaves the mount.
    pub open spec fn escape(self) -> MountErrorView {
        MountErrorView::PathEscape { virtual_path: self.normalized_virtual }
    }
}

impl ResolutionRequest {
    /// Builds the normalized resolution request shared by all modes.
    pub fn new(virtual_path: &str, mount_virtual_path: &str, mount_host_path: &HostPath) -> (r: Result<
        ResolutionRequest,
        MountError,
    >)
        ensures
            r is Ok <==> request_error(virtual_path@, mount_virtual_path@, mount_host_path@) is None,
            r is Ok ==> r->Ok_0@ == RequestView::of(virtual_path@, mount_virtual_path@, mount_host_path@),
            r is Err ==> Some(r->Err_0@) == request_error(virtual_path@, mount_virtual_path@, mount_host_path@),
    {
        match reject_null_bytes(virtual_path) {
            Err(e) => return Err(e),
            Ok(()) => {},
        }
        let normalized_virtual: String = normalize_virtual_path(virtual_path);
        match reject_overlong_path(normalized_virtual.as_str(), virtual_path) {
            Err(e) => return Err(e),
            Ok(()) => {},
        }
        let relative: String = match strip_mount_prefix(normalized_virtual.as_str(), mount_virtual_path) {
            None => return Err(MountError::NoMountPoint(virtual_path.to_owned())),
            Some(rest) => rest.to_owned(),
        };
        let candidate_host: HostPath = if relative.as_str().is_empty() {
            mount_host_path.duplicate()
        } else {
            mount_host_path.join(&HostPath::from_relative(relative.as_str()))
        };
        match reject_parent_components(&candidate_host, normalized_virtual.as_str()) {
            Err(e) => return Err(e),
            Ok(()) => {},
        }
        Ok(ResolutionRequest { normalized_virtual, relative, candidate_host })
    }

    /// The final path component as a file name that may be created.
    pub fn final_component(&self) -> (r: Result<HostComponent, MountError>)
        ensures
            r is Ok <==> self@.final_component() is Some,
            r is Ok ==> r->Ok_0@ == self@.final_component()->Some_0,
            r is Err ==> r->Err_0@ == self@.escape(),
    {
        match self.candidate_host.file_name() {
            None => Err(path_escape(self.normalized_virtual.as_str())),
            Some(c) => {
                let creatable: bool = match &c {
                    HostComponent::Normal(n) => {
                        !contains_char(n.as_str(), '/') && !contains_char(n.as_str(), '\\') && !same(
                            n.as_str(),
                            ".",
                        ) && !same(n.as_str(), "..")
                    },
                    _ => false,
                };
                if creatable {
                    Ok(c)
                } else {
                    Err(path_escape(self.normalized_virtual.as_str()))
                }
            },
        }
    }
}

/// Proper parts are ordinary names one for one.
pub proof fn lemma_proper_components(parts: Seq<Seq<char>>)
    requires
        all_proper(parts),
    ensures
        components_of(parts) == parts.map_values(|p: Seq<char>| ComponentView::Normal(p)),
    decreases parts.len(),
{
    let names = parts.map_values(|p: Seq<char>| ComponentView::Normal(p));
    if parts.len() > 0 {
        let front = parts.drop_last();
        assert forall|i: int| 0 <= i < front.len() implies proper(#[trigger] front[i]) by {
            assert(front[i] == parts[i]);
        }
        lemma_proper_components(front);
        assert(proper(parts[parts.len() - 1]));
        assert(component_of(parts.last()) == Some(ComponentView::Normal(parts.last())));
        assert(names =~= front.map_values(|p: Seq<char>| ComponentView::Normal(p)).push(
            ComponentView::Normal(parts.last()),
        ));
    } else {
        assert(names =~= Seq::<ComponentView>::empty());
    }
}

/// The host path of a request is the mounted directory followed by ordinary
/// names: lexically it never leaves the mount.
pub proof fn law_candidate_within_mount(path: Seq<char>, mount: Seq<char>, mount_host: Seq<ComponentView>)
    requires
        request_error(path, mount, mount_host) is None,
    ensures
        path_within(RequestView::of(path, mount, mount_host).candidate_host, mount_host),
        forall|i: int|
            0 <= i < RequestView::of(path, mount, mount_host).relative_components().len() ==> (
            #[trigger] RequestView::of(path, mount, mount_host).relative_components()[i]) is Normal,
{
    law_normalized_is_normal(path);
    let n = normalized(path);
    let rest = stripped(n, mount)->Some_0;
    if rest.len() == 0 {
        assert(mount_host.take(mount_host.len() as int) =~= mount_host);
        assert(rest =~= Seq::<char>::empty());
        let parts = split(rest, '/');
        assert(parts =~= seq![Seq::<char>::empty()]);
        assert(parts.drop_last() =~= Seq::<Seq<char>>::empty());
        assert(components_of(parts.drop_last()) =~= Seq::<ComponentView>::empty());
        assert(component_of(parts.last()) is None);
    } else {
        lemma_rest_is_proper(n, mount);
        lemma_proper_components(split(rest, '/'));
        assert(mount_host.take(mount_host.len() as int) =~= mount_host);
        lemma_within_append(mount_host, mount_host, components_of(split(rest, '/')));
    }
}

/// What is left of a path under a mount names the components behind those of
/// the mount.
proof fn lemma_rest_components(path: Seq<char>, mount: Seq<char>)
    requires
        is_normal(path),
        is_normal(mount),
        stripped(path, mount) is Some,
    ensures
        ({
            let rest = stripped(path, mount)->Some_0;
            let pc = virtual_components(path);
            let mc = virtual_components(mount);
            &&& mc.len() <= pc.len()
            &&& pc.take(mc.len() as int) == mc
            &&& rest.len() == 0 <==> pc.len() == mc.len()
            &&& rest.len() > 0 ==> split(rest, '/') == pc.skip(mc.len() as int)
        }),
{
    let rest = stripped(path, mount)->Some_0;
    let pc = virtual_components(path);
    let mc = virtual_components(mount);
    law_under_mount_is_component_prefix(path, mount);
    lemma_normal_is_absolute(path);
    lemma_normal_is_absolute(mount);
    lemma_virtual_components(path);
    lemma_virtual_components(mount);
    lemma_absolute_components(Seq::empty());
    if mount == seq!['/'] {
        assert(mc =~= Seq::<Seq<char>>::empty());
        if path.len() > 1 {
            assert(pc == split(rest, '/'));
            lemma_split_nonempty(rest, '/');
            assert(pc.skip(0) =~= pc);
        } else {
            assert(path =~= seq!['/']);
            assert(rest =~= Seq::<char>::empty());
        }
    } else if path == mount {
        assert(rest.len() == 0);
    } else {
        assert(path =~= mount.push('/') + rest);
        assert(path.len() > 1);
        lemma_split_concat(mount, rest, '/');
        lemma_split_slash_join(mc);
        assert(path =~= Seq::<char>::empty().push('/') + path.skip(1));
        lemma_split_concat(Seq::empty(), path.skip(1), '/');
        assert(split(Seq::<char>::empty(), '/') == seq![Seq::<char>::empty()]);
        let q = seq![Seq::<char>::empty()] + pc;
        assert(q == seq![Seq::<char>::empty()] + mc + split(rest, '/'));
        lemma_split_nonempty(rest, '/');
        assert(split(rest, '/') =~= pc.skip(mc.len() as int)) by {
            assert forall|i: int| 0 <= i < split(rest, '/').len() implies split(rest, '/')[i] == pc[mc.len() + i] by {
                assert(q[mc.len() + i + 1] == pc[mc.len() + i]);
                assert((seq![Seq::<char>::empty()] + mc + split(rest, '/'))[mc.len() + i + 1] == split(rest, '/')[i]);
            }
        }
        if rest.len() == 0 {
            assert(!proper(split(rest, '/')[0]));
            assert(proper(pc[mc.len() as int]));
        }
    }
}

/// The host path of a request is the mounted directory followed by every
/// component of the virtual path behind those of the mount, name for name and
/// in order.
pub proof fn law_candidates_hold_every_component(path: Seq<char>, mount: Seq<char>, mount_host: Seq<ComponentView>)
    requires
        is_normal(mount),
        request_error(path, mount, mount_host) is None,
    ensures
        ({
            let req = RequestView::of(path, mount, mount_host);
            let names = virtual_components(path).skip(virtual_components(mount).len() as int);
            &&& req.normalized_virtual == normalized(path)
            &&& virtual_components(mount).len() <= virtual_components(path).len()
            &&& req.relative.len() == 0 <==> names.len() == 0
            &&& req.candidate_host.len() == mount_host.len() + names.len()
            &&& req.candidate_host.take(mount_host.len() as int) == mount_host
            &&& forall|i: int|
                0 <= i < names.len() ==> #[trigger] req.candidate_host[mount_host.len() + i] == ComponentView::Normal(names[i])
            &&& names.len() > 0 ==> req.relative_components() == names.map_values(
                |name: Seq<char>| ComponentView::Normal(name),
            )
        }),
{
    let n = normalized(path);
    law_normalized_is_normal(path);
    lemma_rest_components(n, mount);
    let req = RequestView::of(path, mount, mount_host);
    let names = virtual_components(path).skip(virtual_components(mount).len() as int);
    if req.relative.len() > 0 {
        lemma_rest_is_proper(n, mount);
        lemma_proper_components(names);
        let comps = names.map_values(|name: Seq<char>| ComponentView::Normal(name));
        assert(comps[0] is Normal);
        assert(req.candidate_host == mount_host + comps);
    }
    assert(req.candidate_host.take(mount_host.len() as int) =~= mount_host);
}

/// A virtual path can be tried exactly where it holds no null character, is at
/// most 4096 bytes long with no component over 255, and lies under the mount.
/// Each of these has its own refusal, in this order.
pub proof fn law_requests_are_refused_for_cause(path: Seq<char>, mount: Seq<char>, mount_host: Seq<ComponentView>)
    requires
        is_normal(mount),
        !has_parent_component(mount_host),
    ensures
        ({
            let parts = virtual_components(path);
            let long = utf8_len(normalized(path)) > 4096 || exists|i: int|
                0 <= i < parts.len() && utf8_len(#[trigger] parts[i]) > 255;
            let covered = virtual_components(mount).len() <= parts.len() && parts.take(
                virtual_components(mount).len() as int,
            ) == virtual_components(mount);
            request_error(path, mount, mount_host) == if path.contains('\0') {
                Some(MountErrorView::PathEscape { virtual_path: path })
            } else if long {
                Some(MountErrorView::Io(IoErrorKind::InvalidFilename, "File name too long"@, path))
            } else if !covered {
                Some(MountErrorView::NoMountPoint(path))
            } else {
                None
            }
        }),
{
    let n = normalized(path);
    let parts = virtual_components(path);
    law_normalized_is_normal(path);
    law_under_mount_is_component_prefix(n, mount);
    lemma_virtual_components(path);
    let empty = Seq::<char>::empty();
    let all = split(n, '/');
    if parts.len() > 0 {
        lemma_split_slash_join(parts);
        assert(all == seq![empty] + parts);
    } else {
        assert(n =~= empty.push('/') + empty);
        lemma_split_concat(empty, empty, '/');
        assert(split(empty, '/') == seq![empty]);
        assert(all =~= seq![empty, empty]);
    }
    assert(utf8_len(empty) == 0);
    if exists|i: int| 0 <= i < all.len() && utf8_len(#[trigger] all[i]) > NAME_MAX {
        let i = choose|i: int| 0 <= i < all.len() && utf8_len(#[trigger] all[i]) > NAME_MAX;
        assert(i > 0);
        assert(parts.len() > 0);
        assert(parts[i - 1] == all[i]);
    }
    if exists|i: int| 0 <= i < parts.len() && utf8_len(#[trigger] parts[i]) > 255 {
        let i = choose|i: int| 0 <= i < parts.len() && utf8_len(#[trigger] parts[i]) > 255;
        assert(all[i + 1] == parts[i]);
    }
    if stripped(n, mount) is Some {
        let rest = stripped(n, mount)->Some_0;
        if rest.len() > 0 {
            lemma_rest_is_proper(n, mount);
            lemma_proper_components(split(rest, '/'));
            let comps = components_of(split(rest, '/'));
            lemma_split_nonempty(rest, '/');
            assert(comps[0] is Normal);
            let candidate = host_candidate(mount_host, rest);
            assert(candidate == mount_host + comps);
            assert forall|i: int| 0 <= i < candidate.len() implies !((#[trigger] candidate[i]) is ParentDir) by {
                if i < mount_host.len() {
                    assert(candidate[i] == mount_host[i]);
                } else {
                    assert(candidate[i] == comps[i - mount_host.len()]);
                }
            }
        }
    }
}

/// A path and the same path with `/..` behind it differ by one component, the
/// last; the root has none to lose.
pub proof fn law_parent_is_one_component_shorter(p: Seq<char>)
    ensures
        virtual_components(p).len() > 0 ==> virtual_components(p + "/.."@) == virtual_components(p).drop_last(),
        virtual_components(p).len() == 0 ==> virtual_components(p + "/.."@).len() == 0,
{
    reveal_strlit("/");
    reveal_strlit(".");
    reveal_strlit("..");
    reveal_strlit("/..");
    assert(p + "/.."@ =~= p + "/"@ + ".."@);
    assert(!".."@.contains('/'));
    lemma_split_one_more(p, ".."@);
    assert(split(p, '/').push(".."@).drop_last() =~= split(p, '/'));
    assert(".."@.len() == 2 && "."@.len() == 1);
}

/// A path is too long exactly where it takes more than 4096 bytes, or a piece of
/// it between separators more than 255.
pub proof fn law_long_paths_are_found(path: Seq<char>, front: Seq<char>, piece: Seq<char>)
    requires
        !piece.contains('/'),
    ensures
        utf8_len(path) > 4096 ==> overlong(path),
        utf8_len(piece) > 255 ==> overlong(piece) && overlong(front + "/"@ + piece),
        utf8_len(front + "/"@ + piece) <= 4096 && utf8_len(piece) <= 255 && !overlong(front) ==> !overlong(
            front + "/"@ + piece,
        ),
{
    let whole = front + "/"@ + piece;
    lemma_split_one_more(front, piece);
    lemma_split_no_sep(piece);
    let parts = split(front, '/');
    assert(split(whole, '/') == parts.push(piece));
    assert(split(piece, '/')[0] == piece);
    assert(split(whole, '/')[parts.len() as int] == piece);
    if utf8_len(piece) <= 255 && !overlong(front) {
        assert forall|i: int| 0 <= i < split(whole, '/').len() implies utf8_len(#[trigger] split(whole, '/')[i]) <= 255 by {
            if i < parts.len() {
                assert(split(whole, '/')[i] == parts[i]);
            }
        }
    }
}

} // verus!
