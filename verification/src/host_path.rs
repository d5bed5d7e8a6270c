//! Host paths as component lists, with the rules for joining and comparing
//! them. Only Windows has prefixes; without one the rules are those of POSIX.

use crate::text::{same, split, split_chars, string_of};
use vstd::prelude::*;
use vstd::slice::*;

verus! {

/// One component of a host path.
#[derive(Debug)]
pub enum HostComponent {
    /// A drive or share in front of a Windows path.
    Prefix(String),
    /// The leading `/`.
    RootDir,
    /// A leading `.`.
    CurDir,
    /// `..`
    ParentDir,
    /// An ordinary name that is valid UTF-8.
    Normal(String),
    /// An ordinary name that is not valid UTF-8.
    Opaque(Vec<u8>),
}

/// A component with its name as a sequence.
pub enum ComponentView {
    Prefix(Seq<char>),
    RootDir,
    CurDir,
    ParentDir,
    Normal(Seq<char>),
    Opaque(Seq<u8>),
}

impl View for HostComponent {
    type V = ComponentView;

    open spec fn view(&self) -> ComponentView {
        match *self {
            HostComponent::Prefix(p) => ComponentView::Prefix(p@),
            HostComponent::RootDir => ComponentView::RootDir,
            HostComponent::CurDir => ComponentView::CurDir,
            HostComponent::ParentDir => ComponentView::ParentDir,
            HostComponent::Normal(n) => ComponentView::Normal(n@),
            HostComponent::Opaque(n) => ComponentView::Opaque(n@),
        }
    }
}

/// A host path: its components in order.
#[derive(Debug)]
pub struct HostPath {
    pub components: Vec<HostComponent>,
}

impl View for HostPath {
    type V = Seq<ComponentView>;

    open spec fn view(&self) -> Seq<ComponentView> {
        self.components@.map_values(|c: HostComponent| c@)
    }
}

/// Whether `p` begins with all components of `base`.
pub open spec fn path_within(p: Seq<ComponentView>, base: Seq<ComponentView>) -> bool {
    base.len() <= p.len() && p.take(base.len() as int) == base
}

/// Whether a path begins with a prefix.
pub open spec fn has_prefix(p: Seq<ComponentView>) -> bool {
    p.len() > 0 && p[0] is Prefix
}

/// Whether a path begins at a root, behind a prefix where it has one.
pub open spec fn has_root(p: Seq<ComponentView>) -> bool {
    ||| p.len() > 0 && p[0] is RootDir
    ||| p.len() > 1 && p[0] is Prefix && p[1] is RootDir
}

/// Joining `rel` onto `base`: a `rel` with a prefix replaces `base`, one that
/// begins at a root replaces all but the prefix of `base`, and a leading `.` of
/// `rel` vanishes behind a non-empty `base`.
pub open spec fn path_join(base: Seq<ComponentView>, rel: Seq<ComponentView>) -> Seq<ComponentView> {
    if has_prefix(rel) {
        rel
    } else if has_root(rel) {
        if has_prefix(base) { base.take(1) + rel } else { rel }
    } else if rel.len() > 0 && rel[0] is CurDir && base.len() > 0 {
        base + rel.skip(1)
    } else {
        base + rel
    }
}

/// The directory that holds `p`: none for a root, a prefix and the empty path.
pub open spec fn path_parent(p: Seq<ComponentView>) -> Option<Seq<ComponentView>> {
    if p.len() == 0 || p.last() is RootDir || p.last() is Prefix {
        None
    } else {
        Some(p.drop_last())
    }
}

/// The last component of `p` where it is an ordinary name.
pub open spec fn path_file_name(p: Seq<ComponentView>) -> Option<ComponentView> {
    if p.len() > 0 && (p.last() is Normal || p.last() is Opaque) {
        Some(p.last())
    } else {
        None
    }
}

/// Whether `..` occurs in `p`.
pub open spec fn has_parent_component(p: Seq<ComponentView>) -> bool {
    exists|i: int| 0 <= i < p.len() && (#[trigger] p[i]) is ParentDir
}

/// The component that the text `part` stands for; `None` for an empty part and for `.`.
pub open spec fn component_of(part: Seq<char>) -> Option<ComponentView> {
    if part.len() == 0 || part == "."@ {
        None
    } else if part == ".."@ {
        Some(ComponentView::ParentDir)
    } else {
        Some(ComponentView::Normal(part))
    }
}

/// Components of the parts of a relative path.
pub open spec fn components_of(parts: Seq<Seq<char>>) -> Seq<ComponentView>
    decreases parts.len(),
{
    if parts.len() == 0 {
        Seq::empty()
    } else {
        match component_of(parts.last()) {
            Some(c) => components_of(parts.drop_last()).push(c),
            None => components_of(parts.drop_last()),
        }
    }
}

/// A copy of a component.
pub fn clone_component(c: &HostComponent) -> (r: HostComponent)
    ensures
        r@ == c@,
{
    match c {
        HostComponent::Prefix(p) => HostComponent::Prefix(p.clone()),
        HostComponent::RootDir => HostComponent::RootDir,
        HostComponent::CurDir => HostComponent::CurDir,
        HostComponent::ParentDir => HostComponent::ParentDir,
        HostComponent::Normal(n) => HostComponent::Normal(n.clone()),
        HostComponent::Opaque(n) => HostComponent::Opaque(clone_bytes(n)),
    }
}

/// A copy of a byte list.
pub fn clone_bytes(v: &Vec<u8>) -> (r: Vec<u8>)
    ensures
        r@ == v@,
{
    let mut out: Vec<u8> = Vec::new();
    let mut i: usize = 0;
    while i < v.len()
        invariant
            i <= v@.len(),
            out@ == v@.take(i as int),
        decreases v@.len() - i,
    {
        out.push(v[i]);
        proof {
            assert(v@.take(i + 1) =~= v@.take(i as int).push(v@[i as int]));
        }
        i = i + 1;
    }
    proof {
        assert(v@.take(v@.len() as int) =~= v@);
    }
    out
}

fn same_bytes(a: &Vec<u8>, b: &Vec<u8>) -> (r: bool)
    ensures
        r == (a@ == b@),
{
    if a.len() != b.len() {
        return false;
    }
    let mut i: usize = 0;
    while i < a.len()
        invariant
            i <= a@.len(),
            a@.len() == b@.len(),
            forall|j: int| 0 <= j < i ==> a@[j] == b@[j],
        decreases a@.len() - i,
    {
        if a[i] != b[i] {
            return false;
        }
        i = i + 1;
    }
    proof {
        assert(a@ =~= b@);
    }
    true
}

/// Whether two components are the same.
pub fn same_component(a: &HostComponent, b: &HostComponent) -> (r: bool)
    ensures
        r == (a@ == b@),
{
    match (a, b) {
        (HostComponent::Prefix(x), HostComponent::Prefix(y)) => same(x.as_str(), y.as_str()),
        (HostComponent::RootDir, HostComponent::RootDir) => true,
        (HostComponent::CurDir, HostComponent::CurDir) => true,
        (HostComponent::ParentDir, HostComponent::ParentDir) => true,
        (HostComponent::Normal(x), HostComponent::Normal(y)) => same(x.as_str(), y.as_str()),
        (HostComponent::Opaque(x), HostComponent::Opaque(y)) => same_bytes(x, y),
        _ => false,
    }
}

impl HostPath {
    /// A copy of the first `n` components.
    fn prefix(&self, n: usize) -> (r: HostPath)
        requires
            n <= self@.len(),
        ensures
            r@ == self@.take(n as int),
    {
        let mut out: Vec<HostComponent> = Vec::new();
        let mut i: usize = 0;
        while i < n
            invariant
                i <= n <= self.components@.len(),
                out@.map_values(|c: HostComponent| c@) == self@.take(i as int),
            decreases n - i,
        {
            let ghost before = out@;
            out.push(clone_component(&self.components[i]));
            proof {
                assert(self@.take(i + 1) =~= self@.take(i as int).push(self@[i as int]));
                assert(out@.map_values(|c: HostComponent| c@) =~= before.map_values(|c: HostComponent| c@).push(
                    self@[i as int],
                ));
            }
            i = i + 1;
        }
        proof {
            assert(self@.take(0) =~= Seq::<ComponentView>::empty());
        }
        HostPath { components: out }
    }

    /// A copy of the path.
    pub fn duplicate(&self) -> (r: HostPath)
        ensures
            r@ == self@,
    {
        let r: HostPath = self.prefix(self.components.len());
        proof {
            assert(self@.take(self@.len() as int) =~= self@);
        }
        r
    }

    /// Whether the path begins with all components of `base`.
    pub fn starts_with(&self, base: &HostPath) -> (r: bool)
        ensures
            r == path_within(self@, base@),
    {
        if base.components.len() > self.components.len() {
            return false;
        }
        let mut i: usize = 0;
        while i < base.components.len()
            invariant
                i <= base@.len() <= self@.len(),
                forall|j: int| 0 <= j < i ==> self@[j] == base@[j],
            decreases base@.len() - i,
        {
            if !same_component(&self.components[i], &base.components[i]) {
                proof {
                    assert(self@.take(base@.len() as int)[i as int] == self@[i as int]);
                    assert(self@[i as int] != base@[i as int]);
                }
                return false;
            }
            proof {
                assert(self@[i as int] == base@[i as int]);
            }
            i = i + 1;
        }
        proof {
            assert(self@.take(base@.len() as int) =~= base@);
        }
        true
    }

    /// The path joined with `rel`.
    pub fn join(&self, rel: &HostPath) -> (r: HostPath)
        ensures
            r@ == path_join(self@, rel@),
    {
        if rel.components.len() > 0 {
            match &rel.components[0] {
                HostComponent::Prefix(_) => return rel.duplicate(),
                HostComponent::RootDir => {
                    if self.has_prefix() {
                        return self.prefix(1).followed_by(rel, 0);
                    }
                    return rel.duplicate();
                },
                _ => {},
            }
        }
        let mut i: usize = 0;
        if rel.components.len() > 0 && self.components.len() > 0 {
            if let HostComponent::CurDir = rel.components[0] {
                i = 1;
            }
        }
        let r: HostPath = self.followed_by(rel, i);
        proof {
            assert(rel@.skip(0) =~= rel@);
        }
        r
    }

    /// Whether the path begins with a prefix.
    pub fn has_prefix(&self) -> (r: bool)
        ensures
            r == has_prefix(self@),
    {
        if self.components.len() == 0 {
            return false;
        }
        match &self.components[0] {
            HostComponent::Prefix(_) => true,
            _ => false,
        }
    }

    /// Whether the path begins at a root.
    pub fn has_root(&self) -> (r: bool)
        ensures
            r == has_root(self@),
    {
        if self.components.len() == 0 {
            return false;
        }
        match &self.components[0] {
            HostComponent::RootDir => true,
            HostComponent::Prefix(_) => {
                if self.components.len() > 1 {
                    match &self.components[1] {
                        HostComponent::RootDir => true,
                        _ => false,
                    }
                } else {
                    false
                }
            },
            _ => false,
        }
    }

    /// The path followed by the components of `rel` from `start` on.
    fn followed_by(&self, rel: &HostPath, start: usize) -> (r: HostPath)
        requires
            start <= rel@.len(),
        ensures
            r@ == self@ + rel@.skip(start as int),
    {
        let mut out: HostPath = self.duplicate();
        let mut i: usize = start;
        proof {
            assert(out@ =~= self@ + rel@.subrange(start as int, start as int));
        }
        while i < rel.components.len()
            invariant
                start <= i <= rel@.len(),
                out@ == self@ + rel@.subrange(start as int, i as int),
            decreases rel@.len() - i,
        {
            let ghost before = out@;
            out.components.push(clone_component(&rel.components[i]));
            proof {
                assert(out@ =~= before.push(rel@[i as int]));
                assert(rel@.subrange(start as int, i + 1) =~= rel@.subrange(start as int, i as int).push(rel@[i as int]));
                assert(out@ =~= self@ + rel@.subrange(start as int, i + 1));
            }
            i = i + 1;
        }
        proof {
            assert(rel@.subrange(start as int, rel@.len() as int) =~= rel@.skip(start as int));
        }
        out
    }

    /// The path followed by one more component.
    pub fn join_component(&self, c: &HostComponent) -> (r: HostPath)
        ensures
            r@ == self@.push(c@),
    {
        let mut out: HostPath = self.duplicate();
        let ghost before = out@;
        out.components.push(clone_component(c));
        proof {
            assert(out@ =~= before.push(c@));
        }
        out
    }

    /// The directory that holds the path.
    pub fn parent(&self) -> (r: Option<HostPath>)
        ensures
            r is Some <==> path_parent(self@) is Some,
            r is Some ==> r->Some_0@ == path_parent(self@)->Some_0,
    {
        let n: usize = self.components.len();
        if n == 0 {
            return None;
        }
        proof {
            assert(self@.last() == self.components@[n - 1]@);
        }
        match &self.components[n - 1] {
            HostComponent::RootDir | HostComponent::Prefix(_) => return None,
            _ => {},
        }
        let r: HostPath = self.prefix(n - 1);
        proof {
            assert(self@.take(n - 1) =~= self@.drop_last());
        }
        Some(r)
    }

    /// The last component where it is an ordinary name.
    pub fn file_name(&self) -> (r: Option<HostComponent>)
        ensures
            r is Some <==> path_file_name(self@) is Some,
            r is Some ==> r->Some_0@ == path_file_name(self@)->Some_0,
    {
        let n: usize = self.components.len();
        if n == 0 {
            return None;
        }
        proof {
            assert(self@.last() == self.components@[n - 1]@);
        }
        match &self.components[n - 1] {
            HostComponent::Normal(_) | HostComponent::Opaque(_) => Some(clone_component(&self.components[n - 1])),
            _ => None,
        }
    }

    /// Whether `..` occurs in the path.
    pub fn has_parent_component(&self) -> (r: bool)
        ensures
            r == has_parent_component(self@),
    {
        let mut i: usize = 0;
        while i < self.components.len()
            invariant
                i <= self@.len(),
                forall|j: int| 0 <= j < i ==> !((#[trigger] self@[j]) is ParentDir),
            decreases self@.len() - i,
        {
            if let HostComponent::ParentDir = self.components[i] {
                proof {
                    assert(self@[i as int] is ParentDir);
                }
                return true;
            }
            proof {
                assert(self@[i as int] == self.components@[i as int]@);
            }
            i = i + 1;
        }
        false
    }

    /// The components of a relative path text: empty parts and `.` stand for nothing.
    pub fn from_relative(relative: &str) -> (r: HostPath)
        ensures
            r@ == components_of(split(relative@, '/')),
    {
        let chars: Vec<char> = crate::text::chars_of(relative);
        let parts: Vec<Vec<char>> = split_chars(chars.as_slice(), '/');
        let ghost texts = parts@.map_values(|p: Vec<char>| p@);
        let mut out: Vec<HostComponent> = Vec::new();
        let mut i: usize = 0;
        proof {
            assert(texts.take(0) =~= Seq::<Seq<char>>::empty());
            assert(out@.map_values(|c: HostComponent| c@) =~= components_of(texts.take(0)));
        }
        while i < parts.len()
            invariant
                i <= parts@.len(),
                texts == parts@.map_values(|p: Vec<char>| p@),
                out@.map_values(|c: HostComponent| c@) == components_of(texts.take(i as int)),
            decreases parts@.len() - i,
        {
            let part: String = string_of(parts[i].as_slice());
            let ghost before = out@;
            proof {
                assert(texts.take(i + 1).drop_last() =~= texts.take(i as int));
                assert(texts.take(i + 1).last() == part@);
            }
            if part.as_str().is_empty() || same(part.as_str(), ".") {
            } else if same(part.as_str(), "..") {
                out.push(HostComponent::ParentDir);
                proof {
                    assert(out@.map_values(|c: HostComponent| c@) =~= before.map_values(|c: HostComponent| c@).push(
                        ComponentView::ParentDir,
                    ));
                }
            } else {
                let ghost name = part@;
                out.push(HostComponent::Normal(part));
                proof {
                    assert(out@.map_values(|c: HostComponent| c@) =~= before.map_values(|c: HostComponent| c@).push(
                        ComponentView::Normal(name),
                    ));
                }
            }
            i = i + 1;
        }
        proof {
            assert(texts.take(texts.len() as int) =~= texts);
        }
        HostPath { components: out }
    }
}

/// A path lies within itself, and stays within a directory when names are appended.
pub proof fn lemma_within_append(base: Seq<ComponentView>, p: Seq<ComponentView>, tail: Seq<ComponentView>)
    requires
        path_within(p, base),
    ensures
        path_within(p + tail, base),
        path_within(base, base),
{
    assert((p + tail).take(base.len() as int) =~= p.take(base.len() as int));
    assert(base.take(base.len() as int) =~= base);
}

/// Joining names onto a path puts them behind it; a path that begins at a root
/// takes the place of one without a prefix, and keeps the prefix of one that
/// has it; a path with a prefix takes the place of any.
pub proof fn law_joining_puts_names_behind(base: Seq<ComponentView>, rel: Seq<ComponentView>)
    ensures
        rel.len() > 0 && (rel[0] is Normal || rel[0] is ParentDir || rel[0] is Opaque) ==> path_join(base, rel) == base + rel,
        path_join(base, Seq::empty()) == base,
        rel.len() > 0 && rel[0] is RootDir && !(base.len() > 0 && base[0] is Prefix) ==> path_join(base, rel) == rel,
        rel.len() > 0 && rel[0] is RootDir && base.len() > 0 && base[0] is Prefix ==> path_join(base, rel) == seq![base[0]]
            + rel,
        rel.len() > 0 && rel[0] is Prefix ==> path_join(base, rel) == rel,
        rel.len() > 0 && rel[0] is CurDir && base.len() > 0 ==> path_join(base, rel) == base + rel.skip(1),
{
    assert(base + Seq::<ComponentView>::empty() =~= base);
    if base.len() > 0 {
        assert(base.take(1) =~= seq![base[0]]);
    }
}

/// A path is the directory that holds it with its last component behind it;
/// that component is its file name where it is an ordinary name.
pub proof fn law_directory_and_name_make_the_path(directory: Seq<ComponentView>, last: ComponentView)
    ensures
        last is Normal || last is Opaque ==> path_parent(directory.push(last)) == Some(directory) && path_file_name(
            directory.push(last),
        ) == Some(last),
        last is ParentDir || last is CurDir ==> path_parent(directory.push(last)) == Some(directory) && path_file_name(
            directory.push(last),
        ) is None,
        last is RootDir || last is Prefix ==> path_parent(directory.push(last)) is None && path_file_name(
            directory.push(last),
        ) is None,
        path_parent(Seq::empty()) is None,
        path_file_name(Seq::empty()) is None,
{
    assert(directory.push(last).drop_last() =~= directory);
}

/// The parts of a relative path become components one after the other: names as
/// they are, `..` as such, and nothing for `.` and empty parts.
pub proof fn law_parts_become_components(parts: Seq<Seq<char>>, part: Seq<char>)
    ensures
        components_of(Seq::empty()) == Seq::<ComponentView>::empty(),
        part.len() == 0 || part == "."@ ==> components_of(parts.push(part)) == components_of(parts),
        part == ".."@ ==> components_of(parts.push(part)) == components_of(parts).push(ComponentView::ParentDir),
        part.len() > 0 && part != "."@ && part != ".."@ ==> components_of(parts.push(part)) == components_of(parts).push(
            ComponentView::Normal(part),
        ),
{
    reveal_strlit(".");
    reveal_strlit("..");
    assert("."@.len() == 1 && ".."@.len() == 2);
    assert(parts.push(part).drop_last() =~= parts);
}

/// A path lies within another exactly where it is that path with something
/// behind it.
pub proof fn law_within_means_behind(p: Seq<ComponentView>, base: Seq<ComponentView>, tail: Seq<ComponentView>)
    ensures
        path_within(base + tail, base),
        path_within(p, base) ==> p == base + p.skip(base.len() as int),
        path_within(p, base) && path_within(base, p) ==> p == base,
{
    assert((base + tail).take(base.len() as int) =~= base);
    if path_within(p, base) {
        assert(p =~= p.take(base.len() as int) + p.skip(base.len() as int));
        if path_within(base, p) {
            assert(p.take(base.len() as int) =~= p);
        }
    }
}

/// A path holds `..` exactly where one of its parts does.
pub proof fn law_parent_components_are_found(a: Seq<ComponentView>, b: Seq<ComponentView>, c: ComponentView)
    ensures
        has_parent_component(seq![c]) <==> c is ParentDir,
        has_parent_component(a + b) <==> has_parent_component(a) || has_parent_component(b),
{
    assert(seq![c][0] == c);
    if has_parent_component(a) {
        let i = choose|i: int| 0 <= i < a.len() && (#[trigger] a[i]) is ParentDir;
        assert((a + b)[i] is ParentDir);
    }
    if has_parent_component(b) {
        let i = choose|i: int| 0 <= i < b.len() && (#[trigger] b[i]) is ParentDir;
        assert((a + b)[a.len() + i] is ParentDir);
    }
    if has_parent_component(a + b) {
        let i = choose|i: int| 0 <= i < (a + b).len() && (#[trigger] (a + b)[i]) is ParentDir;
        if i < a.len() {
            assert(a[i] is ParentDir);
        } else {
            assert(b[i - a.len()] is ParentDir);
        }
    }
}

} // verus!
