//! Host-independent path handling for archive entry names.
//!
//! Entry names are forward-slash delimited character strings. Everything
//! here works component by component on the characters themselves, never
//! through the host's path type, so the checks mean the same on every
//! system.

use vstd::prelude::*;

use crate::trusted::{chars_of, string_from_chars};

verus! {

/// The character sequences of a list of character vectors.
pub open spec fn views_of(v: Seq<Vec<char>>) -> Seq<Seq<char>> {
    Seq::new(v.len(), |i: int| v[i]@)
}

/// Split a character string at every `/`. Empty components are kept, so the
/// result always has one more component than the string has separators.
pub open spec fn split_slash(cs: Seq<char>) -> Seq<Seq<char>>
    decreases cs.len(),
{
    if cs.len() == 0 {
        seq![Seq::<char>::empty()]
    } else {
        let rest = split_slash(cs.drop_last());
        if cs.last() == '/' {
            rest.push(Seq::<char>::empty())
        } else {
            rest.update(rest.len() - 1, rest.last().push(cs.last()))
        }
    }
}

/// A split always yields at least one component.
pub proof fn lemma_split_slash_len(cs: Seq<char>)
    ensures
        split_slash(cs).len() >= 1,
    decreases cs.len(),
{
    if cs.len() > 0 {
        lemma_split_slash_len(cs.drop_last());
    }
}

/// Whether a component names a real directory entry: not empty (a repeated
/// or trailing separator), not `.`, not `..`.
pub open spec fn is_normal_component(c: Seq<char>) -> bool {
    c.len() > 0 && c != seq!['.'] && c != seq!['.', '.']
}

/// Resolve a component list against an initially empty stack: a normal name
/// is kept, `.` and empty components vanish, `..` removes the name above it
/// and fails on an empty stack.
pub open spec fn normalize_components(comps: Seq<Seq<char>>) -> Option<Seq<Seq<char>>>
    decreases comps.len(),
{
    if comps.len() == 0 {
        Some(Seq::<Seq<char>>::empty())
    } else {
        match normalize_components(comps.drop_last()) {
            None => None,
            Some(stack) => {
                let c = comps.last();
                if c.len() == 0 || c == seq!['.'] {
                    Some(stack)
                } else if c == seq!['.', '.'] {
                    if stack.len() == 0 {
                        None
                    } else {
                        Some(stack.drop_last())
                    }
                } else {
                    Some(stack.push(c))
                }
            },
        }
    }
}

/// Resolve a component list, silently ignoring a `..` that has nothing to
/// remove.
pub open spec fn normalize_lossy(comps: Seq<Seq<char>>) -> Seq<Seq<char>>
    decreases comps.len(),
{
    if comps.len() == 0 {
        Seq::<Seq<char>>::empty()
    } else {
        let stack = normalize_lossy(comps.drop_last());
        let c = comps.last();
        if c.len() == 0 || c == seq!['.'] {
            stack
        } else if c == seq!['.', '.'] {
            if stack.len() == 0 {
                stack
            } else {
                stack.drop_last()
            }
        } else {
            stack.push(c)
        }
    }
}

/// Join components with `/`.
pub open spec fn join_slash(comps: Seq<Seq<char>>) -> Seq<char>
    decreases comps.len(),
{
    if comps.len() == 0 {
        Seq::<char>::empty()
    } else if comps.len() == 1 {
        comps[0]
    } else {
        join_slash(comps.drop_last()) + seq!['/'] + comps.last()
    }
}

/// The safe relative reading of an entry name: `None` when the name holds a
/// NUL, is absolute, or climbs above its starting directory; otherwise the
/// resolved components joined with `/`, keeping a trailing separator so a
/// directory stays recognizable.
pub open spec fn spec_enclosed_name(cs: Seq<char>) -> Option<Seq<char>> {
    if cs.contains('\u{0}') || (cs.len() > 0 && cs[0] == '/') {
        None
    } else {
        match normalize_components(split_slash(cs)) {
            None => None,
            Some(stack) => {
                let joined = join_slash(stack);
                if cs.len() > 0 && (cs.last() == '/' || cs.last() == '\\') && stack.len() > 0 {
                    Some(joined.push('/'))
                } else {
                    Some(joined)
                }
            },
        }
    }
}

/// The lossy reading of an entry name: truncated at the first NUL, leading
/// separators dropped, `.` and `..` components discarded.
pub open spec fn spec_mangled_name(cs: Seq<char>) -> Seq<char> {
    let cut = if cs.contains('\u{0}') {
        cs.take(cs.index_of_first('\u{0}').unwrap_or(0))
    } else {
        cs
    };
    join_slash(normalize_lossy(split_slash(cut)))
}

/// The normalized archive key of a path: forward-slash delimited, leading
/// separators dropped, `.` dropped, `..` resolved against what precedes it.
pub open spec fn spec_path_to_string(cs: Seq<char>) -> Seq<char> {
    join_slash(normalize_lossy(split_slash(cs)))
}

/// Whether a name denotes a directory: it ends in a separator.
pub open spec fn spec_is_dir(cs: Seq<char>) -> bool {
    cs.len() > 0 && (cs.last() == '/' || cs.last() == '\\')
}

/// Whether a name denotes a directory (its last character is `/` or `\`).
pub fn is_dir(filename: &str) -> (r: bool)
    ensures
        r == spec_is_dir(filename@),
{
    let cs = chars_of(filename);
    if cs.len() == 0 {
        false
    } else {
        let c = cs[cs.len() - 1];
        c == '/' || c == '\\'
    }
}

/// The position of the first NUL character, if there is one.
fn find_nul(cs: &Vec<char>) -> (r: Option<usize>)
    ensures
        r matches Some(k) ==> {
            &&& k < cs@.len()
            &&& cs@[k as int] == '\u{0}'
            &&& forall|j: int| 0 <= j < k ==> cs@[j] != '\u{0}'
        },
        r is None ==> !cs@.contains('\u{0}'),
{
    let n = cs.len();
    let mut i: usize = 0;
    while i < n
        invariant
            n == cs@.len(),
            i <= n,
            forall|j: int| 0 <= j < i ==> cs@[j] != '\u{0}',
        decreases n - i,
    {
        if cs[i] == '\u{0}' {
            return Some(i);
        }
        i = i + 1;
    }
    assert(!cs@.contains('\u{0}')) by {
        if cs@.contains('\u{0}') {
            let k = choose|k: int| 0 <= k < cs@.len() && cs@[k] == '\u{0}';
            assert(cs@[k] != '\u{0}');
        }
    }
    None
}

/// Split a character vector at every `/`.
fn split_components(cs: &Vec<char>) -> (r: Vec<Vec<char>>)
    ensures
        views_of(r@) == split_slash(cs@),
{
    let mut comps: Vec<Vec<char>> = Vec::new();
    comps.push(Vec::new());
    proof {
        assert(views_of(comps@) =~~= split_slash(cs@.subrange(0, 0)));
    }
    let n = cs.len();
    let mut i: usize = 0;
    while i < n
        invariant
            n == cs@.len(),
            i <= n,
            comps@.len() >= 1,
            views_of(comps@) == split_slash(cs@.subrange(0, i as int)),
        decreases n - i,
    {
        proof {
            assert(cs@.subrange(0, i + 1).drop_last() =~= cs@.subrange(0, i as int));
            assert(cs@.subrange(0, i + 1).last() == cs@[i as int]);
        }
        let c = cs[i];
        if c == '/' {
            comps.push(Vec::new());
            proof {
                assert(views_of(comps@) =~~= split_slash(cs@.subrange(0, i + 1)));
            }
        } else {
            let last = comps.len() - 1;
            let mut comp = comps.remove(last);
            comp.push(c);
            comps.push(comp);
            proof {
                assert(views_of(comps@) =~~= split_slash(cs@.subrange(0, i + 1)));
            }
        }
        i = i + 1;
    }
    proof {
        assert(cs@.subrange(0, n as int) =~= cs@);
    }
    comps
}

/// Whether a component is `.`.
fn is_cur_dir(c: &Vec<char>) -> (r: bool)
    ensures
        r == (c@ == seq!['.']),
{
    let r = c.len() == 1 && c[0] == '.';
    proof {
        if r {
            assert(c@ =~= seq!['.']);
        }
    }
    r
}

/// Whether a component is `..`.
fn is_parent_dir(c: &Vec<char>) -> (r: bool)
    ensures
        r == (c@ == seq!['.', '.']),
{
    let r = c.len() == 2 && c[0] == '.' && c[1] == '.';
    proof {
        if r {
            assert(c@ =~= seq!['.', '.']);
        }
    }
    r
}

/// Copy one component.
fn clone_component(c: &Vec<char>) -> (r: Vec<char>)
    ensures
        r@ == c@,
{
    let mut out: Vec<char> = Vec::new();
    let n = c.len();
    let mut i: usize = 0;
    while i < n
        invariant
            n == c@.len(),
            i <= n,
            out@ == c@.subrange(0, i as int),
        decreases n - i,
    {
        out.push(c[i]);
        proof {
            assert(out@ =~= c@.subrange(0, i + 1));
        }
        i = i + 1;
    }
    proof {
        assert(c@.subrange(0, n as int) =~= c@);
    }
    out
}

/// Strict resolution keeps only real directory names on its stack.
proof fn lemma_normalize_all_normal(comps: Seq<Seq<char>>)
    ensures
        (normalize_components(comps) matches Some(st) ==> forall|i: int|
            0 <= i < st.len() ==> is_normal_component(#[trigger] st[i])),
    decreases comps.len(),
{
    if comps.len() > 0 {
        lemma_normalize_all_normal(comps.drop_last());
    }
}

/// Path safety: when a name has a safe relative form, that form is the
/// join of components that are all real directory names — never empty,
/// never `.`, never `..` — with at most a trailing separator; resolved
/// this way it can never climb out of the directory it is opened in.
pub proof fn lemma_enclosed_name_safe(cs: Seq<char>)
    ensures
        (spec_enclosed_name(cs) matches Some(p) ==> exists|stack: Seq<Seq<char>>|
            {
                &&& #[trigger] normalize_components(split_slash(cs)) == Some(stack)
                &&& (forall|i: int|
                    0 <= i < stack.len() ==> is_normal_component(#[trigger] stack[i]))
                &&& (p == join_slash(stack) || p == join_slash(stack).push('/'))
            }),
{
    if spec_enclosed_name(cs) is Some {
        lemma_normalize_all_normal(split_slash(cs));
        let stack = normalize_components(split_slash(cs)).unwrap();
        assert(normalize_components(split_slash(cs)) == Some(stack));
    }
}

/// Once strict resolution has failed on a prefix, it fails for the whole
/// list.
proof fn lemma_normalize_none_extends(comps: Seq<Seq<char>>, k: int)
    requires
        0 <= k <= comps.len(),
        normalize_components(comps.subrange(0, k)) is None,
    ensures
        normalize_components(comps) is None,
    decreases comps.len() - k,
{
    if k == comps.len() {
        assert(comps.subrange(0, k) =~= comps);
    } else {
        assert(comps.subrange(0, k + 1).drop_last() =~= comps.subrange(0, k));
        assert(normalize_components(comps.subrange(0, k + 1)) is None);
        lemma_normalize_none_extends(comps, k + 1);
    }
}

/// Resolve components strictly: `None` when a `..` climbs past the start.
fn normalize_strict(comps: Vec<Vec<char>>) -> (r: Option<Vec<Vec<char>>>)
    ensures
        r matches Some(v) ==> normalize_components(views_of(comps@)) == Some(views_of(v@)),
        r is None ==> normalize_components(views_of(comps@)) is None,
{
    let mut stack: Vec<Vec<char>> = Vec::new();
    let n = comps.len();
    let mut i: usize = 0;
    proof {
        assert(views_of(comps@).subrange(0, 0) =~~= Seq::<Seq<char>>::empty());
        assert(views_of(stack@) =~~= Seq::<Seq<char>>::empty());
    }
    while i < n
        invariant
            n == comps@.len(),
            i <= n,
            normalize_components(views_of(comps@).subrange(0, i as int)) == Some(views_of(stack@)),
        decreases n - i,
    {
        proof {
            assert(views_of(comps@).subrange(0, i + 1).drop_last() =~~= views_of(
                comps@,
            ).subrange(0, i as int));
            assert(views_of(comps@).subrange(0, i + 1).last() == comps@[i as int]@);
        }
        let c = &comps[i];
        if c.len() == 0 || is_cur_dir(c) {
        } else if is_parent_dir(c) {
            if stack.len() == 0 {
                proof {
                    assert(normalize_components(views_of(comps@).subrange(0, i + 1)) is None);
                    lemma_normalize_none_extends(views_of(comps@), i + 1);
                }
                return None;
            }
            let _ = stack.pop();
            proof {
                assert(views_of(stack@) =~~= normalize_components(
                    views_of(comps@).subrange(0, i + 1),
                ).unwrap());
            }
        } else {
            let copy = clone_component(c);
            stack.push(copy);
            proof {
                assert(views_of(stack@) =~~= normalize_components(
                    views_of(comps@).subrange(0, i + 1),
                ).unwrap());
            }
        }
        proof {
            assert(views_of(stack@) =~~= normalize_components(
                views_of(comps@).subrange(0, i + 1),
            ).unwrap());
        }
        i = i + 1;
    }
    proof {
        assert(views_of(comps@).subrange(0, n as int) =~~= views_of(comps@));
    }
    Some(stack)
}

/// Resolve components, ignoring a `..` with nothing above it.
fn normalize_forgiving(comps: Vec<Vec<char>>) -> (r: Vec<Vec<char>>)
    ensures
        views_of(r@) == normalize_lossy(views_of(comps@)),
{
    let mut stack: Vec<Vec<char>> = Vec::new();
    let n = comps.len();
    let mut i: usize = 0;
    proof {
        assert(views_of(comps@).subrange(0, 0) =~~= Seq::<Seq<char>>::empty());
        assert(views_of(stack@) =~~= Seq::<Seq<char>>::empty());
    }
    while i < n
        invariant
            n == comps@.len(),
            i <= n,
            views_of(stack@) == normalize_lossy(views_of(comps@).subrange(0, i as int)),
        decreases n - i,
    {
        proof {
            assert(views_of(comps@).subrange(0, i + 1).drop_last() =~~= views_of(
                comps@,
            ).subrange(0, i as int));
            assert(views_of(comps@).subrange(0, i + 1).last() == comps@[i as int]@);
        }
        let c = &comps[i];
        if c.len() == 0 || is_cur_dir(c) {
        } else if is_parent_dir(c) {
            if stack.len() > 0 {
                let _ = stack.pop();
            }
        } else {
            let copy = clone_component(c);
            stack.push(copy);
        }
        proof {
            assert(views_of(stack@) =~~= normalize_lossy(views_of(comps@).subrange(0, i + 1)));
        }
        i = i + 1;
    }
    proof {
        assert(views_of(comps@).subrange(0, n as int) =~~= views_of(comps@));
    }
    stack
}

/// Join components with `/` into one character vector.
fn join_components(stack: &Vec<Vec<char>>) -> (r: Vec<char>)
    ensures
        r@ == join_slash(views_of(stack@)),
{
    let mut out: Vec<char> = Vec::new();
    let n = stack.len();
    let mut k: usize = 0;
    while k < n
        invariant
            n == stack@.len(),
            k <= n,
            out@ == join_slash(views_of(stack@).subrange(0, k as int)),
        decreases n - k,
    {
        proof {
            assert(views_of(stack@).subrange(0, k + 1).drop_last() =~~= views_of(
                stack@,
            ).subrange(0, k as int));
            assert(views_of(stack@).subrange(0, k + 1).last() == stack@[k as int]@);
        }
        if k > 0 {
            out.push('/');
        }
        let comp = &stack[k];
        let m = comp.len();
        let mut j: usize = 0;
        let ghost mid = out@;
        while j < m
            invariant
                m == comp@.len(),
                j <= m,
                out@ == mid + comp@.subrange(0, j as int),
            decreases m - j,
        {
            out.push(comp[j]);
            proof {
                assert(out@ =~= mid + comp@.subrange(0, j + 1));
            }
            j = j + 1;
        }
        proof {
            assert(comp@.subrange(0, m as int) =~= comp@);
            assert(out@ =~= join_slash(views_of(stack@).subrange(0, k + 1)));
        }
        k = k + 1;
    }
    proof {
        assert(views_of(stack@).subrange(0, n as int) =~~= views_of(stack@));
    }
    out
}

/// The safe relative form of an entry name, or `None` when the name holds a
/// NUL, is absolute, or would climb out of its starting directory.
pub fn enclosed_name_of(name: &str) -> (r: Option<String>)
    ensures
        r is Some <==> spec_enclosed_name(name@) is Some,
        r matches Some(p) ==> Some(p@) == spec_enclosed_name(name@),
{
    let cs = chars_of(name);
    let n = cs.len();
    match find_nul(&cs) {
        Some(k) => {
            proof {
                assert(cs@.contains('\u{0}'));
            }
            return None;
        },
        None => {},
    }
    if n > 0 && cs[0] == '/' {
        return None;
    }
    let trailing_sep = n > 0 && (cs[n - 1] == '/' || cs[n - 1] == '\\');
    let comps = split_components(&cs);
    let stack = match normalize_strict(comps) {
        Some(s) => s,
        None => {
            return None;
        },
    };
    let keep_sep = trailing_sep && stack.len() > 0;
    let mut joined = join_components(&stack);
    if keep_sep {
        joined.push('/');
    }
    Some(string_from_chars(joined))
}

/// The lossy relative form of an entry name: truncated at the first NUL,
/// with absolute and climbing components discarded.
pub fn mangled_name_of(name: &str) -> (r: String)
    ensures
        r@ == spec_mangled_name(name@),
{
    let cs = chars_of(name);
    let cut: Vec<char> = match find_nul(&cs) {
        Some(k) => {
            proof {
                assert(cs@.contains('\u{0}'));
                assert(cs@.index_of_first('\u{0}') == Some(k as int)) by {
                    cs@.index_of_first_ensures('\u{0}');
                    let m = cs@.index_of_first('\u{0}').unwrap();
                    if m < k {
                        assert(cs@[m] == '\u{0}');
                    }
                    if m > k {
                        assert(cs@[k as int] == '\u{0}');
                    }
                }
            }
            vstd::slice::slice_to_vec(&cs[0..k])
        },
        None => cs,
    };
    let comps = split_components(&cut);
    let stack = normalize_forgiving(comps);
    let joined = join_components(&stack);
    string_from_chars(joined)
}

/// The normalized archive key of a forward-slash path.
pub fn path_to_string(path: &str) -> (r: String)
    ensures
        r@ == spec_path_to_string(path@),
{
    let cs = chars_of(path);
    let comps = split_components(&cs);
    let stack = normalize_forgiving(comps);
    let joined = join_components(&stack);
    string_from_chars(joined)
}

/// The character sequences of a list of strings.
pub open spec fn str_views(v: Seq<String>) -> Seq<Seq<char>> {
    Seq::new(v.len(), |i: int| v[i]@)
}

/// The joins of the first `k`, `k - 1`, ..., `1` components, child first.
pub open spec fn dir_prefixes(comps: Seq<Seq<char>>, k: int) -> Seq<Seq<char>>
    decreases k,
{
    if k <= 0 {
        Seq::<Seq<char>>::empty()
    } else {
        seq![join_slash(comps.take(k))] + dir_prefixes(comps, k - 1)
    }
}

/// The directories that must exist for `cs` to exist: the path itself when
/// it is a directory, then each ancestor, child before parent.
pub open spec fn spec_containing_dirs(cs: Seq<char>) -> Seq<Seq<char>> {
    let ends_slash = cs.len() > 0 && cs.last() == '/';
    let comps0 = split_slash(cs);
    let comps = if ends_slash {
        comps0.drop_last()
    } else {
        comps0
    };
    let k = if ends_slash {
        comps.len() as int
    } else {
        comps.len() - 1
    };
    dir_prefixes(comps, k)
}

/// The longest child-first run of `dirs` none of which is in `seen`.
pub open spec fn new_dirs_needed(dirs: Seq<Seq<char>>, seen: Seq<Seq<char>>) -> Seq<Seq<char>>
    decreases dirs.len(),
{
    if dirs.len() == 0 {
        Seq::<Seq<char>>::empty()
    } else if seen.contains(dirs[0]) {
        Seq::<Seq<char>>::empty()
    } else {
        seq![dirs[0]] + new_dirs_needed(dirs.drop_first(), seen)
    }
}

/// The set of directory paths already created on disk.
#[derive(Debug)]
pub struct CompletedPaths {
    seen: Vec<String>,
}

impl CompletedPaths {
    /// The paths recorded so far.
    pub closed spec fn view(&self) -> Seq<Seq<char>> {
        str_views(self.seen@)
    }

    /// An empty record.
    pub fn new() -> (r: Self)
        ensures
            r@ == Seq::<Seq<char>>::empty(),
    {
        let r = CompletedPaths { seen: Vec::new() };
        proof {
            assert(r@ =~~= Seq::<Seq<char>>::empty());
        }
        r
    }

    /// Whether `path` has already been recorded.
    pub fn contains(&self, path: &str) -> (r: bool)
        ensures
            r == self@.contains(path@),
    {
        let n = self.seen.len();
        let mut i: usize = 0;
        while i < n
            invariant
                n == self.seen@.len(),
                i <= n,
                forall|j: int| 0 <= j < i ==> self@[j] != path@,
            decreases n - i,
        {
            if crate::trusted::str_eq(self.seen[i].as_str(), path) {
                assert(self@[i as int] == path@);
                return true;
            }
            i = i + 1;
        }
        proof {
            if self@.contains(path@) {
                let k = choose|k: int| 0 <= k < self@.len() && self@[k] == path@;
                assert(self@[k] != path@);
            }
        }
        false
    }

    /// The directories that must exist for `path` to exist, child first.
    pub fn containing_dirs(path: &str) -> (r: Vec<String>)
        ensures
            str_views(r@) == spec_containing_dirs(path@),
    {
        let cs = chars_of(path);
        let n = cs.len();
        let ends_slash = n > 0 && cs[n - 1] == '/';
        let mut comps = split_components(&cs);
        if ends_slash {
            proof {
                lemma_split_slash_len(cs@);
            }
            let last = comps.len() - 1;
            let _ = comps.remove(last);
        }
        let ghost comps_v = views_of(comps@);
        proof {
            if ends_slash {
                assert(views_of(comps@) =~~= split_slash(cs@).drop_last());
            }
        }
        let k0: usize = if ends_slash {
            comps.len()
        } else {
            if comps.len() == 0 {
                0
            } else {
                comps.len() - 1
            }
        };
        proof {
            lemma_split_slash_len(cs@);
            if !ends_slash {
                assert(comps@.len() >= 1);
            }
        }
        let mut out: Vec<String> = Vec::new();
        let mut k: usize = k0;
        while k > 0
            invariant
                k <= k0 <= comps@.len(),
                comps_v == views_of(comps@),
                str_views(out@) + dir_prefixes(comps_v, k as int) == dir_prefixes(
                    comps_v,
                    k0 as int,
                ),
            decreases k,
        {
            let ghost old_out = out@;
            let prefix: Vec<Vec<char>> = copy_prefix(&comps, k);
            let joined = join_components(&prefix);
            out.push(string_from_chars(joined));
            proof {
                assert(views_of(prefix@) =~~= comps_v.take(k as int));
                assert(str_views(out@) =~= str_views(old_out).push(join_slash(comps_v.take(
                    k as int,
                ))));
                assert(str_views(out@) + dir_prefixes(comps_v, k - 1) =~~= dir_prefixes(
                    comps_v,
                    k0 as int,
                ));
            }
            k = k - 1;
        }
        proof {
            assert(str_views(out@) =~~= str_views(out@) + dir_prefixes(comps_v, 0));
            if comps@.len() == 0 && !ends_slash {
                assert(false);
            }
        }
        out
    }

    /// The directories that must be created for `path`, parent first:
    /// the child-first run of its containing directories not yet recorded,
    /// reversed.
    pub fn new_containing_dirs_needed(&self, path: &str) -> (r: Vec<String>)
        ensures
            str_views(r@) == new_dirs_needed(spec_containing_dirs(path@), self@).reverse(),
    {
        let dirs = Self::containing_dirs(path);
        let n = dirs.len();
        let mut kept: usize = 0;
        loop
            invariant
                kept <= n,
                n == dirs@.len(),
                str_views(dirs@) == spec_containing_dirs(path@),
                forall|j: int| 0 <= j < kept ==> !self@.contains(str_views(dirs@)[j]),
            ensures
                kept <= n,
                new_dirs_needed(str_views(dirs@), self@) == str_views(dirs@).take(kept as int),
            decreases n - kept,
        {
            if kept >= n {
                proof {
                    lemma_new_dirs_needed_take(str_views(dirs@), self@, kept as int);
                }
                break ;
            }
            if self.contains(dirs[kept].as_str()) {
                proof {
                    lemma_new_dirs_needed_take(str_views(dirs@), self@, kept as int);
                }
                break ;
            }
            kept = kept + 1;
        }
        let mut out: Vec<String> = Vec::new();
        let mut i: usize = 0;
        while i < kept
            invariant
                i <= kept <= n,
                n == dirs@.len(),
                out@.len() == i,
                forall|j: int| 0 <= j < i ==> str_views(out@)[j] == str_views(dirs@)[kept - 1 - j],
            decreases kept - i,
        {
            let ghost prev = out@;
            let copied = clone_string(&dirs[kept - 1 - i]);
            out.push(copied);
            proof {
                assert forall|j: int| 0 <= j < i + 1 implies str_views(out@)[j] == str_views(
                    dirs@,
                )[kept - 1 - j] by {
                    if j < i {
                        assert(out@[j] == prev[j]);
                        assert(str_views(prev)[j] == str_views(dirs@)[kept - 1 - j]);
                    }
                }
            }
            i = i + 1;
        }
        proof {
            assert(str_views(out@) =~~= str_views(dirs@).take(kept as int).reverse());
        }
        out
    }

    /// Record every path in `paths` that is not yet recorded.
    pub fn write_dirs(&mut self, paths: &Vec<String>)
        ensures
            forall|p: Seq<char>|
                #[trigger] final(self)@.contains(p) <==> old(self)@.contains(p) || str_views(
                    paths@,
                ).contains(p),
    {
        let n = paths.len();
        let mut i: usize = 0;
        while i < n
            invariant
                i <= n,
                n == paths@.len(),
                forall|p: Seq<char>|
                    #[trigger] self@.contains(p) <==> old(self)@.contains(p) || str_views(
                        paths@,
                    ).take(i as int).contains(p),
            decreases n - i,
        {
            let ghost prev = self@;
            let in_already = self.contains(paths[i].as_str());
            if !in_already {
                let copied = clone_string(&paths[i]);
                self.seen.push(copied);
                proof {
                    assert forall|p: Seq<char>| #[trigger]
                        self@.contains(p) == (prev.contains(p) || p == paths@[i as int]@) by {
                        if self@.contains(p) {
                            let k = choose|k: int| 0 <= k < self@.len() && self@[k] == p;
                            if k < self@.len() - 1 {
                                assert(prev[k] == p);
                                assert(prev.contains(p));
                            } else {
                                assert(p == paths@[i as int]@);
                            }
                        }
                        if prev.contains(p) {
                            let k = choose|k: int| 0 <= k < prev.len() && prev[k] == p;
                            assert(self@[k] == p);
                            assert(self@.contains(p));
                        }
                        if p == paths@[i as int]@ {
                            assert(self@[self@.len() - 1] == p);
                            assert(self@.contains(p));
                        }
                    }
                }
            }
            proof {
                let t1 = str_views(paths@).take(i + 1);
                let t0 = str_views(paths@).take(i as int);
                assert(t1 =~~= t0.push(paths@[i as int]@));
                assert forall|p: Seq<char>| #[trigger]
                    t1.contains(p) == (t0.contains(p) || p == paths@[i as int]@) by {
                    if t1.contains(p) {
                        let k = choose|k: int| 0 <= k < t1.len() && t1[k] == p;
                        if k < t0.len() {
                            assert(t0[k] == p);
                            assert(t0.contains(p));
                        } else {
                            assert(p == paths@[i as int]@);
                        }
                    }
                    if t0.contains(p) {
                        let k = choose|k: int| 0 <= k < t0.len() && t0[k] == p;
                        assert(t1[k] == p);
                        assert(t1.contains(p));
                    }
                    if p == paths@[i as int]@ {
                        assert(t1[t1.len() - 1] == p);
                        assert(t1.contains(p));
                    }
                }
                if in_already {
                    assert(self@ == prev);
                    assert(prev.contains(paths@[i as int]@));
                }
                assert forall|p: Seq<char>| #[trigger]
                    self@.contains(p) <==> old(self)@.contains(p) || str_views(paths@).take(
                        i + 1,
                    ).contains(p) by {
                    assert(t1.contains(p) == (t0.contains(p) || p == paths@[i as int]@));
                    assert(prev.contains(p) == (old(self)@.contains(p) || t0.contains(p)));
                }
            }
            i = i + 1;
        }
        proof {
            assert(str_views(paths@).take(n as int) =~~= str_views(paths@));
        }
    }
}

/// Copy the first `k` components.
fn copy_prefix(comps: &Vec<Vec<char>>, k: usize) -> (r: Vec<Vec<char>>)
    requires
        k <= comps@.len(),
    ensures
        views_of(r@) == views_of(comps@).take(k as int),
{
    let mut out: Vec<Vec<char>> = Vec::new();
    let mut i: usize = 0;
    while i < k
        invariant
            i <= k <= comps@.len(),
            views_of(out@) == views_of(comps@).take(i as int),
        decreases k - i,
    {
        let ghost prev = out@;
        proof {
            assert(views_of(prev).len() == prev.len());
            assert(prev.len() == i);
        }
        let copied = clone_component(&comps[i]);
        out.push(copied);
        proof {
            assert(out@ == prev.push(copied));
            assert forall|j: int| 0 <= j < i + 1 implies views_of(out@)[j] == views_of(
                comps@,
            ).take(i + 1)[j] by {
                if j < i {
                    assert(out@[j] == prev[j]);
                    assert(views_of(prev)[j] == views_of(comps@).take(i as int)[j]);
                } else {
                    assert(out@[j]@ == comps@[j as int]@);
                }
            }
            assert(views_of(out@) =~~= views_of(comps@).take(i + 1));
        }
        i = i + 1;
    }
    out
}

/// Copy one string.
fn clone_string(s: &String) -> (r: String)
    ensures
        r@ == s@,
{
    let chars = chars_of(s.as_str());
    string_from_chars(chars)
}

/// `new_dirs_needed` is the prefix of `dirs` up to the first recorded one.
proof fn lemma_new_dirs_needed_take(dirs: Seq<Seq<char>>, seen: Seq<Seq<char>>, kept: int)
    requires
        0 <= kept <= dirs.len(),
        forall|j: int| 0 <= j < kept ==> !seen.contains(dirs[j]),
        kept < dirs.len() ==> seen.contains(dirs[kept]),
    ensures
        new_dirs_needed(dirs, seen) == dirs.take(kept),
    decreases dirs.len(),
{
    if dirs.len() == 0 {
        assert(new_dirs_needed(dirs, seen) =~~= dirs.take(kept));
    } else if kept == 0 {
        if dirs.len() > 0 && seen.contains(dirs[0]) {
            assert(new_dirs_needed(dirs, seen) =~~= dirs.take(0));
        } else {
            assert(kept < dirs.len() ==> seen.contains(dirs[kept]));
            assert(seen.contains(dirs[0]));
            assert(new_dirs_needed(dirs, seen) =~~= dirs.take(0));
        }
    } else {
        let rest = dirs.drop_first();
        assert(forall|j: int| 0 <= j < kept - 1 ==> rest[j] == dirs[j + 1]);
        lemma_new_dirs_needed_take(rest, seen, kept - 1);
        assert(new_dirs_needed(dirs, seen) == seq![dirs[0]] + rest.take(kept - 1));
        assert(seq![dirs[0]] + rest.take(kept - 1) =~~= dirs.take(kept));
    }
}

} // verus!
