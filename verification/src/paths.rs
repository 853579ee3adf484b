//! Paths as text. A path is a string of components separated by `/`; empty
//! components and `.` components after the first carry no meaning, so
//! `a//b/./c/` names what `a/b/c` names.

use vstd::prelude::*;
use vstd::string::*;
use crate::text::chars_of;

verus! {

// What a caller finds on disk.

/// What the caller found at a path.
#[derive(Clone, Copy, Debug, PartialEq, Eq, Structural)]
pub enum Found {
    /// Nothing is there.
    Nothing,
    /// A regular file.
    File,
    /// A directory.
    Directory,
    /// Something that is neither.
    Other,
}

/// What a directory holds at one path.
#[derive(Debug)]
pub struct Listed {
    /// The path of the entry.
    pub path: String,
    /// What stands there.
    pub found: Found,
}

/// The paths of `entries`, in order.
pub open spec fn paths_of(entries: Seq<Listed>) -> Seq<Seq<char>> {
    entries.map_values(|e: Listed| e.path@)
}

// The parts of a path.

/// The text `.`.
pub open spec fn dot() -> Seq<char> {
    seq!['.']
}

/// The text `..`.
pub open spec fn dot_dot() -> Seq<char> {
    seq!['.', '.']
}

/// The text `/`.
pub open spec fn root() -> Seq<char> {
    seq!['/']
}

/// Where the last component of `s` starts: just behind the last `/`, or at 0.
pub open spec fn segment_start(s: Seq<char>) -> int
    decreases s.len(),
{
    if s.len() == 0 || s.last() == '/' {
        s.len() as int
    } else {
        segment_start(s.drop_last())
    }
}

/// What stands behind the last `/` of `s`.
pub open spec fn last_segment(s: Seq<char>) -> Seq<char> {
    s.subrange(segment_start(s), s.len() as int)
}

/// The final component of `p`, unless `p` has none or ends in `..`.
pub open spec fn file_name_of(p: Seq<char>) -> Option<Seq<char>>
    decreases p.len(),
{
    if p.len() == 0 {
        None
    } else if p.last() == '/' {
        file_name_of(p.drop_last())
    } else if last_segment(p) == dot_dot() {
        None
    } else if last_segment(p) == dot() {
        file_name_of(p.drop_last())
    } else {
        Some(last_segment(p))
    }
}

/// Index of the last `.` of `name`, or -1.
pub open spec fn last_dot(name: Seq<char>) -> int
    decreases name.len(),
{
    if name.len() == 0 {
        -1
    } else if name.last() == '.' {
        name.len() - 1
    } else {
        last_dot(name.drop_last())
    }
}

/// A file name without its extension: what stands before the last `.`, or the
/// whole name where it has no `.` behind its first character.
pub open spec fn stem_of(name: Seq<char>) -> Seq<char> {
    if last_dot(name) <= 0 {
        name
    } else {
        name.subrange(0, last_dot(name))
    }
}

/// The extension of a file name: what stands behind the last `.`, if the name
/// has a `.` behind its first character.
pub open spec fn extension_of(name: Seq<char>) -> Option<Seq<char>> {
    if last_dot(name) <= 0 {
        None
    } else {
        Some(name.subrange(last_dot(name) + 1, name.len() as int))
    }
}

/// The stem of the final component of `p`.
pub open spec fn file_stem_of(p: Seq<char>) -> Option<Seq<char>> {
    match file_name_of(p) {
        Some(name) => Some(stem_of(name)),
        None => None,
    }
}

/// The extension of the final component of `p`.
pub open spec fn path_extension_of(p: Seq<char>) -> Option<Seq<char>> {
    match file_name_of(p) {
        Some(name) => extension_of(name),
        None => None,
    }
}

/// `p` without the separators and `.` components at its end. A lone `/` or `.`
/// stays.
pub open spec fn strip_trailing(p: Seq<char>) -> Seq<char>
    decreases p.len(),
{
    if p.len() <= 1 {
        p
    } else if p.last() == '/' {
        strip_trailing(p.drop_last())
    } else if p.last() == '.' && p[p.len() - 2] == '/' {
        strip_trailing(p.drop_last())
    } else {
        p
    }
}

/// The path without its final component: `None` for the empty path and for
/// the root, the empty path for a single component.
pub open spec fn parent_of(p: Seq<char>) -> Option<Seq<char>> {
    let q = strip_trailing(p);
    let k = segment_start(q);
    if q.len() == 0 || q == root() {
        None
    } else if k == 0 {
        Some(Seq::empty())
    } else if k == 1 {
        Some(root())
    } else {
        Some(strip_trailing(q.subrange(0, k - 1)))
    }
}

/// `name` placed in `dir`. A `name` that starts at the root stands alone.
pub open spec fn joined(dir: Seq<char>, name: Seq<char>) -> Seq<char> {
    if name.len() > 0 && name[0] == '/' {
        name
    } else if dir.len() == 0 || dir.last() == '/' {
        dir + name
    } else {
        dir + root() + name
    }
}

/// The components of `p`, in order: `/` for the root, `.` where the path
/// starts with it, and every name and `..` after that. Separators that
/// repeat or end the path, and `.` anywhere but at the start, leave no
/// component.
pub open spec fn components(p: Seq<char>) -> Seq<Seq<char>>
    decreases p.len(),
    via components_decreases
{
    if p.len() == 0 {
        Seq::empty()
    } else if p.last() == '/' {
        if p.len() == 1 {
            seq![root()]
        } else {
            components(p.drop_last())
        }
    } else if last_segment(p) == dot() {
        if segment_start(p) == 0 {
            seq![dot()]
        } else {
            components(p.subrange(0, segment_start(p)))
        }
    } else {
        components(p.subrange(0, segment_start(p))).push(last_segment(p))
    }
}

/// What stands before the last component is shorter than the path.
#[via_fn]
proof fn components_decreases(p: Seq<char>) {
    lemma_segment_start_bounds(p);
}

/// Whether two paths name the same place: they have the same components.
pub open spec fn same_place(a: Seq<char>, b: Seq<char>) -> bool {
    components(a) == components(b)
}

/// A single component that names a file: not empty, no `/` in it, neither `.`
/// nor `..`.
pub open spec fn is_plain_name(name: Seq<char>) -> bool {
    &&& name.len() > 0
    &&& forall|i: int| 0 <= i < name.len() ==> #[trigger] name[i] != '/'
    &&& name != dot()
    &&& name != dot_dot()
}

// The operations.

/// The final component of `path`, unless `path` has none or ends in `..`.
pub fn file_name(path: &str) -> (r: Option<String>)
    ensures
        r.deep_view() == file_name_of(path@),
{
    let chars = chars_of(path);
    match file_name_span(&chars) {
        Some((a, b)) => Some(path.substring_char(a, b).to_string()),
        None => None,
    }
}

/// The final component of `path` without its extension.
pub fn file_stem(path: &str) -> (r: Option<String>)
    ensures
        r.deep_view() == file_stem_of(path@),
{
    let chars = chars_of(path);
    match file_name_span(&chars) {
        Some((a, b)) => {
            match last_dot_in(&chars, a, b) {
                Some(d) => {
                    if d == 0 {
                        Some(path.substring_char(a, b).to_string())
                    } else {
                        proof {
                            let name = chars@.subrange(a as int, b as int);
                            assert(name.subrange(0, d as int) =~= path@.subrange(
                                a as int,
                                a + d,
                            ));
                        }
                        Some(path.substring_char(a, a + d).to_string())
                    }
                },
                None => Some(path.substring_char(a, b).to_string()),
            }
        },
        None => None,
    }
}

/// The extension of the final component of `path`, without the dot.
pub fn extension(path: &str) -> (r: Option<String>)
    ensures
        r.deep_view() == path_extension_of(path@),
{
    let chars = chars_of(path);
    match file_name_span(&chars) {
        Some((a, b)) => {
            match last_dot_in(&chars, a, b) {
                Some(d) => {
                    if d == 0 {
                        None
                    } else {
                        proof {
                            let name = chars@.subrange(a as int, b as int);
                            assert(name.subrange(d + 1, name.len() as int) =~= path@.subrange(
                                a + d + 1,
                                b as int,
                            ));
                        }
                        Some(path.substring_char(a + d + 1, b).to_string())
                    }
                },
                None => None,
            }
        },
        None => None,
    }
}

/// The path without its final component: `None` for the empty path and for
/// the root, the empty path for a single component.
pub fn parent(path: &str) -> (r: Option<String>)
    ensures
        r.deep_view() == parent_of(path@),
{
    let chars = chars_of(path);
    let n: usize = chars.len();
    assert(chars@.subrange(0, n as int) =~= chars@);
    let q: usize = strip_trailing_in(&chars, n);
    let ghost qs = chars@.subrange(0, q as int);
    if q == 0 {
        return None;
    }
    if q == 1 && chars[0] == '/' {
        assert(qs =~= root());
        return None;
    }
    proof {
        if qs == root() {
            assert(qs.len() == 1 && qs[0] == '/');
            assert(qs[0] == chars@[0]);
        }
    }
    let k: usize = segment_start_in(&chars, q);
    if k == 0 {
        let r = path.substring_char(0, 0).to_string();
        assert(r@ =~= Seq::<char>::empty());
        Some(r)
    } else if k == 1 {
        proof {
            lemma_segment_start_bounds(qs);
            assert(qs[0] == chars@[0]);
            assert(path@.subrange(0, 1) =~= root());
        }
        Some(path.substring_char(0, 1).to_string())
    } else {
        let e: usize = strip_trailing_in(&chars, k - 1);
        proof {
            assert(qs.subrange(0, k - 1) =~= chars@.subrange(0, k - 1));
        }
        Some(path.substring_char(0, e).to_string())
    }
}

/// `name` placed in `dir`. A `name` that starts at the root stands alone.
pub fn join(dir: &str, name: &str) -> (r: String)
    ensures
        r@ == joined(dir@, name@),
{
    proof {
        reveal_strlit("/");
    }
    let name_len: usize = name.unicode_len();
    if name_len > 0 && name.get_char(0) == '/' {
        return name.to_string();
    }
    let dir_len: usize = dir.unicode_len();
    let mut out = dir.to_string();
    if dir_len > 0 && dir.get_char(dir_len - 1) != '/' {
        out.append("/");
        assert("/"@ =~= root());
    }
    out.append(name);
    out
}

/// Whether two paths name the same place: they have the same components.
pub fn same_path(a: &str, b: &str) -> (r: bool)
    ensures
        r == same_place(a@, b@),
{
    let a_chars = chars_of(a);
    let b_chars = chars_of(b);
    assert(a_chars@.subrange(0, a_chars@.len() as int) =~= a@);
    assert(b_chars@.subrange(0, b_chars@.len() as int) =~= b@);
    let left = components_in(a, &a_chars, a_chars.len());
    let right = components_in(b, &b_chars, b_chars.len());
    if left.len() != right.len() {
        return false;
    }
    let mut i: usize = 0;
    while i < left.len()
        invariant
            i <= left@.len(),
            left@.len() == right@.len(),
            left@.len() == components(a@).len(),
            forall|j: int| 0 <= j < left@.len() ==> (#[trigger] left@[j])@ == components(a@)[j],
            forall|j: int| 0 <= j < right@.len() ==> (#[trigger] right@[j])@ == components(b@)[j],
            forall|j: int| 0 <= j < i ==> components(a@)[j] == components(b@)[j],
        decreases left@.len() - i,
    {
        if left[i] != right[i] {
            assert(left@[i as int]@ != right@[i as int]@);
            return false;
        }
        i += 1;
    }
    assert(components(a@) =~= components(b@));
    true
}

/// The components of the first `end` characters of `path`, whose characters
/// are `chars`.
fn components_in(path: &str, chars: &Vec<char>, end: usize) -> (r: Vec<String>)
    requires
        chars@ == path@,
        end <= chars@.len(),
    ensures
        r@.len() == components(chars@.subrange(0, end as int)).len(),
        forall|j: int|
            0 <= j < r@.len() ==> (#[trigger] r@[j])@ == components(
                chars@.subrange(0, end as int),
            )[j],
    decreases end,
{
    let ghost p = chars@.subrange(0, end as int);
    if end == 0 {
        return Vec::new();
    }
    proof {
        assert(p.last() == chars@[end - 1]);
        assert(p.drop_last() =~= chars@.subrange(0, end - 1));
    }
    if chars[end - 1] == '/' {
        if end == 1 {
            let mut out: Vec<String> = Vec::new();
            out.push(path.substring_char(0, 1).to_string());
            assert(path@.subrange(0, 1) =~= root());
            return out;
        }
        return components_in(path, chars, end - 1);
    }
    let start = segment_start_in(chars, end);
    proof {
        assert(last_segment(p) =~= chars@.subrange(start as int, end as int));
        assert(p.subrange(0, start as int) =~= chars@.subrange(0, start as int));
    }
    if end - start == 1 && chars[start] == '.' {
        assert(last_segment(p) =~= dot());
        if start == 0 {
            let mut out: Vec<String> = Vec::new();
            out.push(path.substring_char(0, 1).to_string());
            assert(path@.subrange(0, 1) =~= dot());
            return out;
        }
        return components_in(path, chars, start);
    }
    proof {
        let seg = last_segment(p);
        if seg == dot() {
            assert(seg.len() == 1 && seg[0] == '.');
        }
    }
    let mut out = components_in(path, chars, start);
    out.push(path.substring_char(start, end).to_string());
    out
}

/// Index of the character behind the last `/` among the first `end` of `chars`.
fn segment_start_in(chars: &Vec<char>, end: usize) -> (k: usize)
    requires
        end <= chars@.len(),
    ensures
        k == segment_start(chars@.subrange(0, end as int)),
        k <= end,
        end > 0 && chars@[end - 1] != '/' ==> k < end,
{
    let mut k: usize = end;
    while k > 0 && chars[k - 1] != '/'
        invariant
            k <= end <= chars@.len(),
            forall|i: int| k <= i < end ==> #[trigger] chars@[i] != '/',
        decreases k,
    {
        k -= 1;
    }
    proof {
        let s = chars@.subrange(0, end as int);
        assert forall|i: int| k <= i < s.len() implies #[trigger] s[i] != '/' by {
            assert(s[i] == chars@[i]);
        }
        lemma_segment_start(s, k as int);
    }
    k
}

/// The span of the final component of the path in `chars`, as `(start, end)`.
fn file_name_span(chars: &Vec<char>) -> (r: Option<(usize, usize)>)
    ensures
        match r {
            Some((a, b)) => a <= b <= chars@.len() && file_name_of(chars@) == Some(
                chars@.subrange(a as int, b as int),
            ),
            None => file_name_of(chars@) is None,
        },
{
    let mut end: usize = chars.len();
    assert(chars@.subrange(0, end as int) =~= chars@);
    while end > 0
        invariant
            end <= chars@.len(),
            file_name_of(chars@) == file_name_of(chars@.subrange(0, end as int)),
        decreases end,
    {
        let ghost p = chars@.subrange(0, end as int);
        assert(p.drop_last() =~= chars@.subrange(0, end - 1));
        assert(p.last() == chars@[end - 1]);
        if chars[end - 1] == '/' {
            end -= 1;
        } else {
            let start = segment_start_in(chars, end);
            assert(last_segment(p) =~= chars@.subrange(start as int, end as int));
            let len: usize = end - start;
            if len == 2 && chars[start] == '.' && chars[start + 1] == '.' {
                assert(last_segment(p) =~= dot_dot());
                return None;
            } else if len == 1 && chars[start] == '.' {
                assert(last_segment(p) =~= dot());
                end -= 1;
            } else {
                proof {
                    let seg = last_segment(p);
                    if seg == dot_dot() {
                        assert(seg.len() == 2 && seg[0] == '.' && seg[1] == '.');
                    }
                    if seg == dot() {
                        assert(seg.len() == 1 && seg[0] == '.');
                    }
                }
                return Some((start, end));
            }
        }
    }
    None
}

/// Index of the last `.` in `chars[from..to]`, counted from `from`; `None` where
/// that span holds none.
fn last_dot_in(chars: &Vec<char>, from: usize, to: usize) -> (r: Option<usize>)
    requires
        from <= to <= chars@.len(),
    ensures
        match r {
            Some(d) => d < to - from && last_dot(chars@.subrange(from as int, to as int)) == d,
            None => last_dot(chars@.subrange(from as int, to as int)) == -1,
        },
{
    let ghost s = chars@.subrange(from as int, to as int);
    let mut i: usize = to;
    while i > from
        invariant
            from <= i <= to <= chars@.len(),
            s == chars@.subrange(from as int, to as int),
            forall|j: int| i - from <= j < s.len() ==> #[trigger] s[j] != '.',
        decreases i,
    {
        if chars[i - 1] == '.' {
            proof {
                assert(s[i - 1 - from] == chars@[i - 1]);
                lemma_last_dot(s, i - 1 - from);
            }
            return Some(i - 1 - from);
        }
        proof {
            assert(s[i - 1 - from] == chars@[i - 1]);
        }
        i -= 1;
    }
    proof {
        lemma_last_dot(s, -1);
    }
    None
}

/// Length of `strip_trailing` of the first `end` characters of `chars`.
fn strip_trailing_in(chars: &Vec<char>, end: usize) -> (r: usize)
    requires
        end <= chars@.len(),
    ensures
        r <= end,
        strip_trailing(chars@.subrange(0, end as int)) == chars@.subrange(0, r as int),
{
    let mut r: usize = end;
    while r > 1 && (chars[r - 1] == '/' || (chars[r - 1] == '.' && chars[r - 2] == '/'))
        invariant
            r <= end <= chars@.len(),
            strip_trailing(chars@.subrange(0, end as int)) == strip_trailing(
                chars@.subrange(0, r as int),
            ),
        decreases r,
    {
        proof {
            let p = chars@.subrange(0, r as int);
            assert(p.drop_last() =~= chars@.subrange(0, r - 1));
            assert(p.last() == chars@[r - 1]);
            assert(p[p.len() - 2] == chars@[r - 2]);
        }
        r -= 1;
    }
    proof {
        let p = chars@.subrange(0, r as int);
        if r > 1 {
            assert(p.last() == chars@[r - 1]);
            assert(p[p.len() - 2] == chars@[r - 2]);
        }
    }
    r
}

// Lemmas.

/// `segment_start` is the one position with a `/` before it, or the start,
/// and none behind it.
pub proof fn lemma_segment_start(s: Seq<char>, k: int)
    requires
        0 <= k <= s.len(),
        k > 0 ==> s[k - 1] == '/',
        forall|i: int| k <= i < s.len() ==> #[trigger] s[i] != '/',
    ensures
        segment_start(s) == k,
    decreases s.len() - k,
{
    if k < s.len() {
        assert(s[s.len() - 1] != '/');
        let rest = s.drop_last();
        assert forall|i: int| k <= i < rest.len() implies #[trigger] rest[i] != '/' by {
            assert(rest[i] == s[i]);
        }
        if k > 0 {
            assert(rest[k - 1] == s[k - 1]);
        }
        lemma_segment_start(rest, k);
    }
}

/// Where `segment_start` points, a `/` stands before and none behind.
pub proof fn lemma_segment_start_bounds(s: Seq<char>)
    ensures
        0 <= segment_start(s) <= s.len(),
        segment_start(s) > 0 ==> s[segment_start(s) - 1] == '/',
        forall|i: int| segment_start(s) <= i < s.len() ==> #[trigger] s[i] != '/',
    decreases s.len(),
{
    if !(s.len() == 0 || s.last() == '/') {
        let rest = s.drop_last();
        lemma_segment_start_bounds(rest);
        assert forall|i: int| segment_start(s) <= i < s.len() implies #[trigger] s[i] != '/' by {
            if i < s.len() - 1 {
                assert(s[i] == rest[i]);
            }
        }
        if segment_start(s) > 0 {
            assert(s[segment_start(s) - 1] == rest[segment_start(rest) - 1]);
        }
    }
}

/// Text without a `/` put behind a path does not move the start of the last
/// component.
pub proof fn lemma_segment_start_append(front: Seq<char>, back: Seq<char>)
    requires
        forall|i: int| 0 <= i < back.len() ==> #[trigger] back[i] != '/',
    ensures
        segment_start(front + back) == segment_start(front),
{
    lemma_segment_start_bounds(front);
    let whole = front + back;
    let k = segment_start(front);
    assert forall|i: int| k <= i < whole.len() implies #[trigger] whole[i] != '/' by {
        if i < front.len() {
            assert(whole[i] == front[i]);
        } else {
            assert(whole[i] == back[i - front.len()]);
        }
    }
    if k > 0 {
        assert(whole[k - 1] == front[k - 1]);
    }
    lemma_segment_start(whole, k);
}

/// The last component of a path that ends in neither `/` nor a `.` of its
/// own is the last of its components.
pub proof fn lemma_last_component(p: Seq<char>)
    requires
        p.len() > 0,
        p.last() != '/',
        last_segment(p) != dot(),
    ensures
        components(p).len() > 0,
        components(p).last() == last_segment(p),
{
}

/// What `strip_trailing` takes away leaves no component.
pub proof fn lemma_strip_trailing_keeps_components(p: Seq<char>)
    ensures
        components(strip_trailing(p)) == components(p),
    decreases p.len(),
{
    if p.len() > 1 {
        if p.last() == '/' {
            lemma_strip_trailing_keeps_components(p.drop_last());
        } else if p.last() == '.' && p[p.len() - 2] == '/' {
            let rest = p.drop_last();
            assert(rest.last() == '/');
            lemma_segment_start(p, p.len() - 1);
            assert(last_segment(p) =~= dot());
            assert(p.subrange(0, segment_start(p)) =~= rest);
            lemma_strip_trailing_keeps_components(rest);
        }
    }
}

/// A plain name placed in a directory has that directory for its parent: the
/// parent of the result names the place that the directory names.
pub proof fn lemma_parent_of_joined(dir: Seq<char>, name: Seq<char>)
    requires
        is_plain_name(name),
    ensures
        parent_of(joined(dir, name)) is Some,
        same_place(parent_of(joined(dir, name))->Some_0, dir),
{
    let p = joined(dir, name);
    let k = p.len() - name.len();
    assert(name[0] != '/');
    assert(p.subrange(k, p.len() as int) =~= name);
    assert forall|i: int| k <= i < p.len() implies #[trigger] p[i] != '/' by {
        assert(p[i] == name[i - k]);
    }
    lemma_segment_start(p, k);
    assert(p.last() == name.last());
    // Nothing is stripped from the end of `p`: it ends with the name.
    assert(strip_trailing(p) == p) by {
        if p.len() > 1 && p.last() == '.' && p[p.len() - 2] == '/' {
            assert(k == p.len() - 1);
            assert(name =~= dot());
        }
    }
    if k == 0 {
        assert(dir =~= Seq::<char>::empty());
    } else if k == 1 {
        assert(p[0] == '/');
        assert(dir =~= root());
    } else {
        let front = p.subrange(0, k - 1);
        lemma_strip_trailing_keeps_components(front);
        if dir.last() == '/' {
            assert(front =~= dir.drop_last());
            assert(dir.len() > 1);
        } else {
            assert(front =~= dir);
        }
    }
}

/// `last_dot` is the one position that holds a `.` with none behind it.
pub proof fn lemma_last_dot(s: Seq<char>, d: int)
    requires
        -1 <= d < s.len(),
        d >= 0 ==> s[d] == '.',
        forall|i: int| d < i < s.len() ==> #[trigger] s[i] != '.',
    ensures
        last_dot(s) == d,
    decreases s.len() - d,
{
    if d < s.len() - 1 {
        assert(s[s.len() - 1] != '.');
        let rest = s.drop_last();
        assert forall|i: int| d < i < rest.len() implies #[trigger] rest[i] != '.' by {
            assert(rest[i] == s[i]);
        }
        if d >= 0 {
            assert(rest[d] == s[d]);
        }
        lemma_last_dot(rest, d);
    }
}

/// A plain name placed in any directory is the file name of the result.
pub proof fn lemma_file_name_of_joined(dir: Seq<char>, name: Seq<char>)
    requires
        is_plain_name(name),
    ensures
        file_name_of(joined(dir, name)) == Some(name),
{
    let p = joined(dir, name);
    let k = p.len() - name.len();
    assert(name[0] != '/');
    assert(p.subrange(k, p.len() as int) =~= name);
    assert forall|i: int| k <= i < p.len() implies #[trigger] p[i] != '/' by {
        assert(p[i] == name[i - k]);
    }
    lemma_segment_start(p, k);
    assert(p.last() == name.last());
}

} // verus!
