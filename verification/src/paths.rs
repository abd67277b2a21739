//! Slash-separated paths as text: their file name, stem, extension and
//! components. Where the system parts components otherwise, callers hand paths over
//! with slashes.
use vstd::prelude::*;
use crate::text::{chars_of, join2, last_position, text_between};

verus! {

/// Position just behind the last slash; zero without one.
pub open spec fn after_last_slash(s: Seq<char>) -> int
    decreases s.len(),
{
    if s.len() == 0 {
        0
    } else if s.last() == '/' {
        s.len() as int
    } else {
        after_last_slash(s.drop_last())
    }
}

/// Splits a path before its last component. Slashes behind that component and
/// components that are a single dot do not count. There is no such component in
/// a path that is empty, is the root or ends in two dots.
pub open spec fn split_name(s: Seq<char>) -> Option<(Seq<char>, Seq<char>)>
    decreases s.len(),
{
    if s.len() == 0 {
        None
    } else if s.last() == '/' {
        split_name(s.drop_last())
    } else {
        let i = after_last_slash(s);
        let name = s.skip(i);
        if i < 0 || i >= s.len() {
            None
        } else if name == seq!['.'] {
            split_name(s.take(i))
        } else if name == seq!['.', '.'] {
            None
        } else {
            Some((s.take(i), name))
        }
    }
}

/// The last component of a path.
pub open spec fn file_name(s: Seq<char>) -> Option<Seq<char>> {
    match split_name(s) {
        Some((_, name)) => Some(name),
        None => None,
    }
}

/// Position of the last dot of a name; zero without one.
pub open spec fn last_dot(name: Seq<char>) -> int
    decreases name.len(),
{
    if name.len() == 0 {
        0
    } else if name.last() == '.' {
        name.len() - 1
    } else {
        last_dot(name.drop_last())
    }
}

/// A file name without its extension. A name that only starts with a dot has
/// none.
pub open spec fn stem_of(name: Seq<char>) -> Seq<char> {
    if last_dot(name) <= 0 {
        name
    } else {
        name.take(last_dot(name))
    }
}

/// The extension of a file name.
pub open spec fn extension_of(name: Seq<char>) -> Option<Seq<char>> {
    if last_dot(name) <= 0 {
        None
    } else {
        Some(name.skip(last_dot(name) + 1))
    }
}

/// A directory path without trailing slashes and single-dot components.
pub open spec fn tidy_dir(p: Seq<char>) -> Seq<char>
    decreases p.len(),
{
    if p.len() == 0 || p == seq!['/'] {
        p
    } else if p.last() == '/' {
        tidy_dir(p.drop_last())
    } else if p.len() >= 2 && p.last() == '.' && p[p.len() - 2] == '/' {
        tidy_dir(p.drop_last())
    } else {
        p
    }
}

/// A name appended to a directory.
pub open spec fn joined(dir: Seq<char>, name: Seq<char>) -> Seq<char> {
    if dir.len() == 0 || dir.last() == '/' {
        dir + name
    } else {
        dir + seq!['/'] + name
    }
}

/// A path with its last component replaced.
pub open spec fn with_name(s: Seq<char>, name: Seq<char>) -> Seq<char> {
    match split_name(s) {
        Some((dir, _)) => joined(tidy_dir(dir), name),
        None => joined(s, name),
    }
}

/// Whether positions `i` to `j` of a path are one whole component.
pub open spec fn is_component(s: Seq<char>, i: int, j: int) -> bool {
    &&& 0 <= i <= j <= s.len()
    &&& i == 0 || s[i - 1] == '/'
    &&& j == s.len() || s[j] == '/'
    &&& forall|k: int| i <= k < j ==> s[k] != '/'
}

/// Whether some component of a path is the given name.
pub open spec fn has_component(s: Seq<char>, name: Seq<char>) -> bool {
    exists|i: int, j: int| #[trigger] is_component(s, i, j) && s.subrange(i, j) == name
}

proof fn after_last_slash_props(s: Seq<char>)
    ensures
        0 <= after_last_slash(s) <= s.len(),
        forall|k: int| after_last_slash(s) <= k < s.len() ==> s[k] != '/',
        after_last_slash(s) > 0 ==> s[after_last_slash(s) - 1] == '/',
    decreases s.len(),
{
    if s.len() > 0 && s.last() != '/' {
        let t = s.drop_last();
        after_last_slash_props(t);
        assert forall|k: int| after_last_slash(s) <= k < s.len() implies s[k] != '/' by {
            if k < t.len() {
                assert(t[k] == s[k]);
            }
        }
    }
}

proof fn after_last_slash_unique(s: Seq<char>, i: int)
    requires
        0 <= i <= s.len(),
        forall|k: int| i <= k < s.len() ==> s[k] != '/',
        i > 0 ==> s[i - 1] == '/',
    ensures
        i == after_last_slash(s),
{
    after_last_slash_props(s);
    let a = after_last_slash(s);
    if i < a {
        assert(s[a - 1] == '/');
    } else if a < i {
        assert(s[i - 1] == '/');
    }
}

proof fn last_dot_unique(s: Seq<char>, i: int)
    requires
        0 <= i <= s.len(),
        i < s.len() ==> s[i] == '.' && forall|k: int| i < k < s.len() ==> s[k] != '.',
        i == s.len() ==> forall|k: int| 0 <= k < s.len() ==> s[k] != '.',
    ensures
        last_dot(s) == if i == s.len() {
            0
        } else {
            i
        },
    decreases s.len(),
{
    if s.len() > 0 && s.last() != '.' {
        last_dot_unique(
            s.drop_last(),
            if i == s.len() {
                i - 1
            } else {
                i
            },
        );
    }
}

proof fn last_dot_bound(s: Seq<char>)
    ensures
        s.len() > 0 ==> 0 <= last_dot(s) < s.len(),
        s.len() == 0 ==> last_dot(s) == 0,
    decreases s.len(),
{
    if s.len() > 0 && s.last() != '.' {
        last_dot_bound(s.drop_last());
    }
}

/// Bounds of the last component of a path, as `split_name` finds it.
fn name_bounds(v: &Vec<char>) -> (r: Option<(usize, usize)>)
    ensures
        match r {
            Some((a, b)) => a < b <= v.len() && split_name(v@) == Some(
                (v@.take(a as int), v@.subrange(a as int, b as int)),
            ),
            None => split_name(v@) is None,
        },
{
    let mut end: usize = v.len();
    assert(v@.take(end as int) =~= v@);
    while end > 0
        invariant
            end <= v.len(),
            split_name(v@) == split_name(v@.take(end as int)),
        decreases end,
    {
        let ghost cur = v@.take(end as int);
        if v[end - 1] == '/' {
            assert(cur.drop_last() =~= v@.take(end as int - 1));
            end -= 1;
        } else {
            let start: usize = match last_position(v, end, '/') {
                Some(i) => i + 1,
                None => 0,
            };
            proof {
                after_last_slash_unique(cur, start as int);
                assert(cur.skip(start as int) =~= v@.subrange(start as int, end as int));
                assert(cur.take(start as int) =~= v@.take(start as int));
            }
            let ghost name = v@.subrange(start as int, end as int);
            let one = end - start == 1 && v[start] == '.';
            let two = end - start == 2 && v[start] == '.' && v[start + 1] == '.';
            proof {
                if one {
                    assert(name =~= seq!['.']);
                }
                if two {
                    assert(name =~= seq!['.', '.']);
                }
                if name == seq!['.'] {
                    assert(name.len() == 1 && name[0] == '.');
                }
                if name == seq!['.', '.'] {
                    assert(name.len() == 2 && name[0] == '.' && name[1] == '.');
                }
            }
            if one {
                end = start;
            } else if two {
                return None;
            } else {
                return Some((start, end));
            }
        }
    }
    assert(v@.take(0) =~= Seq::<char>::empty());
    None
}

/// Position at which the extension of `v[a..b]` starts with its dot, if there is
/// one.
fn dot_of(v: &Vec<char>, a: usize, b: usize) -> (r: Option<usize>)
    requires
        a < b <= v.len(),
    ensures
        match r {
            Some(i) => a < i < b && last_dot(v@.subrange(a as int, b as int)) == i - a,
            None => last_dot(v@.subrange(a as int, b as int)) <= 0,
        },
{
    let ghost name = v@.subrange(a as int, b as int);
    let mut i: usize = b;
    while i > a
        invariant
            a <= i <= b <= v.len(),
            name == v@.subrange(a as int, b as int),
            forall|k: int| i - a <= k < b - a ==> name[k] != '.',
        decreases i,
    {
        if v[i - 1] == '.' {
            proof {
                last_dot_unique(name, i - 1 - a);
            }
            return if i - 1 > a {
                Some(i - 1)
            } else {
                None
            };
        }
        i -= 1;
    }
    proof {
        last_dot_unique(name, name.len() as int);
    }
    None
}

/// Stem of the file that a path names.
pub fn file_stem(path: &str) -> (r: Option<String>)
    ensures
        match file_name(path@) {
            Some(name) => r matches Some(s) && s@ == stem_of(name),
            None => r is None,
        },
{
    let v = chars_of(path);
    match name_bounds(&v) {
        None => None,
        Some((a, b)) => match dot_of(&v, a, b) {
            Some(i) => {
                let s = text_between(&v, a, i);
                assert(v@.subrange(a as int, b as int).take(i - a) =~= v@.subrange(a as int, i as int));
                Some(s)
            },
            None => Some(text_between(&v, a, b)),
        },
    }
}

/// Extension of the file that a path names.
pub fn extension(path: &str) -> (r: Option<String>)
    ensures
        match file_name(path@) {
            Some(name) => match extension_of(name) {
                Some(e) => r matches Some(s) && s@ == e,
                None => r is None,
            },
            None => r is None,
        },
{
    let v = chars_of(path);
    match name_bounds(&v) {
        None => None,
        Some((a, b)) => match dot_of(&v, a, b) {
            Some(i) => {
                let s = text_between(&v, i + 1, b);
                assert(v@.subrange(a as int, b as int).skip(i - a + 1) =~= v@.subrange(i as int + 1, b as int));
                Some(s)
            },
            None => None,
        },
    }
}

/// The file name of a path.
pub fn file_name_of(path: &str) -> (r: Option<String>)
    ensures
        match file_name(path@) {
            Some(name) => r matches Some(s) && s@ == name,
            None => r is None,
        },
{
    let v = chars_of(path);
    match name_bounds(&v) {
        None => None,
        Some((a, b)) => Some(text_between(&v, a, b)),
    }
}

/// Appends a name to a directory.
pub fn join_path(dir: &str, name: &str) -> (r: String)
    ensures
        r@ == joined(dir@, name@),
{
    let v = chars_of(dir);
    if v.len() == 0 || v[v.len() - 1] == '/' {
        join2(dir, name)
    } else {
        let mut s = dir.to_owned();
        s.push('/');
        assert(s@ =~= dir@ + seq!['/']);
        s.concat(name)
    }
}

/// Replaces the last component of a path.
pub fn with_file_name(path: &str, name: &str) -> (r: String)
    ensures
        r@ == with_name(path@, name@),
{
    let v = chars_of(path);
    match name_bounds(&v) {
        None => join_path(path, name),
        Some((a, _)) => {
            let mut end: usize = a;
            while end > 0
                invariant_except_break
                    end <= a < v.len(),
                    tidy_dir(v@.take(a as int)) == tidy_dir(v@.take(end as int)),
                ensures
                    end <= a < v.len(),
                    tidy_dir(v@.take(a as int)) == v@.take(end as int),
                decreases end,
            {
                let ghost p = v@.take(end as int);
                if end == 1 && v[0] == '/' {
                    assert(p =~= seq!['/']);
                    break;
                }
                proof {
                    if p == seq!['/'] {
                        assert(p.len() == 1 && p[0] == '/');
                    }
                    assert(p.drop_last() =~= v@.take(end as int - 1));
                }
                if v[end - 1] == '/' {
                    end -= 1;
                } else if end >= 2 && v[end - 1] == '.' && v[end - 2] == '/' {
                    end -= 1;
                } else {
                    break;
                }
            }
            let dir = text_between(&v, 0, end);
            assert(v@.subrange(0, end as int) =~= v@.take(end as int));
            join_path(dir.as_str(), name)
        },
    }
}

/// Whether some component of a path is the given name.
pub fn any_component_is(path: &str, name: &str) -> (r: bool)
    ensures
        r == has_component(path@, name@),
{
    let v = chars_of(path);
    let n = chars_of(name);
    let mut start: usize = 0;
    loop
        invariant
            start <= v.len(),
            v@ == path@,
            n@ == name@,
            start == 0 || v@[start - 1] == '/',
            forall|i: int, j: int|
                0 <= i < start && #[trigger] is_component(v@, i, j) ==> v@.subrange(i, j) != n@,
        decreases v.len() - start,
    {
        let mut end: usize = start;
        while end < v.len() && v[end] != '/'
            invariant
                start <= end <= v.len(),
                forall|k: int| start <= k < end ==> v@[k] != '/',
            decreases v.len() - end,
        {
            end += 1;
        }
        assert(is_component(v@, start as int, end as int));
        let part = text_between(&v, start, end);
        let part_chars = chars_of(part.as_str());
        if crate::text::same_chars(&part_chars, &n) {
            return true;
        }
        proof {
            assert forall|i: int, j: int|
                0 <= i <= end && #[trigger] is_component(v@, i, j) implies v@.subrange(i, j)
                != n@ by {
                if i > start {
                    assert(v@[i - 1] == '/');
                    assert(i - 1 < end);
                    assert(false);
                } else if i == start {
                    if j < end {
                        assert(v@[j] == '/');
                    } else if j > end {
                        assert(v@[end as int] == '/');
                    }
                }
            }
        }
        if end == v.len() {
            return false;
        }
        start = end + 1;
    }
}

/// A path made of a directory, or none, and a name: that name is its last component. The
/// directory ends in a slash, and the name is neither empty nor dots alone.
pub proof fn names_are_found(dir: Seq<char>, name: Seq<char>)
    requires
        dir.len() == 0 || dir.last() == '/',
        name.len() > 0,
        forall|k: int| 0 <= k < name.len() ==> name[k] != '/',
        name != seq!['.'],
        name != seq!['.', '.'],
    ensures
        split_name(dir + name) == Some((dir, name)),
        file_name(dir + name) == Some(name),
{
    let s = dir + name;
    let i = dir.len() as int;
    assert(s.last() == name.last());
    assert forall|k: int| i <= k < s.len() implies s[k] != '/' by {
        assert(s[k] == name[k - i]);
    }
    if i > 0 {
        assert(s[i - 1] == dir.last());
    }
    after_last_slash_unique(s, i);
    assert(s.skip(i) =~= name);
    assert(s.take(i) =~= dir);
}

/// A name made of a stem, a dot and an extension without a dot: its parts are found
/// again, unless the stem is empty.
pub proof fn extensions_are_found(stem: Seq<char>, ext: Seq<char>)
    requires
        stem.len() > 0,
        forall|k: int| 0 <= k < ext.len() ==> ext[k] != '.',
    ensures
        stem_of(stem + seq!['.'] + ext) == stem,
        extension_of(stem + seq!['.'] + ext) == Some(ext),
{
    let s = stem + seq!['.'] + ext;
    let i = stem.len() as int;
    assert(s[i] == '.');
    assert forall|k: int| i < k < s.len() implies s[k] != '.' by {
        assert(s[k] == ext[k - i - 1]);
    }
    last_dot_unique(s, i);
    assert(s.take(i) =~= stem);
    assert(s.skip(i + 1) =~= ext);
}

/// Stem and extension make up a name: nothing of it is lost. A name with an extension
/// is its stem, a dot and the extension; one without is its own stem.
pub proof fn names_are_made_of_their_parts(name: Seq<char>)
    ensures
        match extension_of(name) {
            Some(e) => name == stem_of(name) + seq!['.'] + e && stem_of(name).len() > 0
                && forall|k: int| 0 <= k < e.len() ==> e[k] != '.',
            None => stem_of(name) == name,
        },
{
    last_dot_bound(name);
    let i = last_dot(name);
    if i > 0 {
        last_dot_is_last(name);
        assert(name =~= name.take(i) + seq!['.'] + name.skip(i + 1));
        let e = name.skip(i + 1);
        assert forall|k: int| 0 <= k < e.len() implies e[k] != '.' by {
            assert(e[k] == name[i + 1 + k]);
        }
    }
}

proof fn last_dot_is_last(s: Seq<char>)
    requires
        last_dot(s) > 0,
    ensures
        last_dot(s) < s.len(),
        s[last_dot(s)] == '.',
        forall|k: int| last_dot(s) < k < s.len() ==> s[k] != '.',
    decreases s.len(),
{
    if s.len() > 0 && s.last() != '.' {
        let t = s.drop_last();
        last_dot_is_last(t);
        assert forall|k: int| last_dot(s) < k < s.len() implies s[k] != '.' by {
            if k < t.len() {
                assert(t[k] == s[k]);
            }
        }
    }
}

/// The last component of a path is a part of it that starts at its beginning or behind a
/// slash, holds no slash, and has nothing but slashes and single dots behind it.
pub proof fn last_components_are_whole(s: Seq<char>)
    ensures
        split_name(s) matches Some((dir, name)) ==> {
            &&& name.len() > 0
            &&& dir + name == s.take((dir.len() + name.len()) as int)
            &&& dir.len() + name.len() <= s.len()
            &&& dir.len() == 0 || dir.last() == '/'
            &&& forall|k: int| 0 <= k < name.len() ==> name[k] != '/'
            &&& forall|k: int| dir.len() + name.len() <= k < s.len() ==> s[k] == '/' || s[k] == '.'
        },
    decreases s.len(),
{
    if s.len() > 0 {
        if s.last() == '/' {
            let t = s.drop_last();
            last_components_are_whole(t);
            if let Some((dir, name)) = split_name(t) {
                let n = (dir.len() + name.len()) as int;
                assert(s.take(n) =~= t.take(n));
                assert forall|k: int| n <= k < s.len() implies s[k] == '/' || s[k] == '.' by {
                    if k < t.len() {
                        assert(t[k] == s[k]);
                    }
                }
            }
        } else {
            let i = after_last_slash(s);
            after_last_slash_props(s);
            let name = s.skip(i);
            if name == seq!['.'] {
                let t = s.take(i);
                assert(name.len() == 1 && name[0] == '.');
                assert(s[i] == name[0]);
                last_components_are_whole(t);
                if let Some((dir, last)) = split_name(t) {
                    let n = (dir.len() + last.len()) as int;
                    assert(s.take(n) =~= t.take(n));
                    assert forall|k: int| n <= k < s.len() implies s[k] == '/' || s[k] == '.' by {
                        if k < t.len() {
                            assert(t[k] == s[k]);
                        }
                    }
                }
            } else if name != seq!['.', '.'] && i < s.len() {
                assert(s.take(i) + name =~= s);
                assert(s.take(s.len() as int) =~= s);
            }
        }
    }
}

/// A name that is put into a directory, or in place of another, is the last component of
/// the new path.
pub proof fn joined_names_are_found(dir: Seq<char>, name: Seq<char>)
    requires
        name.len() > 0,
        forall|k: int| 0 <= k < name.len() ==> name[k] != '/',
        name != seq!['.'],
        name != seq!['.', '.'],
    ensures
        file_name(joined(dir, name)) == Some(name),
{
    if dir.len() == 0 || dir.last() == '/' {
        names_are_found(dir, name);
    } else {
        names_are_found(dir + seq!['/'], name);
    }
}

/// A component is found anywhere in a path, and only as a whole: what stands between
/// two slashes, or a slash and an end.
pub proof fn components_are_found(dir: Seq<char>, name: Seq<char>, rest: Seq<char>)
    requires
        forall|k: int| 0 <= k < name.len() ==> name[k] != '/',
    ensures
        has_component(name, name),
        has_component(dir + seq!['/'] + name, name),
        has_component(dir + seq!['/'] + name + seq!['/'] + rest, name),
        has_component(name + seq!['/'] + rest, name),
{
    let a = dir + seq!['/'] + name;
    let b = dir + seq!['/'] + name + seq!['/'] + rest;
    let c = name + seq!['/'] + rest;
    let i = dir.len() as int + 1;
    let n = name.len() as int;
    assert(is_component(name, 0, n));
    assert(name.subrange(0, n) =~= name);
    assert(is_component(a, i, i + n)) by {
        assert forall|k: int| i <= k < i + n implies a[k] != '/' by {
            assert(a[k] == name[k - i]);
        }
    }
    assert(a.subrange(i, i + n) =~= name);
    assert(is_component(b, i, i + n)) by {
        assert forall|k: int| i <= k < i + n implies b[k] != '/' by {
            assert(b[k] == name[k - i]);
        }
    }
    assert(b.subrange(i, i + n) =~= name);
    assert(is_component(c, 0, n)) by {
        assert forall|k: int| 0 <= k < n implies c[k] != '/' by {
            assert(c[k] == name[k]);
        }
    }
    assert(c.subrange(0, n) =~= name);
}

/// A part of a longer component is no component: a path without a slash has itself as
/// its only one.
pub proof fn parts_of_components_are_none(s: Seq<char>, name: Seq<char>)
    requires
        forall|k: int| 0 <= k < s.len() ==> s[k] != '/',
        has_component(s, name),
    ensures
        name == s,
{
    let (i, j) = choose|i: int, j: int| #[trigger]
        is_component(s, i, j) && s.subrange(i, j) == name;
    assert(i == 0);
    assert(j == s.len());
    assert(s.subrange(i, j) =~= s);
}

} // verus!
