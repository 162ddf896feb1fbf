//! Asset paths: joining a path onto a root, and the key two paths are
//! compared by (their components, as on Unix).

use vstd::prelude::*;
use vstd::string::*;

verus! {

/// `root` joined with `path` the way a Unix path is extended: an absolute
/// `path` replaces the root, an empty root gives `path`, and otherwise one
/// `/` separates the two unless the root already ends with one.
pub open spec fn joined_path(root: Seq<char>, path: Seq<char>) -> Seq<char> {
    if path.len() > 0 && path[0] == '/' {
        path
    } else if root.len() == 0 {
        path
    } else if root.last() == '/' {
        root + path
    } else {
        root + seq!['/'] + path
    }
}

/// Joins an asset root and a path (see `joined_path`).
pub fn join_path(root: &str, path: &str) -> (r: String)
    ensures
        r@ == joined_path(root@, path@),
        path@.len() > 0 && path@[0] == '/' ==> r@ == path@,
        !(path@.len() > 0 && path@[0] == '/') && root@.len() == 0 ==> r@ == path@,
        !(path@.len() > 0 && path@[0] == '/') && root@.len() > 0 && root@[root@.len() - 1] == '/'
            ==> r@ == root@ + path@,
        !(path@.len() > 0 && path@[0] == '/') && root@.len() > 0 && root@[root@.len() - 1] != '/'
            ==> r@ == root@ + seq!['/'] + path@,
{
    let plen = path.unicode_len();
    if plen > 0 && path.get_char(0) == '/' {
        return String::from_str(path);
    }
    let rlen = root.unicode_len();
    if rlen == 0 {
        return String::from_str(path);
    }
    let mut s = String::from_str(root);
    if root.get_char(rlen - 1) != '/' {
        proof {
            reveal_strlit("/");
        }
        s.append("/");
    }
    s.append(path);
    s
}

/// The text between separators, in order (empty where separators repeat or
/// at either end).
pub open spec fn split_segments(s: Seq<char>) -> Seq<Seq<char>>
    decreases s.len(),
{
    if s.len() == 0 {
        seq![Seq::<char>::empty()]
    } else {
        let p = split_segments(s.drop_last());
        if s.last() == '/' {
            p.push(Seq::<char>::empty())
        } else {
            p.update(p.len() - 1, p.last().push(s.last()))
        }
    }
}

/// A segment that names something: not empty and not `.`.
pub open spec fn is_named_segment(seg: Seq<char>) -> bool {
    seg.len() > 0 && seg != seq!['.']
}

/// The named segments, in order.
pub open spec fn named_segments(segs: Seq<Seq<char>>) -> Seq<Seq<char>>
    decreases segs.len(),
{
    if segs.len() == 0 {
        Seq::empty()
    } else if is_named_segment(segs.last()) {
        named_segments(segs.drop_last()).push(segs.last())
    } else {
        named_segments(segs.drop_last())
    }
}

/// A path's components as values: whether it starts at the root, whether it
/// starts at the current directory (`.` first, on a relative path), and its
/// named segments. Two paths name the same file by their keys: repeated
/// separators, inner `.` segments and a trailing separator do not count.
pub open spec fn path_key(s: Seq<char>) -> (bool, bool, Seq<Seq<char>>) {
    let rooted = s.len() > 0 && s[0] == '/';
    let from_current_dir = !rooted && s.len() > 0 && s[0] == '.' && (s.len() == 1 || s[1] == '/');
    (rooted, from_current_dir, named_segments(split_segments(s)))
}

/// The name a path ends in, from its named segments: the last one, unless
/// there is none or it is `..`.
pub open spec fn final_name(segs: Seq<Seq<char>>) -> Option<Seq<char>> {
    if segs.len() == 0 || segs.last() == seq!['.', '.'] {
        None
    } else {
        Some(segs.last())
    }
}

/// The index of the last `.` in `s`, or -1 where there is none.
pub open spec fn last_dot(s: Seq<char>) -> int
    decreases s.len(),
{
    if s.len() == 0 {
        -1
    } else if s.last() == '.' {
        s.len() - 1
    } else {
        last_dot(s.drop_last())
    }
}

/// A file name's extension: the text after its last `.`; `None` where the
/// name has no `.`, or only one, at its start.
pub open spec fn name_extension(name: Seq<char>) -> Option<Seq<char>> {
    let i = last_dot(name);
    if i <= 0 {
        None
    } else {
        Some(name.subrange(i + 1, name.len() as int))
    }
}

/// A path's extension: that of the name it ends in.
pub open spec fn path_extension(path: Seq<char>) -> Option<Seq<char>> {
    match final_name(path_key(path).2) {
        Some(name) => name_extension(name),
        None => None,
    }
}

proof fn lemma_last_dot(s: Seq<char>, j: int)
    requires
        0 <= j <= s.len(),
        j == 0 || s[j - 1] == '.',
        forall|k: int| j <= k < s.len() ==> s[k] != '.',
    ensures
        last_dot(s) == j - 1,
    decreases s.len(),
{
    if s.len() > j {
        lemma_last_dot(s.drop_last(), j);
    }
}

/// A path's components (see `path_key`).
#[derive(Debug)]
pub struct PathKey {
    rooted: bool,
    from_current_dir: bool,
    segments: Vec<Vec<char>>,
}

impl View for PathKey {
    type V = (bool, bool, Seq<Seq<char>>);

    closed spec fn view(&self) -> (bool, bool, Seq<Seq<char>>) {
        (self.rooted, self.from_current_dir, self.segments@.map_values(|v: Vec<char>| v@))
    }
}

proof fn lemma_split_nonempty(s: Seq<char>)
    ensures
        split_segments(s).len() >= 1,
    decreases s.len(),
{
    if s.len() > 0 {
        lemma_split_nonempty(s.drop_last());
    }
}

fn chars_equal(a: &Vec<char>, b: &Vec<char>) -> (r: bool)
    ensures
        r == (a@ == b@),
{
    if a.len() != b.len() {
        return false;
    }
    let mut i: usize = 0;
    while i < a.len()
        invariant
            a@.len() == b@.len(),
            i <= a@.len(),
            forall|k: int| 0 <= k < i ==> a@[k] == b@[k],
        decreases a.len() - i,
    {
        if a[i] != b[i] {
            return false;
        }
        i += 1;
    }
    assert(a@ =~= b@);
    true
}

impl PathKey {
    /// The components of a path.
    pub fn of(s: &str) -> (r: PathKey)
        ensures
            r@ == path_key(s@),
            r@.2 == split_segments(s@).filter(|seg: Seq<char>| seg.len() > 0 && seg != seq!['.']),
            r@.0 == (s@.len() > 0 && s@[0] == '/'),
            r@.1 == (s@ == seq!['.'] || (s@.len() >= 2 && s@[0] == '.' && s@[1] == '/')),
    {
        let n = s.unicode_len();
        let rooted = n > 0 && s.get_char(0) == '/';
        let from_current_dir = !rooted && n > 0 && s.get_char(0) == '.' && (n == 1 || s.get_char(1)
            == '/');
        let mut segments: Vec<Vec<char>> = Vec::new();
        let mut current: Vec<char> = Vec::new();
        let mut i: usize = 0;
        proof {
            assert(s@.take(0) =~= Seq::<char>::empty());
        }
        while i < n
            invariant
                n == s@.len(),
                i <= n,
                split_segments(s@.take(i as int)).len() >= 1,
                segments@.map_values(|v: Vec<char>| v@) == named_segments(
                    split_segments(s@.take(i as int)).drop_last(),
                ),
                current@ == split_segments(s@.take(i as int)).last(),
            decreases n - i,
        {
            let c = s.get_char(i);
            let ghost before = split_segments(s@.take(i as int));
            proof {
                assert(s@.take(i + 1).drop_last() =~= s@.take(i as int));
                assert(s@.take(i + 1).last() == c);
                lemma_split_nonempty(s@.take(i + 1));
            }
            if c == '/' {
                proof {
                    assert(split_segments(s@.take(i + 1)) == before.push(Seq::<char>::empty()));
                    assert(split_segments(s@.take(i + 1)).drop_last() =~= before);
                    assert(before.drop_last().push(before.last()) =~= before);
                }
                let named = current.len() > 0 && !(current.len() == 1 && current[0] == '.');
                assert(named == is_named_segment(current@)) by {
                    if current@.len() == 1 && current@[0] == '.' {
                        assert(current@ =~= seq!['.']);
                    }
                    if current@ == seq!['.'] {
                        assert(current@.len() == 1);
                    }
                }
                if named {
                    let ghost old_segments = segments@;
                    segments.push(current);
                    assert(segments@.map_values(|v: Vec<char>| v@) =~= old_segments.map_values(
                        |v: Vec<char>| v@,
                    ).push(before.last()));
                }
                current = Vec::new();
            } else {
                proof {
                    assert(split_segments(s@.take(i + 1)) == before.update(
                        before.len() - 1,
                        before.last().push(c),
                    ));
                    assert(split_segments(s@.take(i + 1)).drop_last() =~= before.drop_last());
                }
                current.push(c);
            }
            i += 1;
        }
        proof {
            assert(s@.take(n as int) =~= s@);
        }
        let ghost all = split_segments(s@);
        assert(all.drop_last().push(all.last()) =~= all);
        let named = current.len() > 0 && !(current.len() == 1 && current[0] == '.');
        assert(named == is_named_segment(current@)) by {
            if current@.len() == 1 && current@[0] == '.' {
                assert(current@ =~= seq!['.']);
            }
            if current@ == seq!['.'] {
                assert(current@.len() == 1);
            }
        }
        if named {
            let ghost old_segments = segments@;
            segments.push(current);
            assert(segments@.map_values(|v: Vec<char>| v@) =~= old_segments.map_values(
                |v: Vec<char>| v@,
            ).push(all.last()));
        }
        proof {
            lemma_named_segments_keep_parent_steps(split_segments(s@));
            if s@.len() == 1 && s@[0] == '.' {
                assert(s@ =~= seq!['.']);
            }
        }
        PathKey { rooted, from_current_dir, segments }
    }

    /// Whether two keys are the same.
    pub fn same_as(&self, other: &PathKey) -> (r: bool)
        ensures
            r == (self@ == other@),
    {
        if self.rooted != other.rooted || self.from_current_dir != other.from_current_dir {
            return false;
        }
        if self.segments.len() != other.segments.len() {
            assert(self@.2.len() != other@.2.len());
            return false;
        }
        let mut i: usize = 0;
        while i < self.segments.len()
            invariant
                self.segments@.len() == other.segments@.len(),
                i <= self.segments@.len(),
                forall|k: int| 0 <= k < i ==> self.segments@[k]@ == other.segments@[k]@,
            decreases self.segments.len() - i,
        {
            if !chars_equal(&self.segments[i], &other.segments[i]) {
                assert(self@.2[i as int] != other@.2[i as int]);
                return false;
            }
            i += 1;
        }
        assert(self@.2 =~= other@.2);
        true
    }
}

/// The extension of a path (see `path_extension`).
pub fn file_extension(path: &str) -> (r: Option<Vec<char>>)
    ensures
        match r {
            Some(e) => path_extension(path@) == Some(e@),
            None => path_extension(path@) is None,
        },
{
    let key = PathKey::of(path);
    let n = key.segments.len();
    if n == 0 {
        return None;
    }
    let name = &key.segments[n - 1];
    proof {
        assert(key@.2[n - 1] == name@);
    }
    if name.len() == 2 && name[0] == '.' && name[1] == '.' {
        assert(name@ =~= seq!['.', '.']);
        return None;
    }
    assert(name@ != seq!['.', '.']) by {
        if name@ == seq!['.', '.'] {
            assert(name@.len() == 2 && name@[0] == '.' && name@[1] == '.');
        }
    }
    let mut j: usize = name.len();
    while j > 0 && name[j - 1] != '.'
        invariant
            j <= name@.len(),
            forall|k: int| j <= k < name@.len() ==> name@[k] != '.',
        decreases j,
    {
        j -= 1;
    }
    proof {
        lemma_last_dot(name@, j as int);
    }
    if j <= 1 {
        return None;
    }
    let mut ext: Vec<char> = Vec::new();
    let mut i: usize = j;
    while i < name.len()
        invariant
            j <= i <= name@.len(),
            ext@ == name@.subrange(j as int, i as int),
        decreases name.len() - i,
    {
        ext.push(name[i]);
        i += 1;
        assert(ext@ =~= name@.subrange(j as int, i as int));
    }
    Some(ext)
}

/// Whether a path's extension is exactly `ext` (letter case counts).
pub fn has_extension(path: &str, ext: &str) -> (r: bool)
    ensures
        r == (path_extension(path@) == Some(ext@)),
{
    let e = match file_extension(path) {
        Some(e) => e,
        None => return false,
    };
    let n = ext.unicode_len();
    if e.len() != n {
        return false;
    }
    let mut i: usize = 0;
    while i < n
        invariant
            n == ext@.len(),
            e@.len() == n,
            path_extension(path@) == Some(e@),
            i <= n,
            forall|k: int| 0 <= k < i ==> e@[k] == ext@[k],
        decreases n - i,
    {
        if e[i] != ext.get_char(i) {
            assert(e@[i as int] != ext@[i as int]);
            return false;
        }
        i += 1;
    }
    assert(e@ =~= ext@);
    true
}

/// Joining a relative path onto a root puts one `/` between them exactly when
/// the root is not empty and its last character is not `/`; an absolute path
/// replaces the root.
pub proof fn lemma_join_separator(root: Seq<char>, path: Seq<char>)
    ensures
        path.len() > 0 && path[0] == '/' ==> joined_path(root, path) == path,
        !(path.len() > 0 && path[0] == '/') && root.len() == 0 ==> joined_path(root, path) == path,
        !(path.len() > 0 && path[0] == '/') && root.len() > 0 && root[root.len() - 1] == '/'
            ==> joined_path(root, path) == root + path,
        !(path.len() > 0 && path[0] == '/') && root.len() > 0 && root[root.len() - 1] != '/'
            ==> joined_path(root, path) == root + seq!['/'] + path,
{
}

/// A path's key keeps every segment that is not empty and not `.`, in order;
/// `..` segments are kept, so paths that differ by one are told apart.
pub proof fn lemma_named_segments_keep_parent_steps(segs: Seq<Seq<char>>)
    ensures
        named_segments(segs) == segs.filter(|seg: Seq<char>| seg.len() > 0 && seg != seq!['.']),
    decreases segs.len(),
{
    reveal(Seq::filter);
    if segs.len() > 0 {
        lemma_named_segments_keep_parent_steps(segs.drop_last());
    }
}

/// Where the last `.` of a sequence is: -1 when there is none, else an index
/// holding `.` with no `.` after it.
proof fn lemma_last_dot_spot(s: Seq<char>)
    ensures
        -1 <= last_dot(s) < s.len(),
        last_dot(s) >= 0 ==> s[last_dot(s)] == '.',
        forall|j: int| last_dot(s) < j < s.len() ==> s[j] != '.',
    decreases s.len(),
{
    if s.len() > 0 && s.last() != '.' {
        lemma_last_dot_spot(s.drop_last());
        assert forall|j: int| last_dot(s) < j < s.len() implies s[j] != '.' by {
            if j < s.len() - 1 {
                assert(s.drop_last()[j] == s[j]);
            }
        }
    }
}

/// A file name's extension is the text after a `.` that is not its first
/// character and has no `.` after it; a name without such a `.` has none.
pub proof fn lemma_name_extension(name: Seq<char>)
    ensures
        match name_extension(name) {
            Some(e) => exists|k: int|
                0 < k < name.len() && name[k] == '.' && e == name.subrange(k + 1, name.len() as int)
                    && forall|j: int| k < j < name.len() ==> name[j] != '.',
            None => forall|j: int| 0 < j < name.len() ==> name[j] != '.',
        },
{
    lemma_last_dot_spot(name);
    let k = last_dot(name);
    if k > 0 {
        assert(0 < k < name.len() && name[k] == '.' && name_extension(name) == Some(
            name.subrange(k + 1, name.len() as int),
        ));
    }
}

/// The segments of a path hold no separator, and there is one more of them
/// than there are separators in the path.
pub proof fn lemma_split_segments_shape(s: Seq<char>)
    ensures
        forall|i: int| 0 <= i < split_segments(s).len() ==> !(#[trigger] split_segments(s)[i]).contains('/'),
        split_segments(s).len() == s.filter(|c: char| c == '/').len() + 1,
    decreases s.len(),
{
    reveal(Seq::filter);
    if s.len() > 0 {
        lemma_split_segments_shape(s.drop_last());
        lemma_split_nonempty(s.drop_last());
        let p = split_segments(s.drop_last());
        let q = split_segments(s);
        if s.last() != '/' {
            assert forall|i: int| 0 <= i < q.len() implies !(#[trigger] q[i]).contains('/') by {
                if i == q.len() - 1 {
                    let seg = p.last().push(s.last());
                    assert(q[i] == seg);
                    assert(!p[p.len() - 1].contains('/'));
                    if seg.contains('/') {
                        let j = choose|j: int| 0 <= j < seg.len() && seg[j] == '/';
                        if j < seg.len() - 1 {
                            assert(p.last()[j] == '/');
                            assert(p.last().contains('/'));
                        }
                    }
                } else {
                    assert(q[i] == p[i]);
                }
            }
        } else {
            assert forall|i: int| 0 <= i < q.len() implies !(#[trigger] q[i]).contains('/') by {
                if i < q.len() - 1 {
                    assert(q[i] == p[i]);
                } else {
                    assert(q[i] =~= Seq::<char>::empty());
                }
            }
        }
    }
}

} // verus!
