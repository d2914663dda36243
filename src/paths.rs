//! Where the recorder keeps its files: `/`-separated paths under the
//! application data directory.

use vstd::prelude::*;
use crate::text::{chars_of, owned};
use vstd::string::StrSliceExecFns;

verus! {

/// `name` placed inside `dir`: an empty name leaves `dir`, an empty `dir`
/// leaves `name`, and one separator stands between the two.
pub open spec fn join_path(dir: Seq<char>, name: Seq<char>) -> Seq<char> {
    if name.len() == 0 {
        dir
    } else if dir.len() == 0 {
        name
    } else if dir.last() == '/' {
        dir + name
    } else {
        dir + seq!['/'] + name
    }
}

/// The name of the directory that holds the recordings.
pub open spec fn recordings_dir_name() -> Seq<char> {
    "recordings"@
}

/// The name of the metadata file.
pub open spec fn metadata_file_name() -> Seq<char> {
    "recordings.json"@
}

/// Joins `dir` and `name` as [`join_path`] describes.
pub fn join(dir: &str, name: &str) -> (r: String)
    ensures
        r@ == join_path(dir@, name@),
{
    let d = chars_of(dir);
    if name.unicode_len() == 0 {
        return owned(dir);
    }
    if d.len() == 0 {
        return owned(name);
    }
    let mut r = owned(dir);
    if d[d.len() - 1] != '/' {
        r.append("/");
        proof {
            reveal_strlit("/");
        }
    }
    r.append(name);
    r
}

/// The position of the last `c` in `s`, or -1.
pub open spec fn last_index_of(s: Seq<char>, c: char) -> int
    decreases s.len(),
{
    if s.len() == 0 {
        -1
    } else if s.last() == c {
        s.len() - 1
    } else {
        last_index_of(s.drop_last(), c)
    }
}

pub proof fn lemma_last_index_bounds(s: Seq<char>, c: char)
    ensures
        -1 <= last_index_of(s, c) < s.len(),
        last_index_of(s, c) >= 0 ==> s[last_index_of(s, c)] == c,
        forall|j: int| last_index_of(s, c) < j < s.len() ==> s[j] != c,
    decreases s.len(),
{
    if s.len() > 0 && s.last() != c {
        lemma_last_index_bounds(s.drop_last(), c);
        assert forall|j: int| last_index_of(s, c) < j < s.len() implies s[j] != c by {
            if j < s.len() - 1 {
                assert(s.drop_last()[j] == s[j]);
            }
        }
    }
}

/// Where the last component of `p` starts.
pub open spec fn name_start(p: Seq<char>) -> int {
    last_index_of(p, '/') + 1
}

/// The last component of `p`: what follows its last separator.
pub open spec fn base_name(p: Seq<char>) -> Seq<char> {
    p.subrange(name_start(p), p.len() as int)
}

/// The position of the dot that starts the extension within the last
/// component, or a non-positive number when it has no extension (a leading
/// dot marks a hidden file, not an extension).
pub open spec fn extension_dot(p: Seq<char>) -> int {
    last_index_of(base_name(p), '.')
}

/// The extension of `p`, when it has one.
pub open spec fn extension_of(p: Seq<char>) -> Option<Seq<char>> {
    let name = base_name(p);
    let dot = extension_dot(p);
    if dot > 0 {
        Some(name.subrange(dot + 1, name.len() as int))
    } else {
        None
    }
}

/// `p` with its extension replaced by `ext`, or with `ext` added when it has
/// none; a path without a last component is left as it is.
pub open spec fn with_extension_spec(p: Seq<char>, ext: Seq<char>) -> Seq<char> {
    let dot = extension_dot(p);
    if base_name(p).len() == 0 {
        p
    } else if dot > 0 {
        p.subrange(0, name_start(p) + dot) + seq!['.'] + ext
    } else {
        p + seq!['.'] + ext
    }
}

proof fn lemma_last_index_skip_tail(a: Seq<char>, b: Seq<char>, c: char)
    requires
        forall|j: int| 0 <= j < b.len() ==> b[j] != c,
    ensures
        last_index_of(a + b, c) == last_index_of(a, c),
    decreases b.len(),
{
    if b.len() > 0 {
        lemma_last_index_skip_tail(a, b.drop_last(), c);
        assert((a + b).drop_last() =~= a + b.drop_last());
        assert((a + b).last() == b.last());
    }
}

proof fn lemma_last_index_after_mark(a: Seq<char>, c: char, b: Seq<char>)
    requires
        forall|j: int| 0 <= j < b.len() ==> b[j] != c,
    ensures
        last_index_of(a + seq![c] + b, c) == a.len(),
{
    lemma_last_index_skip_tail(a + seq![c], b, c);
    assert((a + seq![c]).drop_last() =~= a);
}

/// The file set to extension `ext` (one without a dot or a separator) has
/// that extension, and a name of its own.
pub proof fn lemma_with_extension_has_it(p: Seq<char>, ext: Seq<char>)
    requires
        base_name(p).len() > 0,
        forall|j: int| 0 <= j < ext.len() ==> ext[j] != '.' && ext[j] != '/',
    ensures
        extension_of(with_extension_spec(p, ext)) == Some(ext),
        base_name(with_extension_spec(p, ext)).len() > 0,
{
    let ns = name_start(p);
    let name = base_name(p);
    let dot = extension_dot(p);
    let q = with_extension_spec(p, ext);
    lemma_last_index_bounds(p, '/');
    lemma_last_index_bounds(name, '.');
    assert forall|j: int| 0 <= j < ext.len() implies ext[j] != '/' by {}
    assert forall|j: int| 0 <= j < ext.len() implies ext[j] != '.' by {}
    let stem = if dot > 0 {
        p.subrange(0, ns + dot)
    } else {
        p
    };
    assert(q =~= stem + seq!['.'] + ext);
    assert(forall|j: int| 0 <= j < (seq!['.'] + ext).len() ==> (seq!['.'] + ext)[j] != '/');
    assert(q =~= stem + (seq!['.'] + ext));
    lemma_last_index_skip_tail(stem, seq!['.'] + ext, '/');
    if dot > 0 {
        let tail = name.take(dot);
        assert(stem =~= p.take(ns) + tail);
        assert forall|j: int| 0 <= j < tail.len() implies tail[j] != '/' by {
            assert(tail[j] == p[ns + j]);
        }
        lemma_last_index_skip_tail(p.take(ns), tail, '/');
        if ns > 0 {
            assert(p.take(ns).last() == '/');
            assert(p.take(ns).drop_last() =~= p.take(ns - 1));
        } else {
            assert(p.take(ns).len() == 0);
        }
    }
    assert(last_index_of(q, '/') == ns - 1);
    let qname = base_name(q);
    assert(qname =~= stem.subrange(ns, stem.len() as int) + seq!['.'] + ext);
    lemma_last_index_after_mark(stem.subrange(ns, stem.len() as int), '.', ext);
    assert(stem.subrange(ns, stem.len() as int).len() > 0);
    assert(qname.subrange(extension_dot(q) + 1, qname.len() as int) =~= ext);
}

/// The file name recorded for the file at `p`.
pub open spec fn recorded_file_name(p: Seq<char>) -> Seq<char> {
    if base_name(p).len() == 0 {
        "recording.opus"@
    } else {
        base_name(p)
    }
}

fn last_index_exec(s: &Vec<char>, c: char, end: usize) -> (r: Option<usize>)
    requires
        end <= s.len(),
    ensures
        match r {
            Some(i) => i as int == last_index_of(s@.take(end as int), c),
            None => last_index_of(s@.take(end as int), c) == -1,
        },
{
    let mut k: usize = end;
    while k > 0
        invariant
            k <= end <= s.len(),
            last_index_of(s@.take(end as int), c) == last_index_of(s@.take(k as int), c),
        decreases k,
    {
        assert(s@.take(k as int).drop_last() =~= s@.take(k - 1));
        if s[k - 1] == c {
            return Some(k - 1);
        }
        k = k - 1;
    }
    None
}

fn name_start_exec(v: &Vec<char>) -> (r: usize)
    ensures
        r as int == name_start(v@),
        r <= v.len(),
{
    proof {
        assert(v@.take(v.len() as int) =~= v@);
        lemma_last_index_bounds(v@, '/');
    }
    match last_index_exec(v, '/', v.len()) {
        Some(i) => i + 1,
        None => 0,
    }
}

/// The file name recorded for the file at `path`.
pub fn file_name(path: &str) -> (r: String)
    ensures
        r@ == recorded_file_name(path@),
{
    let v = chars_of(path);
    let start = name_start_exec(&v);
    if start == v.len() {
        return owned("recording.opus");
    }
    owned(path.substring_char(start, v.len()))
}

/// Whether the extension of `path` is exactly `ext`.
pub fn has_extension(path: &str, ext: &str) -> (r: bool)
    ensures
        r == (extension_of(path@) == Some(ext@)),
{
    let v = chars_of(path);
    let start = name_start_exec(&v);
    let name = crate::text::sub_vec(&v, start, v.len());
    proof {
        assert(name@.take(name.len() as int) =~= name@);
        lemma_last_index_bounds(name@, '.');
    }
    match last_index_exec(&name, '.', name.len()) {
        Some(dot) => {
            if dot == 0 {
                return false;
            }
            let e = crate::text::sub_vec(&name, dot + 1, name.len());
            let x = chars_of(ext);
            proof {
                assert(name@ == base_name(path@));
                assert(extension_of(path@) == Some(e@));
            }
            if e.len() != x.len() {
                return false;
            }
            let mut k: usize = 0;
            while k < e.len()
                invariant
                    e.len() == x.len(),
                    extension_of(path@) == Some(e@),
                    x@ == ext@,
                    k <= e.len(),
                    forall|j: int| 0 <= j < k ==> e@[j] == x@[j],
                decreases e.len() - k,
            {
                if e[k] != x[k] {
                    proof {
                        assert(e@[k as int] != x@[k as int]);
                    }
                    return false;
                }
                k = k + 1;
            }
            proof {
                assert(e@ =~= x@);
            }
            true
        },
        None => false,
    }
}

/// `path` with its extension set to `ext`.
pub fn with_extension(path: &str, ext: &str) -> (r: String)
    ensures
        r@ == with_extension_spec(path@, ext@),
{
    let v = chars_of(path);
    let start = name_start_exec(&v);
    if start == v.len() {
        return owned(path);
    }
    let name = crate::text::sub_vec(&v, start, v.len());
    proof {
        assert(name@.take(name.len() as int) =~= name@);
        lemma_last_index_bounds(name@, '.');
    }
    let stem_end: usize = match last_index_exec(&name, '.', name.len()) {
        Some(dot) => if dot > 0 {
            start + dot
        } else {
            v.len()
        },
        None => v.len(),
    };
    let mut r = owned(path.substring_char(0, stem_end));
    r.append(".");
    r.append(ext);
    proof {
        reveal_strlit(".");
        assert(path@.subrange(0, path@.len() as int) =~= path@);
    }
    r
}

/// The recorder's directories and files.
#[derive(Debug, Clone)]
pub struct AppPaths {
    recordings_dir: String,
    metadata_file: String,
}

impl AppPaths {
    /// The recordings directory.
    pub closed spec fn recordings_dir_spec(&self) -> Seq<char> {
        self.recordings_dir@
    }

    /// The metadata file.
    pub closed spec fn metadata_file_spec(&self) -> Seq<char> {
        self.metadata_file@
    }

    /// The layout under the application data directory `app_data_dir`.
    pub fn new(app_data_dir: &str) -> (r: AppPaths)
        ensures
            r.recordings_dir_spec() == join_path(app_data_dir@, recordings_dir_name()),
            r.metadata_file_spec() == join_path(r.recordings_dir_spec(), metadata_file_name()),
    {
        let recordings_dir = join(app_data_dir, "recordings");
        let metadata_file = join(recordings_dir.as_str(), "recordings.json");
        AppPaths { recordings_dir, metadata_file }
    }

    /// The recordings directory.
    pub fn recordings_dir(&self) -> (r: &String)
        ensures
            r@ == self.recordings_dir_spec(),
    {
        &self.recordings_dir
    }

    /// The path of the recording file `filename`.
    pub fn recording_path(&self, filename: &str) -> (r: String)
        ensures
            r@ == join_path(self.recordings_dir_spec(), filename@),
    {
        join(self.recordings_dir.as_str(), filename)
    }

    /// The metadata file.
    pub fn metadata_file(&self) -> (r: &String)
        ensures
            r@ == self.metadata_file_spec(),
    {
        &self.metadata_file
    }
}

} // verus!
