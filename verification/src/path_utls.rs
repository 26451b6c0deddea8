use vstd::prelude::*;

verus! {

use vstd::string::StrSliceExecFns;

/// Failures of the directory scan and of basename extraction.
#[derive(Debug, Clone, PartialEq)]
pub enum PathError {
    /// The directory handed to the scan does not exist.
    PathDoesNotExist,
    /// The path handed to the scan exists but is not a directory.
    PathIsNotDirectory,
    /// Enumerating the directory failed; carries the I/O cause.
    ReadDirError(String),
    /// The path no longer denotes an existing regular file.
    PathIsNotFile,
}

/// One directory entry as the filesystem reported it: the full path and
/// whether the entry is itself a directory.
#[derive(Debug, Clone, PartialEq)]
pub struct DirEntry {
    pub path: String,
    pub is_dir: bool,
}

/// The final path component: everything after the last `/`, or the whole
/// path when it holds no `/`. Empty when the path ends in `/`.
pub open spec fn basename_of(p: Seq<char>) -> Seq<char>
    decreases p.len(),
{
    if p.len() == 0 {
        Seq::empty()
    } else if p.last() == '/' {
        Seq::empty()
    } else {
        basename_of(p.drop_last()).push(p.last())
    }
}

/// The extension of a file name: the text after the final `.`, or nothing
/// when the name holds no `.` at all. Matching is exact; nothing is folded
/// or normalized.
pub open spec fn extension_of(name: Seq<char>) -> Option<Seq<char>>
    decreases name.len(),
{
    if name.len() == 0 {
        None
    } else if name.last() == '.' {
        Some(Seq::<char>::empty())
    } else {
        match extension_of(name.drop_last()) {
            None => None,
            Some(e) => Some(e.push(name.last())),
        }
    }
}

/// Whether a path's final component carries an extension that is an exact
/// member of the allowed set.
pub open spec fn path_has_valid_extension(path: Seq<char>, exts: Seq<Seq<char>>) -> bool {
    match extension_of(basename_of(path)) {
        None => false,
        Some(e) => exts.contains(e),
    }
}

/// Whether the scan keeps a directory entry: its metadata was readable,
/// it is not a subdirectory, and its extension is allowed.
pub open spec fn entry_selected(d: DirEntry, exts: Seq<Seq<char>>) -> bool {
    !d.is_dir && path_has_valid_extension(d.path@, exts)
}

/// The paths the scan returns: the selected entries' paths, in enumeration
/// order, with unreadable entries (`None`) silently dropped.
pub open spec fn scan_spec(entries: Seq<Option<DirEntry>>, exts: Seq<Seq<char>>) -> Seq<Seq<char>>
    decreases entries.len(),
{
    if entries.len() == 0 {
        Seq::empty()
    } else {
        let front = scan_spec(entries.drop_last(), exts);
        match entries.last() {
            None => front,
            Some(d) => if entry_selected(d, exts) {
                front.push(d.path@)
            } else {
                front
            },
        }
    }
}

proof fn lemma_basename_tail(p: Seq<char>, i: int)
    requires
        0 <= i <= p.len(),
        forall|k: int| i <= k < p.len() ==> p[k] != '/',
        i > 0 ==> p[i - 1] == '/',
    ensures
        basename_of(p) == p.subrange(i, p.len() as int),
    decreases p.len(),
{
    if p.len() == i {
        assert(p.subrange(i, p.len() as int) =~= Seq::<char>::empty());
    } else {
        assert(p[p.len() - 1] != '/');
        lemma_basename_tail(p.drop_last(), i);
        assert(p.drop_last().subrange(i, p.len() - 1) =~= p.subrange(i, p.len() - 1));
        assert(p.subrange(i, p.len() - 1).push(p.last()) =~= p.subrange(i, p.len() as int));
    }
}

proof fn lemma_extension_none(name: Seq<char>)
    requires
        forall|k: int| 0 <= k < name.len() ==> name[k] != '.',
    ensures
        extension_of(name) is None,
    decreases name.len(),
{
    if name.len() > 0 {
        lemma_extension_none(name.drop_last());
    }
}

proof fn lemma_extension_some(name: Seq<char>, i: int)
    requires
        0 < i <= name.len(),
        name[i - 1] == '.',
        forall|k: int| i <= k < name.len() ==> name[k] != '.',
    ensures
        extension_of(name) == Some(name.subrange(i, name.len() as int)),
    decreases name.len(),
{
    if i == name.len() {
        assert(name.last() == '.');
        assert(name.subrange(i, name.len() as int) =~= Seq::<char>::empty());
    } else {
        assert(name[name.len() - 1] != '.');
        lemma_extension_some(name.drop_last(), i);
        assert(name.drop_last().subrange(i, name.len() - 1) =~= name.subrange(
            i,
            name.len() - 1,
        ));
        assert(name.subrange(i, name.len() - 1).push(name.last()) =~= name.subrange(
            i,
            name.len() as int,
        ));
    }
}

/// The index just after the last occurrence of `c` in `p`, or `0` when
/// `p` holds no `c` at all.
fn suffix_start_after(p: &str, c: char) -> (i: usize)
    ensures
        i <= p@.len(),
        forall|k: int| i <= k < p@.len() ==> p@[k] != c,
        i > 0 ==> p@[i - 1] == c,
{
    let n: usize = p.unicode_len();
    let mut i: usize = n;
    while i > 0
        invariant
            i <= n,
            n == p@.len(),
            forall|k: int| i <= k < n ==> p@[k] != c,
        decreases i,
    {
        if p.get_char(i - 1) == c {
            return i;
        }
        i = i - 1;
    }
    0
}

/// The final component of `p`, as a fresh string.
fn basename_str(p: &str) -> (r: String)
    ensures
        r@ == basename_of(p@),
{
    let n: usize = p.unicode_len();
    let i: usize = suffix_start_after(p, '/');
    let r = p.substring_char(i, n).to_owned();
    proof {
        lemma_basename_tail(p@, i as int);
    }
    r
}

/// The extension of `name` (the text after the final `.`), or `None` when
/// `name` holds no `.`.
fn extension_str(name: &str) -> (r: Option<String>)
    ensures
        r is Some <==> extension_of(name@) is Some,
        r is Some ==> r->0@ == extension_of(name@)->0,
{
    let n: usize = name.unicode_len();
    let i: usize = suffix_start_after(name, '.');
    if i == 0 {
        proof {
            lemma_extension_none(name@);
        }
        None
    } else {
        proof {
            lemma_extension_some(name@, i as int);
        }
        Some(name.substring_char(i, n).to_owned())
    }
}

/// Whether `x` is an exact member of `list`.
fn contains_string(list: &Vec<String>, x: &String) -> (r: bool)
    ensures
        r == list.deep_view().contains(x@),
{
    let mut i: usize = 0;
    while i < list.len()
        invariant
            i <= list@.len(),
            forall|k: int| 0 <= k < i ==> list.deep_view()[k] != x@,
        decreases list@.len() - i,
    {
        assert(list.deep_view()[i as int] == list@[i as int]@);
        if list[i].eq(x) {
            return true;
        }
        i = i + 1;
    }
    false
}

/// Whether the final component of `path` carries an extension that is an
/// exact member of `valid_extensions`. Exact string membership: no case
/// folding, no wildcards; a name with no `.` never matches.
pub fn has_valid_extension(path: &String, valid_extensions: &Vec<String>) -> (r: bool)
    ensures
        r == path_has_valid_extension(path@, valid_extensions.deep_view()),
{
    let base = basename_str(path.as_str());
    match extension_str(base.as_str()) {
        None => false,
        Some(e) => contains_string(valid_extensions, &e),
    }
}

/// The display name of a song file: the final component of its path.
/// `is_file` reports whether, at call time, the path still denotes an
/// existing regular file; when it does not (an accepted race against the
/// filesystem), or when the path has no final component, the result is
/// `PathIsNotFile`.
pub fn strip_directory_from_file(file_name: &String, is_file: bool) -> (r: Result<
    String,
    PathError,
>)
    ensures
        !is_file ==> r == Err::<String, PathError>(PathError::PathIsNotFile),
        is_file && basename_of(file_name@).len() == 0 ==> r == Err::<String, PathError>(
            PathError::PathIsNotFile,
        ),
        is_file && basename_of(file_name@).len() > 0 ==> (r matches Ok(name) && name@
            == basename_of(file_name@)),
{
    if !is_file {
        return Err(PathError::PathIsNotFile);
    }
    let base = basename_str(file_name.as_str());
    if base.unicode_len() == 0 {
        Err(PathError::PathIsNotFile)
    } else {
        Ok(base)
    }
}

/// The directory scan, applied to what the filesystem reported: whether
/// the directory exists and is a directory, the enumerated entries
/// (`None` for an entry whose metadata could not be read), and the allowed
/// extensions. A missing or non-directory path or a failed enumeration is
/// fatal; an unreadable entry is silently dropped; the kept paths come
/// back in enumeration order.
pub fn get_song_file_paths_in_dir(
    dir_exists: bool,
    dir_is_dir: bool,
    entries: Result<Vec<Option<DirEntry>>, String>,
    valid_extensions: &Vec<String>,
) -> (r: Result<Vec<String>, PathError>)
    ensures
        !dir_exists ==> r == Err::<Vec<String>, PathError>(PathError::PathDoesNotExist),
        dir_exists && !dir_is_dir ==> r == Err::<Vec<String>, PathError>(
            PathError::PathIsNotDirectory,
        ),
        dir_exists && dir_is_dir && entries is Err ==> r == Err::<Vec<String>, PathError>(
            PathError::ReadDirError(entries->Err_0),
        ),
        dir_exists && dir_is_dir && entries is Ok ==> (r matches Ok(paths) && paths.deep_view()
            == scan_spec(entries->Ok_0@, valid_extensions.deep_view())),
{
    if !dir_exists {
        return Err(PathError::PathDoesNotExist);
    }
    if !dir_is_dir {
        return Err(PathError::PathIsNotDirectory);
    }
    let ents: Vec<Option<DirEntry>> = match entries {
        Ok(v) => v,
        Err(c) => {
            return Err(PathError::ReadDirError(c));
        },
    };
    let ghost exts = valid_extensions.deep_view();
    let mut out: Vec<String> = Vec::new();
    let mut i: usize = 0;
    while i < ents.len()
        invariant
            i <= ents@.len(),
            exts == valid_extensions.deep_view(),
            out.deep_view() == scan_spec(ents@.subrange(0, i as int), exts),
        decreases ents@.len() - i,
    {
        let ghost prev = out.deep_view();
        match &ents[i] {
            None => {},
            Some(d) => {
                if !d.is_dir && has_valid_extension(&d.path, valid_extensions) {
                    out.push(d.path.clone());
                    assert(out.deep_view() =~= prev.push(ents@[i as int]->0.path@));
                }
            },
        }
        proof {
            let sub = ents@.subrange(0, i + 1);
            assert(sub.drop_last() =~= ents@.subrange(0, i as int));
            assert(sub.last() == ents@[i as int]);
        }
        i = i + 1;
    }
    proof {
        assert(ents@.subrange(0, ents@.len() as int) =~= ents@);
    }
    Ok(out)
}

} // verus!
