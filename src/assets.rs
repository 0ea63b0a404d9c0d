//! The asset indexer and the embedded-asset table: which files are embedded,
//! under which relative paths, and how a requested path finds them.
use vstd::prelude::*;

verus! {

/// One embedded file: its relative path and the path to read it from.
pub struct FileEntry {
    pub rel_path: String,
    pub full_canonical_path: String,
}

/// One entry met while walking the asset directory (symbolic links followed).
pub struct WalkEntry {
    /// Whether the entry is a regular file.
    pub is_file: bool,
    /// The components of its path below the root; `None` where a component
    /// has no textual representation.
    pub rel_components: Vec<Option<String>>,
    /// Its canonical absolute path, if it could be obtained as text.
    pub canonical: Option<String>,
}

/// Why the asset directory could not be indexed.
#[derive(Debug, PartialEq, Eq, Structural, Clone, Copy)]
pub enum AssetError {
    /// A path component has no textual representation.
    UnnamedPath,
    /// The canonical path of a file could not be obtained.
    NoCanonicalPath,
}

impl AssetError {
    /// A human-readable description.
    pub fn message(&self) -> (r: String)
        ensures
            *self == AssetError::UnnamedPath ==> r@ == "Path does not have a string representation"@,
            *self == AssetError::NoCanonicalPath ==> r@ == "Could not get canonicalize path"@,
    {
        match self {
            AssetError::UnnamedPath => String::from_str(
                "Path does not have a string representation",
            ),
            AssetError::NoCanonicalPath => String::from_str("Could not get canonicalize path"),
        }
    }
}

/// The components joined with forward slashes.
pub open spec fn join_slash(parts: Seq<Seq<char>>) -> Seq<char>
    decreases parts.len(),
{
    if parts.len() == 0 {
        Seq::empty()
    } else if parts.len() == 1 {
        parts[0]
    } else {
        join_slash(parts.drop_last()) + seq!['/'] + parts.last()
    }
}

pub open spec fn all_named(parts: Seq<Option<String>>) -> bool {
    forall|i: int| 0 <= i < parts.len() ==> (#[trigger] parts[i]) is Some
}

pub open spec fn texts_of(parts: Seq<Option<String>>) -> Seq<Seq<char>> {
    parts.map_values(|o: Option<String>| o->Some_0@)
}

/// A path, given by its components, as text with forward-slash separators
/// whatever the host's convention; fails when a component has no text.
pub fn path_to_str(parts: &Vec<Option<String>>) -> (r: Result<String, AssetError>)
    ensures
        match r {
            Ok(s) => all_named(parts@) && s@ == join_slash(texts_of(parts@)),
            Err(e) => !all_named(parts@) && e == AssetError::UnnamedPath,
        },
{
    let mut out = String::new();
    let mut i: usize = 0;
    proof {
        reveal_strlit("/");
    }
    while i < parts.len()
        invariant
            i <= parts@.len(),
            all_named(parts@.subrange(0, i as int)),
            out@ == join_slash(texts_of(parts@.subrange(0, i as int))),
            "/"@ == seq!['/'],
        decreases parts@.len() - i,
    {
        let ghost before = parts@.subrange(0, i as int);
        let ghost after = parts@.subrange(0, i as int + 1);
        assert(after.drop_last() =~= before);
        assert(texts_of(after).drop_last() =~= texts_of(before));
        match &parts[i] {
            Some(t) => {
                if i > 0 {
                    out.append("/");
                }
                out.append(t.as_str());
                assert(texts_of(after).last() == t@);
                if i == 0 {
                    assert(out@ =~= join_slash(texts_of(after)));
                }
            },
            None => {
                assert(!all_named(parts@));
                return Err(AssetError::UnnamedPath);
            },
        }
        i = i + 1;
        assert(all_named(parts@.subrange(0, i as int)));
    }
    assert(parts@.subrange(0, parts@.len() as int) =~= parts@);
    Ok(out)
}

impl View for FileEntry {
    type V = (Seq<char>, Seq<char>);

    open spec fn view(&self) -> (Seq<char>, Seq<char>) {
        (self.rel_path@, self.full_canonical_path@)
    }
}

/// The relative path of a walked entry whose components all have text.
#[verifier::opaque]
pub open spec fn rel_of(e: WalkEntry) -> Seq<char> {
    join_slash(texts_of(e.rel_components@))
}

/// The index of the first `n` walked entries: each regular file, in walk
/// order, with its relative and canonical paths; or the first failure.
pub open spec fn index_of(entries: Seq<WalkEntry>, n: int) -> Result<
    Seq<(Seq<char>, Seq<char>)>,
    AssetError,
>
    decreases n,
{
    if 0 < n <= entries.len() {
        match index_of(entries, n - 1) {
            Err(e) => Err(e),
            Ok(fs) => {
                let e = entries[n - 1];
                if !e.is_file {
                    Ok(fs)
                } else if !all_named(e.rel_components@) {
                    Err(AssetError::UnnamedPath)
                } else {
                    match e.canonical {
                        None => Err(AssetError::NoCanonicalPath),
                        Some(c) => Ok(fs.push((rel_of(e), c@))),
                    }
                }
            },
        }
    } else {
        Ok(Seq::empty())
    }
}

proof fn lemma_index_error_persists(entries: Seq<WalkEntry>, k: int, e: AssetError)
    requires
        0 <= k <= entries.len(),
        index_of(entries, k) == Err::<Seq<(Seq<char>, Seq<char>)>, AssetError>(e),
    ensures
        index_of(entries, entries.len() as int) == Err::<Seq<(Seq<char>, Seq<char>)>, AssetError>(
            e,
        ),
    decreases entries.len() - k,
{
    if k < entries.len() {
        lemma_index_error_persists(entries, k + 1, e);
    }
}

/// Indexes the walked entries of an asset directory: the regular files, in
/// walk order, each with its forward-slash relative path and canonical path.
pub fn get_files(entries: &Vec<WalkEntry>) -> (r: Result<Vec<FileEntry>, AssetError>)
    ensures
        match r {
            Ok(v) => index_of(entries@, entries@.len() as int) == Ok::<
                Seq<(Seq<char>, Seq<char>)>,
                AssetError,
            >(v@.map_values(|f: FileEntry| f@)),
            Err(e) => index_of(entries@, entries@.len() as int) == Err::<
                Seq<(Seq<char>, Seq<char>)>,
                AssetError,
            >(e),
        },
{
    let mut out: Vec<FileEntry> = Vec::new();
    let mut i: usize = 0;
    assert(out@.map_values(|f: FileEntry| f@) =~= Seq::<(Seq<char>, Seq<char>)>::empty());
    while i < entries.len()
        invariant
            i <= entries@.len(),
            index_of(entries@, i as int) == Ok::<Seq<(Seq<char>, Seq<char>)>, AssetError>(
                out@.map_values(|f: FileEntry| f@),
            ),
        decreases entries@.len() - i,
    {
        let e = &entries[i];
        proof {
            reveal(rel_of);
        }
        if e.is_file {
            match path_to_str(&e.rel_components) {
                Err(err) => {
                    proof {
                        lemma_index_error_persists(entries@, i + 1, err);
                    }
                    return Err(err);
                },
                Ok(rel_path) => match &e.canonical {
                    None => {
                        proof {
                            lemma_index_error_persists(
                                entries@,
                                i + 1,
                                AssetError::NoCanonicalPath,
                            );
                        }
                        return Err(AssetError::NoCanonicalPath);
                    },
                    Some(c) => {
                        let ghost before = out@;
                        let entry = FileEntry { rel_path, full_canonical_path: c.clone() };
                        out.push(entry);
                        assert(out@.map_values(|f: FileEntry| f@) =~= before.map_values(
                            |f: FileEntry| f@,
                        ).push(entry@));
                    },
                },
            }
        }
        i = i + 1;
    }
    Ok(out)
}

/// The relative paths of the regular files among the first `n` walked
/// entries, in walk order.
pub open spec fn file_rels(entries: Seq<WalkEntry>, n: int) -> Seq<Seq<char>>
    decreases n,
{
    if 0 < n <= entries.len() {
        if entries[n - 1].is_file {
            file_rels(entries, n - 1).push(rel_of(entries[n - 1]))
        } else {
            file_rels(entries, n - 1)
        }
    } else {
        Seq::empty()
    }
}

/// The indexed relative paths are exactly those of the regular files among
/// the first `n` walked entries, in walk order.
pub proof fn lemma_indexed_are_files(entries: Seq<WalkEntry>, n: int, fs: Seq<(Seq<char>, Seq<char>)>)
    requires
        0 <= n <= entries.len(),
        index_of(entries, n) == Ok::<Seq<(Seq<char>, Seq<char>)>, AssetError>(fs),
    ensures
        fs.map_values(|f: (Seq<char>, Seq<char>)| f.0) == file_rels(entries, n),
    decreases n,
{
    if n > 0 {
        let prev = index_of(entries, n - 1)->Ok_0;
        lemma_indexed_are_files(entries, n - 1, prev);
        let e = entries[n - 1];
        if e.is_file {
            assert(fs == prev.push((rel_of(e), e.canonical->Some_0@)));
            assert(fs.map_values(|f: (Seq<char>, Seq<char>)| f.0) =~= prev.map_values(
                |f: (Seq<char>, Seq<char>)| f.0,
            ).push(rel_of(e)));
        } else {
            assert(fs == prev);
        }
    } else {
        assert(fs.map_values(|f: (Seq<char>, Seq<char>)| f.0) =~= Seq::<Seq<char>>::empty());
    }
}

/// Each regular file among the first `n` walked entries is indexed.
pub proof fn lemma_files_are_indexed(entries: Seq<WalkEntry>, n: int, fs: Seq<(Seq<char>, Seq<char>)>)
    requires
        0 <= n <= entries.len(),
        index_of(entries, n) == Ok::<Seq<(Seq<char>, Seq<char>)>, AssetError>(fs),
    ensures
        forall|i: int|
            0 <= i < n && (#[trigger] entries[i]).is_file ==> exists|k: int|
                0 <= k < fs.len() && fs[k].0 == rel_of(entries[i]),
    decreases n,
{
    if n > 0 {
        let prev = index_of(entries, n - 1)->Ok_0;
        lemma_files_are_indexed(entries, n - 1, prev);
        let e = entries[n - 1];
        if e.is_file {
            assert(fs == prev.push((rel_of(e), e.canonical->Some_0@)));
        } else {
            assert(fs == prev);
        }
        assert forall|i: int| 0 <= i < n && (#[trigger] entries[i]).is_file implies exists|k: int|
            0 <= k < fs.len() && fs[k].0 == rel_of(entries[i]) by {
            if i == n - 1 {
                assert(fs[prev.len() as int].0 == rel_of(entries[i]));
            } else {
                let k = choose|k: int| 0 <= k < prev.len() && prev[k].0 == rel_of(entries[i]);
                assert(fs[k] == prev[k]);
            }
        }
    }
}

proof fn lemma_join_no_backslash(parts: Seq<Seq<char>>)
    requires
        forall|i: int, j: int|
            0 <= i < parts.len() && 0 <= j < parts[i].len() ==> #[trigger] parts[i][j] != '\\',
    ensures
        forall|j: int|
            0 <= j < join_slash(parts).len() ==> #[trigger] join_slash(parts)[j] != '\\',
    decreases parts.len(),
{
    if parts.len() > 1 {
        lemma_join_no_backslash(parts.drop_last());
        let a = join_slash(parts.drop_last());
        let l = parts.last();
        assert forall|j: int| 0 <= j < join_slash(parts).len() implies #[trigger] join_slash(
            parts,
        )[j] != '\\' by {
            if j < a.len() {
                assert(join_slash(parts)[j] == a[j]);
            } else if j > a.len() {
                assert(join_slash(parts)[j] == l[j - a.len() - 1]);
            }
        }
    }
}

/// A relative path uses forward slashes alone as separators: it holds a
/// backslash only where a component's own text does.
pub proof fn lemma_rel_path_forward_slashes(e: WalkEntry)
    requires
        forall|i: int, j: int|
            0 <= i < texts_of(e.rel_components@).len() && 0 <= j < texts_of(
                e.rel_components@,
            )[i].len() ==> #[trigger] texts_of(e.rel_components@)[i][j] != '\\',
    ensures
        forall|j: int| 0 <= j < rel_of(e).len() ==> #[trigger] rel_of(e)[j] != '\\',
{
    reveal(rel_of);
    lemma_join_no_backslash(texts_of(e.rel_components@));
}

proof fn lemma_join_starts_with_first(parts: Seq<Seq<char>>)
    requires
        parts.len() > 0,
        parts[0].len() > 0,
    ensures
        join_slash(parts).len() > 0,
        join_slash(parts)[0] == parts[0][0],
    decreases parts.len(),
{
    if parts.len() > 1 {
        lemma_join_starts_with_first(parts.drop_last());
    }
}

/// A relative path with at least one component, whose first component has
/// text not starting with `/`, is non-empty and does not start with `/`.
pub proof fn lemma_rel_path_relative(e: WalkEntry)
    requires
        e.rel_components@.len() > 0,
        texts_of(e.rel_components@)[0].len() > 0,
        texts_of(e.rel_components@)[0][0] != '/',
    ensures
        rel_of(e).len() > 0,
        rel_of(e)[0] != '/',
{
    reveal(rel_of);
    lemma_join_starts_with_first(texts_of(e.rel_components@));
}

} // verus!
