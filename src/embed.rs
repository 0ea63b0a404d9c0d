//! The embedded-asset table: the lookup and listing operations that a server
//! type gets, and the routes that serve a single-page application from it.
use vstd::prelude::*;

verus! {

/// One embedded file: the relative path it is known by and its bytes.
pub struct EmbeddedFile {
    pub rel_path: String,
    pub bytes: Vec<u8>,
}

/// The embedded files in index order, each optionally known under a common
/// path prefix.
pub struct AssetTable {
    pub files: Vec<EmbeddedFile>,
    pub prefix: Option<String>,
}

pub ghost struct AssetTableModel {
    pub files: Seq<(Seq<char>, Seq<u8>)>,
    pub prefix: Option<Seq<char>>,
}

impl View for AssetTable {
    type V = AssetTableModel;

    open spec fn view(&self) -> AssetTableModel {
        AssetTableModel {
            files: self.files@.map_values(|f: EmbeddedFile| (f.rel_path@, f.bytes@)),
            prefix: match self.prefix {
                Some(p) => Some(p@),
                None => None,
            },
        }
    }
}

/// Backslashes turned into forward slashes.
pub open spec fn normalize(s: Seq<char>) -> Seq<char> {
    s.map_values(|c: char| if c == '\\' { '/' } else { c })
}

pub open spec fn starts_with(s: Seq<char>, p: Seq<char>) -> bool {
    p.len() <= s.len() && s.subrange(0, p.len() as int) == p
}

/// The requested path with the table's prefix removed; `None` when the path
/// does not start with it.
pub open spec fn strip_table_prefix(path: Seq<char>, prefix: Option<Seq<char>>) -> Option<
    Seq<char>,
> {
    match prefix {
        None => Some(path),
        Some(p) => if starts_with(path, p) {
            Some(path.subrange(p.len() as int, path.len() as int))
        } else {
            None
        },
    }
}

/// The first file, from index `i` on, known by `key`.
pub open spec fn find_from(files: Seq<(Seq<char>, Seq<u8>)>, key: Seq<char>, i: int) -> Option<int>
    decreases files.len() - i,
{
    if 0 <= i < files.len() {
        if files[i].0 == key {
            Some(i)
        } else {
            find_from(files, key, i + 1)
        }
    } else {
        None
    }
}

/// The bytes that a lookup of `path` returns.
pub open spec fn lookup(t: AssetTableModel, path: Seq<char>) -> Option<Seq<u8>> {
    match strip_table_prefix(path, t.prefix) {
        None => None,
        Some(rest) => match find_from(t.files, normalize(rest), 0) {
            Some(k) => Some(t.files[k].1),
            None => None,
        },
    }
}

/// The prefix, or nothing.
pub open spec fn prefix_text(prefix: Option<Seq<char>>) -> Seq<char> {
    match prefix {
        Some(p) => p,
        None => Seq::empty(),
    }
}

/// The listed names: each relative path under the prefix, in index order.
pub open spec fn listing(t: AssetTableModel) -> Seq<Seq<char>> {
    t.files.map_values(|f: (Seq<char>, Seq<u8>)| prefix_text(t.prefix) + f.0)
}

/// Whether `s` starts with `p`.
pub fn str_starts_with(s: &str, p: &str) -> (r: bool)
    ensures
        r == starts_with(s@, p@),
{
    let n = s.unicode_len();
    let m = p.unicode_len();
    if m > n {
        return false;
    }
    let mut i: usize = 0;
    while i < m
        invariant
            n == s@.len(),
            m == p@.len(),
            m <= n,
            i <= m,
            forall|j: int| 0 <= j < i ==> s@[j] == p@[j],
        decreases m - i,
    {
        if s.get_char(i) != p.get_char(i) {
            assert(s@.subrange(0, m as int)[i as int] != p@[i as int]);
            return false;
        }
        i = i + 1;
    }
    assert(s@.subrange(0, m as int) =~= p@);
    true
}

/// Whether `rel` is what the part of `path` from `start` on becomes once
/// backslashes are turned into forward slashes.
fn matches_normalized(rel: &str, path: &str, start: usize) -> (r: bool)
    requires
        start <= path@.len(),
    ensures
        r == (rel@ == normalize(path@.subrange(start as int, path@.len() as int))),
{
    let n = path.unicode_len();
    let m = rel.unicode_len();
    let ghost rest = path@.subrange(start as int, path@.len() as int);
    if n - start != m {
        assert(normalize(rest).len() == rest.len());
        return false;
    }
    let mut i: usize = 0;
    while i < m
        invariant
            n == path@.len(),
            m == rel@.len(),
            start + m == n,
            i <= m,
            rest == path@.subrange(start as int, path@.len() as int),
            forall|j: int| 0 <= j < i ==> rel@[j] == normalize(rest)[j],
        decreases m - i,
    {
        let c = path.get_char(start + i);
        let d = if c == '\\' {
            '/'
        } else {
            c
        };
        assert(normalize(rest)[i as int] == d);
        if rel.get_char(i) != d {
            return false;
        }
        i = i + 1;
    }
    assert(rel@ =~= normalize(rest));
    true
}

fn copy_bytes(b: &Vec<u8>) -> (r: Vec<u8>)
    ensures
        r@ == b@,
{
    let mut out: Vec<u8> = Vec::new();
    let mut i: usize = 0;
    while i < b.len()
        invariant
            i <= b@.len(),
            out@ == b@.subrange(0, i as int),
        decreases b@.len() - i,
    {
        out.push(b[i]);
        i = i + 1;
        assert(out@ =~= b@.subrange(0, i as int));
    }
    assert(b@.subrange(0, b@.len() as int) =~= b@);
    out
}

impl AssetTable {
    /// The bytes of the file known by `file_path`: the table's prefix is
    /// removed first (no match without it), then backslashes become forward
    /// slashes, then the path must equal a relative path exactly.
    pub fn get(&self, file_path: &str) -> (r: Option<Vec<u8>>)
        ensures
            match r {
                Some(b) => lookup(self@, file_path@) == Some(b@),
                None => lookup(self@, file_path@).is_none(),
            },
    {
        let mut start: usize = 0;
        match &self.prefix {
            Some(p) => {
                if !str_starts_with(file_path, p.as_str()) {
                    return None;
                }
                start = p.as_str().unicode_len();
            },
            None => {},
        }
        let ghost rest = path_rest(file_path@, start as int);
        assert(strip_table_prefix(file_path@, self@.prefix) == Some(rest));
        let mut i: usize = 0;
        while i < self.files.len()
            invariant
                i <= self.files@.len(),
                start <= file_path@.len(),
                rest == file_path@.subrange(start as int, file_path@.len() as int),
                strip_table_prefix(file_path@, self@.prefix) == Some(rest),
                find_from(self@.files, normalize(rest), 0) == find_from(
                    self@.files,
                    normalize(rest),
                    i as int,
                ),
            decreases self.files@.len() - i,
        {
            let f = &self.files[i];
            if matches_normalized(f.rel_path.as_str(), file_path, start) {
                return Some(copy_bytes(&f.bytes));
            }
            i = i + 1;
        }
        None
    }

    /// The names of the embedded files, each under the prefix, in index order.
    pub fn names(&self) -> (r: Vec<String>)
        ensures
            r@.map_values(|s: String| s@) == listing(self@),
    {
        let mut out: Vec<String> = Vec::new();
        let mut i: usize = 0;
        while i < self.files.len()
            invariant
                i <= self.files@.len(),
                out@.len() == i,
                forall|j: int|
                    0 <= j < i ==> (#[trigger] out@[j])@ == prefix_text(self@.prefix)
                        + self.files@[j].rel_path@,
            decreases self.files@.len() - i,
        {
            let name = match &self.prefix {
                Some(p) => p.clone().concat(self.files[i].rel_path.as_str()),
                None => self.files[i].rel_path.clone(),
            };
            out.push(name);
            i = i + 1;
        }
        assert(out@.map_values(|s: String| s@) =~= listing(self@));
        out
    }
}

/// The part of `path` from `start` on.
pub open spec fn path_rest(path: Seq<char>, start: int) -> Seq<char> {
    path.subrange(start, path.len() as int)
}

proof fn lemma_find_reaches(files: Seq<(Seq<char>, Seq<u8>)>, key: Seq<char>, i: int, j: int)
    requires
        0 <= j <= i < files.len(),
        files[i].0 == key,
        forall|k: int| 0 <= k < i ==> files[k].0 != key,
    ensures
        find_from(files, key, j) == Some(i),
    decreases i - j,
{
    if j < i {
        lemma_find_reaches(files, key, i, j + 1);
    }
}

/// Round trip: a file embedded under relative path `P`, where no earlier file
/// is known by `P`, is found under the prefix by any path that becomes `P`
/// once backslashes are turned into forward slashes, and gives its bytes.
pub proof fn lemma_round_trip(t: AssetTableModel, i: int, q: Seq<char>)
    requires
        0 <= i < t.files.len(),
        normalize(q) == t.files[i].0,
        forall|j: int| 0 <= j < i ==> t.files[j].0 != t.files[i].0,
    ensures
        lookup(t, prefix_text(t.prefix) + q) == Some(t.files[i].1),
{
    let path = prefix_text(t.prefix) + q;
    match t.prefix {
        Some(p) => {
            assert(path.subrange(0, p.len() as int) =~= p);
            assert(path.subrange(p.len() as int, path.len() as int) =~= q);
        },
        None => {
            assert(path =~= q);
        },
    }
    assert(strip_table_prefix(path, t.prefix) == Some(q));
    lemma_find_reaches(t.files, normalize(q), i, 0);
}

/// A relative path without backslashes is found by itself, under the prefix.
pub proof fn lemma_round_trip_exact(t: AssetTableModel, i: int)
    requires
        0 <= i < t.files.len(),
        forall|k: int| 0 <= k < t.files[i].0.len() ==> t.files[i].0[k] != '\\',
        forall|j: int| 0 <= j < i ==> t.files[j].0 != t.files[i].0,
    ensures
        lookup(t, prefix_text(t.prefix) + t.files[i].0) == Some(t.files[i].1),
{
    assert(normalize(t.files[i].0) =~= t.files[i].0);
    lemma_round_trip(t, i, t.files[i].0);
}

/// The name of the index document.
pub open spec fn index_document() -> Seq<char> {
    "index.html"@
}

pub open spec fn has_dot(s: Seq<char>) -> bool {
    exists|k: int| 0 <= k < s.len() && s[k] == '.'
}

/// The request path without its leading slash.
pub open spec fn request_rest(path: Seq<char>) -> Seq<char> {
    if path.len() > 0 && path[0] == '/' {
        path.drop_first()
    } else {
        path
    }
}

/// The embedded file that a `GET` of `path` is served from: a path without
/// a dot is a client-side route, and so is the root, both served the index
/// document; any other path names the file itself.
pub open spec fn serve_target(path: Seq<char>) -> Seq<char> {
    let rest = request_rest(path);
    if !has_dot(rest) {
        index_document()
    } else {
        rest
    }
}

impl AssetTable {
    /// The bytes that a `GET` of `path` is answered with by the static layers
    /// of the server.
    pub fn resolve_request(&self, path: &str) -> (r: Option<Vec<u8>>)
        ensures
            match r {
                Some(b) => lookup(self@, serve_target(path@)) == Some(b@),
                None => lookup(self@, serve_target(path@)).is_none(),
            },
    {
        let n = path.unicode_len();
        let start: usize = if n > 0 && path.get_char(0) == '/' {
            1
        } else {
            0
        };
        let rest = path.substring_char(start, n);
        assert(rest@ =~= request_rest(path@));
        let m = rest.unicode_len();
        let mut i: usize = 0;
        let mut dot = false;
        while i < m
            invariant
                m == rest@.len(),
                i <= m,
                dot == exists|k: int| 0 <= k < i && rest@[k] == '.',
            decreases m - i,
        {
            if rest.get_char(i) == '.' {
                dot = true;
            }
            i = i + 1;
        }
        if !dot {
            self.get("index.html")
        } else {
            self.get(rest)
        }
    }
}

} // verus!
