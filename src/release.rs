//! Extraction of the embedded assets at server start: a fresh directory name
//! and, for each listed file, where it is written.
use vstd::prelude::*;
use rand::Rng;
use crate::embed::{listing, lookup, AssetTable, AssetTableModel};

verus! {

pub open spec fn is_alphanumeric(c: char) -> bool {
    ('a' <= c && c <= 'z') || ('A' <= c && c <= 'Z') || ('0' <= c && c <= '9')
}

/// Relies on rand's `Alphanumeric` distribution, sampled `len` times from the
/// thread-local generator: each sample is an ASCII letter or digit.
#[verifier::external_body]
fn random_alphanumeric(len: usize) -> (r: String)
    ensures
        r@.len() == len,
        forall|i: int| 0 <= i < r@.len() ==> is_alphanumeric(#[trigger] r@[i]),
{
    rand::thread_rng().sample_iter(&rand::distributions::Alphanumeric).take(len).map(
        char::from,
    ).collect()
}

/// The length of the random name of the extraction directory.
pub const DIR_NAME_LEN: usize = 8;

/// What extraction does for one listed file.
pub enum ReleaseAction {
    /// The listed name has no embedded file: it is reported and skipped.
    Missing { file: String },
    /// The name has no parent directory: it is reported and skipped.
    NoParent { file: String },
    /// Create `dir` (relative to the extraction directory), then write the
    /// bytes to `file`.
    Write { dir: String, file: String, bytes: Vec<u8> },
}

pub ghost enum ReleaseActionModel {
    Missing { file: Seq<char> },
    NoParent { file: Seq<char> },
    Write { dir: Seq<char>, file: Seq<char>, bytes: Seq<u8> },
}

impl View for ReleaseAction {
    type V = ReleaseActionModel;

    open spec fn view(&self) -> ReleaseActionModel {
        match self {
            ReleaseAction::Missing { file } => ReleaseActionModel::Missing { file: file@ },
            ReleaseAction::NoParent { file } => ReleaseActionModel::NoParent { file: file@ },
            ReleaseAction::Write { dir, file, bytes } => ReleaseActionModel::Write {
                dir: dir@,
                file: file@,
                bytes: bytes@,
            },
        }
    }
}

/// The index of the last `/` among the first `n` characters, if any.
pub open spec fn last_slash(s: Seq<char>, n: int) -> Option<int>
    decreases n,
{
    if 0 < n <= s.len() {
        if s[n - 1] == '/' {
            Some(n - 1)
        } else {
            last_slash(s, n - 1)
        }
    } else {
        None
    }
}

/// The parent directory of a non-empty relative path: what precedes its last
/// `/`, or nothing.
pub open spec fn parent_of(s: Seq<char>) -> Seq<char> {
    match last_slash(s, s.len() as int) {
        Some(k) => s.subrange(0, k),
        None => Seq::empty(),
    }
}

/// The parent directory of a non-empty relative path.
pub fn parent_dir(s: &str) -> (r: String)
    ensures
        r@ == parent_of(s@),
{
    let n = s.unicode_len();
    let mut i: usize = n;
    while i > 0
        invariant
            n == s@.len(),
            i <= n,
            last_slash(s@, n as int) == last_slash(s@, i as int),
        decreases i,
    {
        if s.get_char(i - 1) == '/' {
            return String::from_str(s.substring_char(0, i - 1));
        }
        i = i - 1;
    }
    String::new()
}

/// What extraction does for the listed name `name`.
pub open spec fn action_of(t: AssetTableModel, name: Seq<char>) -> ReleaseActionModel {
    match lookup(t, name) {
        None => ReleaseActionModel::Missing { file: name },
        Some(b) => if name.len() == 0 {
            ReleaseActionModel::NoParent { file: name }
        } else {
            ReleaseActionModel::Write { dir: parent_of(name), file: name, bytes: b }
        },
    }
}

/// The extraction steps, one per listed name, in listing order.
pub fn release_actions(table: &AssetTable) -> (r: Vec<ReleaseAction>)
    ensures
        r@.map_values(|a: ReleaseAction| a@) == listing(table@).map_values(
            |n: Seq<char>| action_of(table@, n),
        ),
{
    let names = table.names();
    let mut out: Vec<ReleaseAction> = Vec::new();
    let mut i: usize = 0;
    while i < names.len()
        invariant
            i <= names@.len(),
            names@.map_values(|s: String| s@) == listing(table@),
            out@.len() == i,
            forall|j: int|
                0 <= j < i ==> (#[trigger] out@[j])@ == action_of(table@, names@[j]@),
        decreases names@.len() - i,
    {
        let name = &names[i];
        assert(names@.map_values(|s: String| s@)[i as int] == name@);
        let action = match table.get(name.as_str()) {
            None => ReleaseAction::Missing { file: name.clone() },
            Some(bytes) => {
                if name.as_str().unicode_len() == 0 {
                    ReleaseAction::NoParent { file: name.clone() }
                } else {
                    ReleaseAction::Write {
                        dir: parent_dir(name.as_str()),
                        file: name.clone(),
                        bytes,
                    }
                }
            },
        };
        out.push(action);
        i = i + 1;
    }
    assert(out@.map_values(|a: ReleaseAction| a@) =~= listing(table@).map_values(
        |n: Seq<char>| action_of(table@, n),
    ));
    out
}

/// The plan of one extraction: the directory's fresh name and the steps.
pub struct ReleasePlan {
    pub dir_name: String,
    pub actions: Vec<ReleaseAction>,
}

/// Plans the extraction of the embedded assets into a fresh directory whose
/// name is eight random ASCII letters and digits.
pub fn release_asset(table: &AssetTable) -> (r: ReleasePlan)
    ensures
        r.dir_name@.len() == DIR_NAME_LEN,
        forall|i: int| 0 <= i < r.dir_name@.len() ==> is_alphanumeric(#[trigger] r.dir_name@[i]),
        r.actions@.map_values(|a: ReleaseAction| a@) == listing(table@).map_values(
            |n: Seq<char>| action_of(table@, n),
        ),
{
    let dir_name = random_alphanumeric(DIR_NAME_LEN);
    let actions = release_actions(table);
    ReleasePlan { dir_name, actions }
}

} // verus!
