//! A generic attribute tree: the declarative mini-language read from
//! annotations, held as plain values.
use vstd::prelude::*;

verus! {

/// A literal value standing in an attribute.
pub enum Lit {
    Bool(bool),
    Str(String),
    /// An integer literal, as its base-10 digits (suffix removed), which may
    /// start with `-`.
    Int(String),
    /// Any other literal (a float, a byte string, a character).
    Other,
}

/// A path such as `foo` or `crate::handlers::foo`.
pub struct AttrPath {
    pub segments: Vec<String>,
    pub leading_colon: bool,
}

/// The mathematical value of an [`AttrPath`].
pub ghost struct AttrPathModel {
    pub segments: Seq<Seq<char>>,
    pub leading_colon: bool,
}

impl View for AttrPath {
    type V = AttrPathModel;

    open spec fn view(&self) -> AttrPathModel {
        AttrPathModel {
            segments: self.segments@.map_values(|s: String| s@),
            leading_colon: self.leading_colon,
        }
    }
}

/// One node of an attribute tree.
pub enum Meta {
    /// A bare path, such as `cors` or a handler reference.
    Path(AttrPath),
    /// `key = literal`.
    NameValue(AttrPath, Lit),
    /// `key(nested, ...)`.
    List(AttrPath, Vec<Meta>),
    /// A literal standing alone among nested items.
    Literal(Lit),
}

/// The single identifier that a path consists of, if it is one.
pub open spec fn ident_of(p: AttrPathModel) -> Option<Seq<char>> {
    if !p.leading_colon && p.segments.len() == 1 {
        Some(p.segments[0])
    } else {
        None
    }
}

/// Whether a path is exactly the identifier `key`.
pub open spec fn is_ident(p: AttrPathModel, key: Seq<char>) -> bool {
    ident_of(p) == Some(key)
}

/// Compares two strings character by character.
pub fn str_eq(a: &str, b: &str) -> (r: bool)
    ensures
        r == (a@ == b@),
{
    let n = a.unicode_len();
    let m = b.unicode_len();
    if n != m {
        return false;
    }
    let mut i: usize = 0;
    while i < n
        invariant
            n == a@.len(),
            m == b@.len(),
            n == m,
            i <= n,
            forall|j: int| 0 <= j < i ==> a@[j] == b@[j],
        decreases n - i,
    {
        if a.get_char(i) != b.get_char(i) {
            return false;
        }
        i = i + 1;
    }
    assert(a@ =~= b@);
    true
}

impl AttrPath {
    /// The path's single identifier, when it has exactly one segment and no
    /// leading `::`.
    pub fn get_ident(&self) -> (r: Option<&String>)
        ensures
            match r {
                Some(s) => ident_of(self@) == Some(s@),
                None => ident_of(self@).is_none(),
            },
    {
        if !self.leading_colon && self.segments.len() == 1 {
            Some(&self.segments[0])
        } else {
            None
        }
    }

    /// Whether the path is exactly the identifier `key`.
    pub fn is_ident(&self, key: &str) -> (r: bool)
        ensures
            r == is_ident(self@, key@),
    {
        match self.get_ident() {
            Some(s) => str_eq(s.as_str(), key),
            None => false,
        }
    }

    /// A copy of the path.
    pub fn duplicate(&self) -> (r: AttrPath)
        ensures
            r@ == self@,
    {
        let mut segments: Vec<String> = Vec::new();
        let mut i: usize = 0;
        while i < self.segments.len()
            invariant
                i <= self.segments@.len(),
                segments@.len() == i,
                forall|j: int| 0 <= j < i ==> segments@[j]@ == self.segments@[j]@,
            decreases self.segments@.len() - i,
        {
            segments.push(self.segments[i].clone());
            i = i + 1;
        }
        let r = AttrPath { segments, leading_colon: self.leading_colon };
        assert(r@.segments =~= self@.segments);
        r
    }
}

} // verus!
