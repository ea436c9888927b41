//! The name by which a macro or an attribute is called.

use vstd::prelude::*;

verus! {

/// `PartialEq::eq` of `str`: two string slices are equal exactly when they
/// hold the same characters in the same order.
pub assume_specification[ <str as PartialEq>::eq ](a: &str, b: &str) -> (same: bool)
    ensures
        same == (a@ == b@),
;

/// A path such as `assert_eq`, `std::assert_eq` or `::std::assert_eq`: its
/// segments in order, and whether it starts with a path separator.
#[derive(Debug)]
pub struct CallableReference {
    /// The segments of the path, first to last.
    pub segments: Vec<String>,
    /// Whether the path starts with `::`.
    pub rooted: bool,
}

impl CallableReference {
    /// The segments of the path as character sequences.
    pub open spec fn names(&self) -> Seq<Seq<char>> {
        Seq::new(self.segments@.len(), |i: int| self.segments@[i]@)
    }

    /// A path of one segment that does not start with `::`.
    pub fn from_ident(name: String) -> (path: CallableReference)
        ensures
            path.names() == seq![name@],
            !path.rooted,
    {
        let mut segments: Vec<String> = Vec::new();
        segments.push(name);
        let path = CallableReference { segments, rooted: false };
        path
    }

    /// Whether the path is the single identifier `name`, with no leading
    /// separator.
    pub fn is_ident(&self, name: &str) -> (same: bool)
        ensures
            same == (!self.rooted && self.names() == seq![name@]),
    {
        if self.rooted || self.segments.len() != 1 {
            assert(seq![name@].len() == 1);
            return false;
        }
        let same = *self.segments[0].as_str() == *name;
        proof {
            if same {
                assert(self.names() =~= seq![name@]);
            } else {
                assert(self.names()[0] == self.segments@[0]@);
            }
        }
        same
    }

    /// The first segment, or `None` for a path without segments.
    pub fn first(&self) -> (name: Option<&String>)
        ensures
            self.segments@.len() == 0 ==> name is None,
            self.segments@.len() > 0 ==> name == Some(&self.segments@[0]),
    {
        if self.segments.len() == 0 {
            None
        } else {
            Some(&self.segments[0])
        }
    }

    /// The last segment, or `None` for a path without segments.
    pub fn last(&self) -> (name: Option<&String>)
        ensures
            self.segments@.len() == 0 ==> name is None,
            self.segments@.len() > 0 ==> name == Some(&self.segments@[self.segments@.len() - 1]),
    {
        let count = self.segments.len();
        if count == 0 {
            None
        } else {
            Some(&self.segments[count - 1])
        }
    }
}

} // verus!
