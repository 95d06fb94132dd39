use crate::text::str_equal;
use vstd::prelude::*;

verus! {

/// A structured content type: a (type, subtype) pair such as `video/mp4`.
pub struct MimeType {
    pub type_: String,
    pub subtype: String,
}

/// The fixed allow-list: `video/mp4` and `video/mpeg`.
pub open spec fn spec_admitted(t: Seq<char>, s: Seq<char>) -> bool {
    t == "video"@ && (s == "mp4"@ || s == "mpeg"@)
}

impl MimeType {
    pub fn new(type_: String, subtype: String) -> (m: MimeType)
        ensures
            m.type_@ == type_@,
            m.subtype@ == subtype@,
    {
        MimeType { type_, subtype }
    }

    /// Whether this content type is on the allow-list.
    pub open spec fn admitted(self) -> bool {
        spec_admitted(self.type_@, self.subtype@)
    }

    /// Decides admission against the allow-list; absence is rejection, never
    /// an error.
    pub fn is_admitted(&self) -> (r: bool)
        ensures
            r == self.admitted(),
    {
        str_equal(self.type_.as_str(), "video") && (str_equal(self.subtype.as_str(), "mp4")
            || str_equal(self.subtype.as_str(), "mpeg"))
    }

    /// Whether two content types are the same pair.
    pub open spec fn same_mime(self, other: MimeType) -> bool {
        self.type_@ == other.type_@ && self.subtype@ == other.subtype@
    }

    pub fn duplicate(&self) -> (m: MimeType)
        ensures
            m == *self,
    {
        MimeType { type_: self.type_.clone(), subtype: self.subtype.clone() }
    }
}

} // verus!
