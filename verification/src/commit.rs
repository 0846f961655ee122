//! Commit ids: the names of the nodes of history.

use crate::text::chars_of;
use vstd::prelude::*;
use vstd::std_specs::cmp::PartialEqSpecImpl;
use vstd::string::*;

verus! {

/// The number of characters of a commit id.
pub const ID_LENGTH: usize = 40;

/// The number of characters of the short form of a commit id.
pub const SHORT_LENGTH: usize = 8;

/// Whether `c` is a hexadecimal digit in lower case.
pub open spec fn is_hex_digit(c: char) -> bool {
    ('0' <= c && c <= '9') || ('a' <= c && c <= 'f')
}

/// Whether `s` is the text of a commit id: forty hexadecimal digits in lower
/// case.
pub open spec fn is_id_text(s: Seq<char>) -> bool {
    s.len() == ID_LENGTH && forall|i: int| 0 <= i < s.len() ==> is_hex_digit(#[trigger] s[i])
}

/// The id of a commit. Its view is its text.
#[derive(Debug)]
pub struct CommitId {
    hex: String,
}

impl View for CommitId {
    type V = Seq<char>;

    closed spec fn view(&self) -> Seq<char> {
        self.hex@
    }
}

impl DeepView for CommitId {
    type V = Seq<char>;

    open spec fn deep_view(&self) -> Seq<char> {
        self@
    }
}

impl CommitId {
    #[verifier::type_invariant]
    spec fn well_formed(self) -> bool {
        is_id_text(self.hex@)
    }

    /// The id that `text` writes; `None` unless `text` is forty hexadecimal
    /// digits in lower case.
    pub fn from_hex(text: &str) -> (r: Option<CommitId>)
        ensures
            r is Some <==> is_id_text(text@),
            r matches Some(id) ==> id@ == text@,
    {
        let chars = chars_of(text);
        if chars.len() != ID_LENGTH {
            return None;
        }
        let mut i: usize = 0;
        while i < chars.len()
            invariant
                i <= chars.len(),
                chars@ == text@,
                forall|j: int| 0 <= j < i ==> is_hex_digit(#[trigger] chars@[j]),
            decreases chars.len() - i,
        {
            let c = chars[i];
            if !(('0' <= c && c <= '9') || ('a' <= c && c <= 'f')) {
                assert(!is_hex_digit(text@[i as int]));
                return None;
            }
            i = i + 1;
        }
        Some(CommitId { hex: text.to_owned() })
    }

    /// The text of this id: forty hexadecimal digits in lower case.
    pub fn as_str(&self) -> (r: &str)
        ensures
            r@ == self@,
            is_id_text(self@),
    {
        proof {
            use_type_invariant(self);
        }
        self.hex.as_str()
    }

    /// The short form of this id: its first eight characters.
    pub fn short(&self) -> (r: &str)
        ensures
            r@ == self@.take(SHORT_LENGTH as int),
    {
        proof {
            use_type_invariant(self);
        }
        self.hex.as_str().substring_char(0, SHORT_LENGTH)
    }
}

impl Clone for CommitId {
    fn clone(&self) -> (r: Self)
        ensures
            r@ == self@,
    {
        proof {
            use_type_invariant(self);
        }
        CommitId { hex: self.hex.clone() }
    }
}

impl PartialEq for CommitId {
    /// Tells whether the two ids have one text.
    fn eq(&self, other: &CommitId) -> (r: bool) {
        self.hex == other.hex
    }
}

impl PartialEqSpecImpl for CommitId {
    open spec fn obeys_eq_spec() -> bool {
        true
    }

    open spec fn eq_spec(&self, other: &CommitId) -> bool {
        self@ == other@
    }
}

} // verus!
