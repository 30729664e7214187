//! The role a party plays in the secure computation: the publisher side or
//! the partner side. Roles parse from text case-insensitively.

use vstd::prelude::*;
use crate::text::{spec_lowered, str_eq_ignore_ascii_case};

verus! {

/// Error produced when a string names no known role; it keeps the offending
/// text so the caller can report it.
#[derive(Debug)]
pub struct ParseMPCRoleError {
    s: String,
}

impl View for ParseMPCRoleError {
    type V = Seq<char>;

    closed spec fn view(&self) -> Seq<char> {
        self.s@
    }
}

impl ParseMPCRoleError {
    pub fn new(s: &str) -> (r: ParseMPCRoleError)
        ensures
            r@ == s@,
    {
        ParseMPCRoleError { s: s.to_owned() }
    }

    /// The text that failed to parse.
    pub fn text(&self) -> (r: &str)
        ensures
            r@ == self@,
    {
        self.s.as_str()
    }
}

#[derive(Clone, Copy, Debug, PartialEq, Eq, Structural)]
pub enum MPCRole {
    Publisher,
    Partner,
}

/// The role named by `s`, compared without regard to ASCII case;
/// `None` when `s` names no role.
pub open spec fn spec_parse_role(s: Seq<char>) -> Option<MPCRole> {
    if spec_lowered(s) == "publisher"@ {
        Some(MPCRole::Publisher)
    } else if spec_lowered(s) == "partner"@ {
        Some(MPCRole::Partner)
    } else {
        None
    }
}

impl MPCRole {
    /// Parses a role name, ignoring ASCII case; unknown names are rejected
    /// with an error carrying the offending text.
    pub fn from_str(s: &str) -> (r: Result<MPCRole, ParseMPCRoleError>)
        ensures
            match r {
                Ok(role) => spec_parse_role(s@) == Some(role),
                Err(e) => spec_parse_role(s@) is None && e@ == s@,
            },
    {
        proof {
            reveal_strlit("publisher");
            reveal_strlit("partner");
        }
        if str_eq_ignore_ascii_case(s, "publisher") {
            proof {
                lemma_lower_fixed("publisher"@);
            }
            Ok(MPCRole::Publisher)
        } else if str_eq_ignore_ascii_case(s, "partner") {
            proof {
                lemma_lower_fixed("partner"@);
            }
            Ok(MPCRole::Partner)
        } else {
            proof {
                lemma_lower_fixed("publisher"@);
                lemma_lower_fixed("partner"@);
            }
            Err(ParseMPCRoleError::new(s))
        }
    }
}

/// A sequence without ASCII upper-case letters is unchanged by lower-casing.
proof fn lemma_lower_fixed(s: Seq<char>)
    requires
        forall|i: int| 0 <= i < s.len() ==> !('A' <= #[trigger] s[i] && s[i] <= 'Z'),
    ensures
        spec_lowered(s) == s,
{
    assert(spec_lowered(s) =~= s);
}

} // verus!
