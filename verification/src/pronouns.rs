//! Pronoun sets used by scenario narration.

use vstd::prelude::*;

verus! {

/// The pronoun set a player goes by.  Narration only needs the object
/// pronoun, so that is the only lookup offered.
#[derive(Clone, Copy, Debug, PartialEq, Eq, Structural)]
pub enum Pronouns {
    Male,
    Female,
    Enby,
}

impl Pronouns {
    /// The object pronoun of this set, as a sequence of characters.
    pub open spec fn object_spec(self) -> Seq<char> {
        match self {
            Pronouns::Male => "him"@,
            Pronouns::Female => "her"@,
            Pronouns::Enby => "them"@,
        }
    }

    /// The object pronoun of this set ("him", "her", "them").
    pub fn object(&self) -> (r: &'static str)
        ensures
            r@ == self.object_spec(),
    {
        match self {
            Pronouns::Male => "him",
            Pronouns::Female => "her",
            Pronouns::Enby => "them",
        }
    }
}

} // verus!
