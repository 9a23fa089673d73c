use vstd::prelude::*;
use vstd::string::*;

verus! {

/// One of the two parts of a day's riddle.
#[derive(Debug, Clone, Copy, PartialEq, Eq, Structural)]
pub enum RiddlePart {
    One,
    Two,
}

impl RiddlePart {
    /// The part's name in words.
    pub open spec fn name(self) -> Seq<char> {
        match self {
            RiddlePart::One => "one"@,
            RiddlePart::Two => "two"@,
        }
    }

    /// The number under which the site knows the part.
    pub open spec fn spec_level(self) -> u8 {
        match self {
            RiddlePart::One => 1,
            RiddlePart::Two => 2,
        }
    }

    #[verifier::when_used_as_spec(spec_level)]
    pub fn level(self) -> (n: u8)
        ensures
            n == self.spec_level(),
    {
        match self {
            RiddlePart::One => 1,
            RiddlePart::Two => 2,
        }
    }

    pub fn to_string(&self) -> (s: String)
        ensures
            s@ == self.name(),
    {
        match self {
            RiddlePart::One => String::from_str("one"),
            RiddlePart::Two => String::from_str("two"),
        }
    }
}

} // verus!
