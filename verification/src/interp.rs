use vstd::prelude::*;

use crate::names::{lowercase, matches_word};

verus! {

/// How the data texture is sampled when it is drawn.
#[derive(Clone, Copy, Debug, PartialEq, Eq, Structural)]
pub enum InterpMode {
    Nearest,
    Linear,
    Bicubic,
}

impl InterpMode {
    /// The mode that follows `self` in the cycle nearest → linear → bicubic → nearest.
    pub open spec fn successor(self) -> InterpMode {
        match self {
            InterpMode::Nearest => InterpMode::Linear,
            InterpMode::Linear => InterpMode::Bicubic,
            InterpMode::Bicubic => InterpMode::Nearest,
        }
    }

    /// The text shown for the mode.
    pub open spec fn label_text(self) -> Seq<char> {
        match self {
            InterpMode::Nearest => "nearest"@,
            InterpMode::Linear => "linear"@,
            InterpMode::Bicubic => "bicubic"@,
        }
    }

    /// The number the shader receives for the mode.
    pub open spec fn code(self) -> u32 {
        match self {
            InterpMode::Nearest => 0,
            InterpMode::Linear => 1,
            InterpMode::Bicubic => 2,
        }
    }

    pub fn label(self) -> (s: &'static str)
        ensures
            s@ == self.label_text(),
    {
        match self {
            InterpMode::Nearest => "nearest",
            InterpMode::Linear => "linear",
            InterpMode::Bicubic => "bicubic",
        }
    }

    pub fn next(self) -> (m: Self)
        ensures
            m == self.successor(),
    {
        match self {
            InterpMode::Nearest => InterpMode::Linear,
            InterpMode::Linear => InterpMode::Bicubic,
            InterpMode::Bicubic => InterpMode::Nearest,
        }
    }

    pub fn as_u32(self) -> (n: u32)
        ensures
            n == self.code(),
    {
        match self {
            InterpMode::Nearest => 0,
            InterpMode::Linear => 1,
            InterpMode::Bicubic => 2,
        }
    }

    /// The mode a command-line name selects: `linear`/`bilinear` and
    /// `bicubic`/`cubic` in any ASCII case; every other name selects nearest.
    pub open spec fn named(name: Seq<char>) -> InterpMode {
        let l = lowercase(name);
        if l == "linear"@ || l == "bilinear"@ {
            InterpMode::Linear
        } else if l == "bicubic"@ || l == "cubic"@ {
            InterpMode::Bicubic
        } else {
            InterpMode::Nearest
        }
    }

    pub fn from_name(name: &str) -> (m: Self)
        ensures
            m == Self::named(name@),
    {
        proof {
            reveal_strlit("linear");
            reveal_strlit("bilinear");
            reveal_strlit("bicubic");
            reveal_strlit("cubic");
        }
        if matches_word(name, "linear") || matches_word(name, "bilinear") {
            InterpMode::Linear
        } else if matches_word(name, "bicubic") || matches_word(name, "cubic") {
            InterpMode::Bicubic
        } else {
            InterpMode::Nearest
        }
    }
}

impl Default for InterpMode {
    fn default() -> (m: Self)
        ensures
            m == InterpMode::Nearest,
    {
        InterpMode::Nearest
    }
}

/// Three steps of the interpolation cycle lead back to where they started,
/// and the cycle passes through every mode.
pub proof fn interp_cycle(m: InterpMode)
    ensures
        m.successor().successor().successor() == m,
        forall|d: InterpMode|
            #![trigger d.successor()]
            d == m || d == m.successor() || d == m.successor().successor(),
{
}

/// A mode's label, given as a command-line name, selects that mode again;
/// and the codes the shader receives are distinct.
pub proof fn interp_name_round_trip(m: InterpMode)
    ensures
        InterpMode::named(m.label_text()) == m,
        forall|d: InterpMode| #[trigger] d.code() == m.code() ==> d == m,
{
    reveal_strlit("nearest");
    reveal_strlit("linear");
    reveal_strlit("bilinear");
    reveal_strlit("bicubic");
    reveal_strlit("cubic");
    let t = m.label_text();
    assert(lowercase(t) =~= t);
    assert("nearest"@[0] != "bicubic"@[0]);
}

} // verus!
