use vstd::prelude::*;

use crate::names::{lowercase, matches_word};

verus! {

/// The built-in colormaps.  Their 256-entry RGBA8 lookup tables are float
/// interpolations between colour stops and are built by the application.
#[derive(Clone, Copy, Debug, PartialEq, Eq, Structural)]
pub enum Colormap {
    Heat,
    Inferno,
    Viridis,
    RdBu,
    Grayscale,
}

impl Colormap {
    /// The colormap that follows `self` in the cycle
    /// heat → inferno → viridis → rdbu → grayscale → heat.
    pub open spec fn successor(self) -> Colormap {
        match self {
            Colormap::Heat => Colormap::Inferno,
            Colormap::Inferno => Colormap::Viridis,
            Colormap::Viridis => Colormap::RdBu,
            Colormap::RdBu => Colormap::Grayscale,
            Colormap::Grayscale => Colormap::Heat,
        }
    }

    /// The name of the colormap, as shown and as accepted on the command line.
    pub open spec fn label_text(self) -> Seq<char> {
        match self {
            Colormap::Heat => "heat"@,
            Colormap::Inferno => "inferno"@,
            Colormap::Viridis => "viridis"@,
            Colormap::RdBu => "rdbu"@,
            Colormap::Grayscale => "grayscale"@,
        }
    }

    /// The colormap a command-line name selects, in any ASCII case; an
    /// unknown name selects heat.
    pub open spec fn named(name: Seq<char>) -> Colormap {
        let l = lowercase(name);
        if l == "inferno"@ {
            Colormap::Inferno
        } else if l == "viridis"@ {
            Colormap::Viridis
        } else if l == "rdbu"@ {
            Colormap::RdBu
        } else if l == "grayscale"@ {
            Colormap::Grayscale
        } else {
            Colormap::Heat
        }
    }

    pub fn label(self) -> (s: &'static str)
        ensures
            s@ == self.label_text(),
    {
        match self {
            Colormap::Heat => "heat",
            Colormap::Inferno => "inferno",
            Colormap::Viridis => "viridis",
            Colormap::RdBu => "rdbu",
            Colormap::Grayscale => "grayscale",
        }
    }

    pub fn next(self) -> (c: Self)
        ensures
            c == self.successor(),
    {
        match self {
            Colormap::Heat => Colormap::Inferno,
            Colormap::Inferno => Colormap::Viridis,
            Colormap::Viridis => Colormap::RdBu,
            Colormap::RdBu => Colormap::Grayscale,
            Colormap::Grayscale => Colormap::Heat,
        }
    }

    pub fn from_name(name: &str) -> (c: Self)
        ensures
            c == Self::named(name@),
    {
        proof {
            reveal_strlit("inferno");
            reveal_strlit("viridis");
            reveal_strlit("rdbu");
            reveal_strlit("grayscale");
        }
        if matches_word(name, "inferno") {
            Colormap::Inferno
        } else if matches_word(name, "viridis") {
            Colormap::Viridis
        } else if matches_word(name, "rdbu") {
            Colormap::RdBu
        } else if matches_word(name, "grayscale") {
            Colormap::Grayscale
        } else {
            Colormap::Heat
        }
    }
}

impl Default for Colormap {
    fn default() -> (c: Self)
        ensures
            c == Colormap::Heat,
    {
        Colormap::Heat
    }
}

/// Five steps of the colormap cycle lead back to where they started, and the
/// cycle passes through every colormap.
pub proof fn colormap_cycle(c: Colormap)
    ensures
        c.successor().successor().successor().successor().successor() == c,
        forall|d: Colormap|
            #![trigger d.successor()]
            d == c || d == c.successor() || d == c.successor().successor()
                || d == c.successor().successor().successor()
                || d == c.successor().successor().successor().successor(),
{
}

/// A colormap's name selects that colormap again.
pub proof fn colormap_name_round_trip(c: Colormap)
    ensures
        Colormap::named(c.label_text()) == c,
{
    reveal_strlit("heat");
    reveal_strlit("inferno");
    reveal_strlit("viridis");
    reveal_strlit("rdbu");
    reveal_strlit("grayscale");
    let t = c.label_text();
    assert(lowercase(t) =~= t);
    assert("heat"@[0] != "rdbu"@[0]);
    assert("inferno"@[0] != "viridis"@[0]);
}

} // verus!
