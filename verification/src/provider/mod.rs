pub mod fabric;
pub mod paper;
pub mod vanilla;

use vstd::prelude::*;
use crate::text::{ascii_lowercase, chars_equal, chars_of, lowercase_chars};

verus! {

/// Where a server jar comes from.
#[derive(PartialEq, Eq, Structural, Debug, Clone, Copy)]
pub enum GameProvider {
    Paper,
    Vanilla,
    Fabric,
}

/// The provider that a name stands for, in any ASCII case.
/// (No character outside ASCII lower-cases to a letter of these three names,
/// so this is what comparing `str::to_lowercase` with them gives.)
pub open spec fn provider_named(name: Seq<char>) -> Option<GameProvider> {
    let l = ascii_lowercase(name);
    if l == "paper"@ {
        Some(GameProvider::Paper)
    } else if l == "vanilla"@ {
        Some(GameProvider::Vanilla)
    } else if l == "fabric"@ {
        Some(GameProvider::Fabric)
    } else {
        None
    }
}

impl GameProvider {
    /// The provider called `name` (`paper`, `vanilla` or `fabric`, in any case), or `None`.
    pub fn from_str(name: &str) -> (r: Option<GameProvider>)
        ensures
            r == provider_named(name@),
    {
        let l = lowercase_chars(name);
        if chars_equal(&l, &chars_of("paper")) {
            Some(GameProvider::Paper)
        } else if chars_equal(&l, &chars_of("vanilla")) {
            Some(GameProvider::Vanilla)
        } else if chars_equal(&l, &chars_of("fabric")) {
            Some(GameProvider::Fabric)
        } else {
            None
        }
    }
}

/// The name of a provider, in small letters.
pub open spec fn provider_name(p: GameProvider) -> Seq<char> {
    match p {
        GameProvider::Paper => "paper"@,
        GameProvider::Vanilla => "vanilla"@,
        GameProvider::Fabric => "fabric"@,
    }
}

/// Every provider is found under its own name written in any ASCII case, and a name that
/// is found names the provider it was found as.
pub proof fn lemma_provider_found_by_its_name(p: GameProvider, s: Seq<char>)
    ensures
        ascii_lowercase(s) == provider_name(p) ==> provider_named(s) == Some(p),
        provider_named(s) == Some(p) ==> ascii_lowercase(s) == provider_name(p),
{
    reveal_strlit("paper");
    reveal_strlit("vanilla");
    reveal_strlit("fabric");
    assert("paper"@ != "vanilla"@) by {
        assert("paper"@.len() != "vanilla"@.len());
    }
    assert("paper"@ != "fabric"@) by {
        assert("paper"@.len() != "fabric"@.len());
    }
    assert("vanilla"@ != "fabric"@) by {
        assert("vanilla"@.len() != "fabric"@.len());
    }
}

/// Upper and lower case do not matter to the provider a name stands for.
pub proof fn lemma_provider_name_case_insensitive(a: Seq<char>, b: Seq<char>)
    requires
        ascii_lowercase(a) == ascii_lowercase(b),
    ensures
        provider_named(a) == provider_named(b),
{
}

} // verus!
