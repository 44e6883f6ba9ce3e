use vstd::prelude::*;
use crate::text::string_views;

verus! {

/// The FabricMC endpoint that lists the game versions, newest first.
pub const FABRIC_GAME_VERSIONS_URL: &'static str = "https://meta.fabricmc.net/v2/versions/game";

/// The FabricMC endpoint that lists the loader versions, newest first.
pub const FABRIC_LOADER_VERSIONS_URL: &'static str = "https://meta.fabricmc.net/v2/versions/loader";

/// The FabricMC endpoint that lists the installer versions, newest first.
pub const FABRIC_INSTALLER_VERSIONS_URL: &'static str = "https://meta.fabricmc.net/v2/versions/installer";

/// A game, loader or installer version as FabricMC lists it.
pub struct FabricVersion {
    pub version: String,
    pub stable: bool,
}

/// The stable versions of a list, in its order.
pub open spec fn stable_versions_of(vs: Seq<FabricVersion>) -> Seq<Seq<char>>
    decreases vs.len(),
{
    if vs.len() == 0 {
        seq![]
    } else {
        let r = stable_versions_of(vs.drop_last());
        if vs.last().stable {
            r.push(vs.last().version@)
        } else {
            r
        }
    }
}

/// Whether a listed version is stable.
pub open spec fn is_stable() -> spec_fn(FabricVersion) -> bool {
    |v: FabricVersion| v.stable
}

/// The version text of a listed version.
pub open spec fn version_text() -> spec_fn(FabricVersion) -> Seq<char> {
    |v: FabricVersion| v.version@
}

/// The stable versions are exactly the entries marked stable, in the list's order, and
/// nothing else: the list filtered by `stable`, each entry taken by its version text.
pub proof fn lemma_stable_versions_are_the_stable_entries(vs: Seq<FabricVersion>)
    ensures
        stable_versions_of(vs) == vs.filter(is_stable()).map_values(version_text()),
    decreases vs.len(),
{
    reveal(Seq::filter);
    if vs.len() > 0 {
        lemma_stable_versions_are_the_stable_entries(vs.drop_last());
        let sub = vs.drop_last().filter(is_stable());
        assert(sub.push(vs.last()).map_values(version_text()) =~= sub.map_values(
            version_text(),
        ).push(vs.last().version@));
    }
}

/// Every version listed comes from an entry marked stable.
pub proof fn lemma_stable_versions_come_from_stable_entries(vs: Seq<FabricVersion>)
    ensures
        forall|i: int|
            0 <= i < stable_versions_of(vs).len() ==> exists|j: int|
                0 <= j < vs.len() && vs[j].stable && #[trigger] stable_versions_of(vs)[i]
                    == vs[j].version@,
    decreases vs.len(),
{
    if vs.len() > 0 {
        let t = vs.drop_last();
        lemma_stable_versions_come_from_stable_entries(t);
        assert forall|i: int| 0 <= i < stable_versions_of(vs).len() implies exists|j: int|
            0 <= j < vs.len() && vs[j].stable && #[trigger] stable_versions_of(vs)[i]
                == vs[j].version@ by {
            if i < stable_versions_of(t).len() {
                let j = choose|j: int|
                    0 <= j < t.len() && t[j].stable && #[trigger] stable_versions_of(t)[i]
                        == t[j].version@;
                assert(vs[j] == t[j]);
            } else {
                assert(vs[vs.len() - 1] == vs.last());
            }
        }
    }
}

/// The stable game versions, newest first as FabricMC gives them.
pub fn stable_versions(versions: &Vec<FabricVersion>) -> (r: Vec<String>)
    ensures
        string_views(r@) == stable_versions_of(versions@),
{
    let mut r: Vec<String> = Vec::new();
    let mut i: usize = 0;
    while i < versions.len()
        invariant
            i <= versions@.len(),
            string_views(r@) == stable_versions_of(versions@.take(i as int)),
        decreases versions@.len() - i,
    {
        let ghost before = r@;
        assert(versions@.take(i + 1).drop_last() =~= versions@.take(i as int));
        assert(versions@.take(i + 1).last() == versions@[i as int]);
        if versions[i].stable {
            r.push(versions[i].version.clone());
            assert(string_views(r@) =~= string_views(before).push(versions@[i as int].version@));
        }
        i = i + 1;
    }
    assert(versions@.take(versions@.len() as int) =~= versions@);
    r
}

/// The first stable entry of a list (the newest stable one), `None` if none is stable.
pub fn first_stable(versions: &Vec<FabricVersion>) -> (r: Option<&FabricVersion>)
    ensures
        r is None <==> forall|i: int| 0 <= i < versions@.len() ==> !versions@[i].stable,
        r matches Some(v) ==> exists|i: int|
            0 <= i < versions@.len() && versions@[i].stable && v == &versions@[i] && forall|j: int|
                0 <= j < i ==> !versions@[j].stable,
{
    let mut i: usize = 0;
    while i < versions.len()
        invariant
            i <= versions@.len(),
            forall|j: int| 0 <= j < i ==> !versions@[j].stable,
        decreases versions@.len() - i,
    {
        if versions[i].stable {
            return Some(&versions[i]);
        }
        i = i + 1;
    }
    None
}

/// The address of the Fabric server jar for a game, loader and installer version.
pub fn fabric_server_jar_url(game: &str, loader: &str, installer: &str) -> (url: String)
    ensures
        url@ == FABRIC_LOADER_VERSIONS_URL@ + "/"@ + game@ + "/"@ + loader@ + "/"@ + installer@
            + "/server/jar"@,
{
    let mut url = String::from_str(FABRIC_LOADER_VERSIONS_URL);
    url.append("/");
    url.append(game);
    url.append("/");
    url.append(loader);
    url.append("/");
    url.append(installer);
    url.append("/server/jar");
    url
}

} // verus!
