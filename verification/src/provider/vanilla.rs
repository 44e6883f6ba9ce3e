use vstd::prelude::*;
use crate::text::{str_eq, string_views};

verus! {

/// Mojang's list of all versions, newest first.
pub const VANILLA_MANIFEST_URL: &'static str =
    "https://piston-meta.mojang.com/mc/game/version_manifest_v2.json";

/// One entry of Mojang's version manifest.
pub struct VanillaVersion {
    pub id: String,
    /// `release`, `snapshot`, `old_beta` or `old_alpha`.
    pub version_type: String,
    /// Where the version's own description lies.
    pub url: String,
}

/// The ids of the entries of type `release`, in the order of the manifest.
pub open spec fn release_ids_of(vs: Seq<VanillaVersion>) -> Seq<Seq<char>>
    decreases vs.len(),
{
    if vs.len() == 0 {
        seq![]
    } else {
        let r = release_ids_of(vs.drop_last());
        if vs.last().version_type@ == "release"@ {
            r.push(vs.last().id@)
        } else {
            r
        }
    }
}

/// Whether a manifest entry is a release.
pub open spec fn is_release() -> spec_fn(VanillaVersion) -> bool {
    |v: VanillaVersion| v.version_type@ == "release"@
}

/// The id of a manifest entry.
pub open spec fn id_text() -> spec_fn(VanillaVersion) -> Seq<char> {
    |v: VanillaVersion| v.id@
}

/// The release ids are exactly the ids of the entries of type `release`, in the manifest's
/// order: the manifest filtered by type, each entry taken by its id.
pub proof fn lemma_release_ids_are_the_releases(vs: Seq<VanillaVersion>)
    ensures
        release_ids_of(vs) == vs.filter(is_release()).map_values(id_text()),
    decreases vs.len(),
{
    reveal(Seq::filter);
    if vs.len() > 0 {
        lemma_release_ids_are_the_releases(vs.drop_last());
        let sub = vs.drop_last().filter(is_release());
        assert(sub.push(vs.last()).map_values(id_text()) =~= sub.map_values(id_text()).push(
            vs.last().id@,
        ));
    }
}

/// The release versions of a manifest, newest first as the manifest gives them.
pub fn release_ids(versions: &Vec<VanillaVersion>) -> (ids: Vec<String>)
    ensures
        string_views(ids@) == release_ids_of(versions@),
{
    let mut ids: Vec<String> = Vec::new();
    let mut i: usize = 0;
    while i < versions.len()
        invariant
            i <= versions@.len(),
            string_views(ids@) == release_ids_of(versions@.take(i as int)),
        decreases versions@.len() - i,
    {
        let ghost before = ids@;
        assert(versions@.take(i + 1).drop_last() =~= versions@.take(i as int));
        assert(versions@.take(i + 1).last() == versions@[i as int]);
        if str_eq(versions[i].version_type.as_str(), "release") {
            ids.push(versions[i].id.clone());
            assert(string_views(ids@) =~= string_views(before).push(versions@[i as int].id@));
        }
        i = i + 1;
    }
    assert(versions@.take(versions@.len() as int) =~= versions@);
    ids
}

/// The first entry whose id is `id`.
pub fn find_version<'a>(versions: &'a Vec<VanillaVersion>, id: &str) -> (r: Option<
    &'a VanillaVersion,
>)
    ensures
        r is None <==> forall|i: int| 0 <= i < versions@.len() ==> versions@[i].id@ != id@,
        r matches Some(v) ==> exists|i: int|
            0 <= i < versions@.len() && versions@[i].id@ == id@ && v == &versions@[i] && forall|
                j: int,
            |
                0 <= j < i ==> versions@[j].id@ != id@,
{
    let mut i: usize = 0;
    while i < versions.len()
        invariant
            i <= versions@.len(),
            forall|j: int| 0 <= j < i ==> versions@[j].id@ != id@,
        decreases versions@.len() - i,
    {
        if str_eq(versions[i].id.as_str(), id) {
            return Some(&versions[i]);
        }
        i = i + 1;
    }
    None
}

} // verus!
