use vstd::prelude::*;
use crate::text::{decimal, push_decimal, str_eq, string_views};

verus! {

/// The PaperMC project endpoint; it lists the versions.
pub const PAPER_PROJECT_URL: &'static str = "https://api.papermc.io/v2/projects/paper";

/// The versions that the PaperMC project lists, newest first: the project endpoint lists
/// them oldest first, so the list is reversed.
pub fn paper_versions_newest_first(versions: Vec<String>) -> (r: Vec<String>)
    ensures
        string_views(r@) == string_views(versions@).reverse(),
{
    let mut versions = versions;
    let ghost orig = versions@;
    let mut r: Vec<String> = Vec::new();
    while versions.len() > 0
        invariant
            orig.len() == versions@.len() + r@.len(),
            versions@ == orig.take(versions@.len() as int),
            string_views(r@) == string_views(orig.skip(versions@.len() as int)).reverse(),
        decreases versions@.len(),
    {
        let ghost k = versions@.len();
        let ghost before = r@;
        let v = versions.pop().unwrap();
        assert(v == orig[k - 1]);
        r.push(v);
        assert(versions@ =~= orig.take(k - 1));
        assert(string_views(orig.skip(k - 1)) =~= seq![orig[k - 1]@] + string_views(orig.skip(k as int)));
        assert(string_views(r@) =~= string_views(before).push(orig[k - 1]@));
        assert(string_views(orig.skip(k - 1)).reverse() =~= string_views(orig.skip(k as int)).reverse().push(
            orig[k - 1]@,
        ));
    }
    assert(orig.skip(0) =~= orig);
    r
}

/// One download that a PaperMC build offers.
pub struct PaperDownload {
    pub name: String,
    pub sha256: String,
}

/// The newest build: the greatest build number, `None` when there is none.
pub fn latest_build(builds: &Vec<u32>) -> (r: Option<u32>)
    ensures
        builds@.len() == 0 <==> r is None,
        r matches Some(b) ==> builds@.contains(b) && forall|i: int|
            0 <= i < builds@.len() ==> builds@[i] <= b,
{
    if builds.len() == 0 {
        return None;
    }
    let mut best = builds[0];
    let mut i: usize = 1;
    while i < builds.len()
        invariant
            1 <= i <= builds@.len(),
            builds@.contains(best),
            forall|j: int| 0 <= j < i ==> builds@[j] <= best,
        decreases builds@.len() - i,
    {
        if builds[i] > best {
            best = builds[i];
            assert(builds@[i as int] == best);
        }
        i = i + 1;
    }
    Some(best)
}

/// The entry under the key `application` among a build's downloads (the first one,
/// should the key stand twice).
pub fn application_download(downloads: &Vec<(String, PaperDownload)>) -> (r: Option<
    &PaperDownload,
>)
    ensures
        r is None <==> forall|i: int|
            0 <= i < downloads@.len() ==> downloads@[i].0@ != "application"@,
        r matches Some(d) ==> exists|i: int|
            0 <= i < downloads@.len() && downloads@[i].0@ == "application"@ && d
                == &downloads@[i].1 && forall|j: int|
                0 <= j < i ==> downloads@[j].0@ != "application"@,
{
    let mut i: usize = 0;
    while i < downloads.len()
        invariant
            i <= downloads@.len(),
            forall|j: int| 0 <= j < i ==> downloads@[j].0@ != "application"@,
        decreases downloads@.len() - i,
    {
        if str_eq(downloads[i].0.as_str(), "application") {
            return Some(&downloads[i].1);
        }
        i = i + 1;
    }
    None
}

/// The endpoint that lists the builds of `version`.
pub fn paper_version_url(version: &str) -> (url: String)
    ensures
        url@ == PAPER_PROJECT_URL@ + "/versions/"@ + version@,
{
    let mut url = String::from_str(PAPER_PROJECT_URL);
    url.append("/versions/");
    url.append(version);
    url
}

/// The endpoint that describes build `build` of `version`.
pub fn paper_build_url(version: &str, build: u32) -> (url: String)
    ensures
        url@ == PAPER_PROJECT_URL@ + "/versions/"@ + version@ + "/builds/"@ + decimal(
            build as nat,
        ),
{
    let mut url = paper_version_url(version);
    url.append("/builds/");
    push_decimal(&mut url, build as u64);
    url
}

/// The address of the file `name` of the build described at `build_url`.
pub fn paper_download_url(build_url: &str, name: &str) -> (url: String)
    ensures
        url@ == build_url@ + "/downloads/"@ + name@,
{
    let mut url = String::from_str(build_url);
    url.append("/downloads/");
    url.append(name);
    url
}

} // verus!
