//! Point queries against a fetched version index.

use vstd::prelude::*;

use crate::parser::{first_match, get_version, same_text, ApiError, MinecraftVersions, Version};

verus! {

/// The entry is a stable release.
pub open spec fn is_release(v: Version) -> bool {
    v.version_type@ == "release"@
}

/// The ids of the entries, only the stable releases when `only_stable`, in
/// index order.
pub open spec fn listed(vs: Seq<Version>, only_stable: bool) -> Seq<Seq<char>>
    decreases vs.len(),
{
    if vs.len() == 0 {
        seq![]
    } else {
        let rest = listed(vs.drop_last(), only_stable);
        if !only_stable || is_release(vs.last()) {
            rest.push(vs.last().id@)
        } else {
            rest
        }
    }
}

/// Each id followed by `", "`.
pub open spec fn joined(ids: Seq<Seq<char>>) -> Seq<char>
    decreases ids.len(),
{
    if ids.len() == 0 {
        seq![]
    } else {
        joined(ids.drop_last()) + ids.last() + ", "@
    }
}

/// The answer to "is `id` stable" against the index entries `vs`.
pub open spec fn stable_answer(vs: Seq<Version>, id: Seq<char>) -> Result<bool, ApiError> {
    match first_match(vs, id) {
        None => Err(ApiError::NotFound),
        Some(v) => Ok(is_release(v)),
    }
}

fn entry_is_release(v: &Version) -> (r: bool)
    ensures
        r == is_release(*v),
{
    same_text(v.version_type.as_str(), "release")
}

/// The ids of the index, only the stable releases when `only_stable`.
pub fn list_versions(versions: &MinecraftVersions, only_stable: bool) -> (r: Vec<String>)
    ensures
        r@.map_values(|s: String| s@) == listed(versions.versions@, only_stable),
{
    let vs = &versions.versions;
    let mut r: Vec<String> = Vec::new();
    let mut i: usize = 0;
    while i < vs.len()
        invariant
            i <= vs@.len(),
            vs == &versions.versions,
            r@.map_values(|s: String| s@) == listed(vs@.subrange(0, i as int), only_stable),
        decreases vs@.len() - i,
    {
        let ghost next = vs@.subrange(0, i + 1);
        assert(next.drop_last() =~= vs@.subrange(0, i as int));
        assert(next.last() == vs@[i as int]);
        if !only_stable || entry_is_release(&vs[i]) {
            let id = vs[i].id.clone();
            let ghost before = r@;
            r.push(id);
            assert(r@.map_values(|s: String| s@) =~= before.map_values(|s: String| s@).push(id@));
        }
        i = i + 1;
    }
    assert(vs@.subrange(0, vs@.len() as int) =~= vs@);
    r
}

/// The ids of the index as one string, each followed by `", "`, only the
/// stable releases when `only_stable`.
pub fn list_minecraft_versions_all(versions: &MinecraftVersions, only_stable: bool) -> (r: String)
    ensures
        r@ == joined(listed(versions.versions@, only_stable)),
{
    let ids = list_versions(versions, only_stable);
    let ghost view = ids@.map_values(|s: String| s@);
    let mut combined = String::new();
    let mut i: usize = 0;
    while i < ids.len()
        invariant
            i <= ids@.len(),
            view == ids@.map_values(|s: String| s@),
            combined@ == joined(view.subrange(0, i as int)),
        decreases ids@.len() - i,
    {
        let ghost next = view.subrange(0, i + 1);
        assert(next.drop_last() =~= view.subrange(0, i as int));
        combined.append(ids[i].as_str());
        combined.append(", ");
        assert(combined@ =~= joined(next));
        i = i + 1;
    }
    assert(view.subrange(0, view.len() as int) =~= view);
    combined
}

/// Whether the version `version` is a stable release; `NotFound` when the
/// index has no such id.
pub fn is_stable(versions: &MinecraftVersions, version: String) -> (r: Result<bool, ApiError>)
    ensures
        r == stable_answer(versions.versions@, version@),
{
    match get_version(versions, version) {
        None => Err(ApiError::NotFound),
        Some(v) => Ok(entry_is_release(&v)),
    }
}

/// Whether `version` is the latest release, or, unless `only_stable`, the
/// latest snapshot.
pub fn is_latest(versions: &MinecraftVersions, version: String, only_stable: bool) -> (r: bool)
    ensures
        r == (version@ == versions.latest.release@ || (!only_stable && version@
            == versions.latest.snapshot@)),
{
    if only_stable {
        return version == versions.latest.release;
    }
    version == versions.latest.release || version == versions.latest.snapshot
}

/// The entry whose descriptor a download of `version` starts from;
/// `NotFound` when the index has no such id.
pub fn download(versions: &MinecraftVersions, version: String) -> (r: Result<Version, ApiError>)
    ensures
        match first_match(versions.versions@, version@) {
            None => r == Err::<Version, ApiError>(ApiError::NotFound),
            Some(v) => r == Ok::<Version, ApiError>(v),
        },
{
    match get_version(versions, version) {
        None => Err(ApiError::NotFound),
        Some(v) => Ok(v),
    }
}

proof fn lemma_first_match_unique(vs: Seq<Version>, i: int)
    requires
        0 <= i < vs.len(),
        forall|a: int, b: int| 0 <= a < b < vs.len() ==> #[trigger] vs[a].id@ != #[trigger] vs[b].id@,
    ensures
        first_match(vs, vs[i].id@) == Some(vs[i]),
    decreases vs.len(),
{
    if i > 0 {
        let t = vs.drop_first();
        assert(vs[0].id@ != vs[i].id@);
        assert(t[i - 1] == vs[i]);
        assert forall|a: int, b: int| 0 <= a < b < t.len() implies #[trigger] t[a].id@ != #[trigger] t[b].id@ by {
            assert(t[a] == vs[a + 1] && t[b] == vs[b + 1]);
        }
        lemma_first_match_unique(t, i - 1);
    }
}

proof fn lemma_first_match_absent(vs: Seq<Version>, id: Seq<char>)
    requires
        forall|j: int| 0 <= j < vs.len() ==> (#[trigger] vs[j]).id@ != id,
    ensures
        first_match(vs, id) is None,
    decreases vs.len(),
{
    if vs.len() > 0 {
        let t = vs.drop_first();
        assert forall|j: int| 0 <= j < t.len() implies (#[trigger] t[j]).id@ != id by {
            assert(t[j] == vs[j + 1]);
        }
        lemma_first_match_absent(t, id);
    }
}

/// In an index with unique ids, each entry's id is stable exactly when the
/// entry is a release.
pub proof fn lemma_stable_iff_release(versions: MinecraftVersions, i: int)
    requires
        versions.ids_unique(),
        0 <= i < versions.versions@.len(),
    ensures
        stable_answer(versions.versions@, versions.versions@[i].id@) == Ok::<bool, ApiError>(
            versions.versions@[i].version_type@ == "release"@,
        ),
{
    lemma_first_match_unique(versions.versions@, i);
}

/// An id that no entry of the index has is `NotFound`.
pub proof fn lemma_absent_not_found(versions: MinecraftVersions, id: Seq<char>)
    requires
        forall|j: int| 0 <= j < versions.versions@.len() ==> (#[trigger] versions.versions@[j]).id@ != id,
    ensures
        stable_answer(versions.versions@, id) == Err::<bool, ApiError>(ApiError::NotFound),
{
    lemma_first_match_absent(versions.versions@, id);
}

} // verus!
