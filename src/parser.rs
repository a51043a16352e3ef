//! The version index, version descriptors, platform rules and the resolver
//! that turns a descriptor into a download plan.

use vstd::prelude::*;

use crate::download::{target_view, Libraries, Library as Target, Server};

verus! {

/// The "current" pointers of the version index.
pub struct Latest {
    pub release: String,
    pub snapshot: String,
}

/// One entry of the version index.
pub struct Version {
    pub id: String,
    /// `"release"`, `"snapshot"` or an older kind.
    pub version_type: String,
    /// Where this version's descriptor document lives.
    pub url: String,
}

/// The decoded version index.
pub struct MinecraftVersions {
    pub latest: Latest,
    pub versions: Vec<Version>,
}

/// A platform rule of a library: `os` is the operating system it targets,
/// `None` meaning any.
pub struct Rule {
    pub action: String,
    pub os: Option<String>,
}

/// A library as a version descriptor lists it.
pub struct Library {
    pub name: String,
    /// Path of the artifact, relative to the libraries directory.
    pub path: String,
    pub url: String,
    pub rules: Option<Vec<Rule>>,
}

/// The decoded descriptor of one version.
pub struct VersionData {
    pub server_url: String,
    pub java_major: i32,
    pub libraries: Vec<Library>,
}

/// The platform name as rules spell it: `macos` is written `osx`.
pub open spec fn normalize_platform(platform: Seq<char>) -> Seq<char> {
    if platform == "macos"@ {
        "osx"@
    } else {
        platform
    }
}

/// Whether a single rule admits the platform.
pub open spec fn rule_applies(rule: Rule, platform: Seq<char>) -> bool {
    match rule.os {
        None => true,
        Some(os) => os@ == normalize_platform(platform),
    }
}

/// The rules of a library, as a sequence.
pub open spec fn rules_view(rules: Option<Vec<Rule>>) -> Option<Seq<Rule>> {
    match rules {
        None => None,
        Some(v) => Some(v@),
    }
}

/// Whether a library with these rules is fetched on the platform: only the
/// first rule is consulted.
pub open spec fn applies(rules: Option<Seq<Rule>>, platform: Seq<char>) -> bool {
    match rules {
        None => true,
        Some(rs) => rs.len() == 0 || rule_applies(rs[0], platform),
    }
}

pub(crate) fn same_text(a: &str, b: &str) -> (r: bool)
    ensures
        r == (a@ == b@),
{
    String::from_str(a) == String::from_str(b)
}

impl Version {
    /// Whether a rule naming `os` admits `current_os`, after spelling `macos`
    /// as `osx`.
    pub fn should_apply(os: &str, current_os: &str) -> (r: bool)
        ensures
            r == (os@ == normalize_platform(current_os@)),
    {
        if same_text(current_os, "macos") {
            same_text(os, "osx")
        } else {
            same_text(os, current_os)
        }
    }
}

/// Whether a library with `rules` is fetched on `platform`.
pub fn is_applicable(rules: &Option<Vec<Rule>>, platform: &str) -> (r: bool)
    ensures
        r == applies(rules_view(*rules), platform@),
{
    match rules {
        None => true,
        Some(rs) => {
            if rs.len() == 0 {
                true
            } else {
                match &rs[0].os {
                    None => true,
                    Some(os) => Version::should_apply(os.as_str(), platform),
                }
            }
        }
    }
}

/// A version id made filesystem-friendly: every `.` becomes `_`.
pub open spec fn sanitize(id: Seq<char>) -> Seq<char> {
    Seq::new(id.len(), |i: int| if id[i] == '.' { '_' } else { id[i] })
}

/// A `..` segment starts at index `i` of the path.
pub open spec fn parent_segment_at(p: Seq<char>, i: int) -> bool {
    &&& 0 <= i
    &&& i + 1 < p.len()
    &&& p[i] == '.'
    &&& p[i + 1] == '.'
    &&& (i == 0 || p[i - 1] == '/')
    &&& (i + 2 == p.len() || p[i + 2] == '/')
}

/// A manifest-supplied path that stays inside the directory it is joined to:
/// not empty, not absolute, with no `..` segment.
pub open spec fn stays_inside(p: Seq<char>) -> bool {
    &&& p.len() > 0
    &&& p[0] != '/'
    &&& forall|i: int| !parent_segment_at(p, i)
}

/// The target of a library: its artifact under the libraries directory.
pub open spec fn library_target(l: Library) -> (Seq<char>, Seq<char>) {
    ("download/libraries/"@ + l.path@, l.url@)
}

/// The targets of the libraries that apply on the platform, in their order.
pub open spec fn planned(libs: Seq<Library>, platform: Seq<char>) -> Seq<(Seq<char>, Seq<char>)>
    decreases libs.len(),
{
    if libs.len() == 0 {
        seq![]
    } else {
        let rest = planned(libs.drop_last(), platform);
        if applies(rules_view(libs.last().rules), platform) {
            rest.push(library_target(libs.last()))
        } else {
            rest
        }
    }
}

/// Some library that applies on the platform has a path that would leave
/// the libraries directory.
pub open spec fn has_escaping_path(libs: Seq<Library>, platform: Seq<char>) -> bool {
    exists|i: int|
        0 <= i < libs.len() && applies(rules_view(#[trigger] libs[i].rules), platform)
            && !stays_inside(libs[i].path@)
}

/// The version's directory under the download root.
pub open spec fn version_dir(id: Seq<char>) -> Seq<char> {
    "download/"@ + sanitize(id)
}

/// Replaces every `.` of a version id by `_`.
pub fn sanitize_version_id(id: &str) -> (r: String)
    ensures
        r@ == sanitize(id@),
{
    let n = id.unicode_len();
    let mut out = String::new();
    let mut i: usize = 0;
    while i < n
        invariant
            n == id@.len(),
            i <= n,
            out@ =~= sanitize(id@).subrange(0, i as int),
        decreases n - i,
    {
        let c = id.get_char(i);
        let ghost before = out@;
        if c == '.' {
            proof {
                reveal_strlit("_");
            }
            assert("_"@ =~= seq!['_']);
            out.append("_");
        } else {
            let one = id.substring_char(i, i + 1);
            assert(one@ =~= seq![c]);
            out.append(one);
        }
        assert(sanitize(id@).subrange(0, i + 1) =~= sanitize(id@).subrange(0, i as int).push(
            sanitize(id@)[i as int],
        ));
        i = i + 1;
    }
    out
}

/// Whether a manifest-supplied relative path stays inside its directory.
pub fn path_stays_inside(p: &str) -> (r: bool)
    ensures
        r == stays_inside(p@),
{
    let n = p.unicode_len();
    if n == 0 || p.get_char(0) == '/' {
        return false;
    }
    let mut i: usize = 0;
    while i + 1 < n
        invariant
            n == p@.len(),
            n > 0,
            i < n,
            forall|j: int| 0 <= j < i ==> !parent_segment_at(p@, j),
        decreases n - i,
    {
        if p.get_char(i) == '.' && p.get_char(i + 1) == '.' && (i == 0 || p.get_char(i - 1) == '/')
            && (i + 2 == n || p.get_char(i + 2) == '/') {
            assert(parent_segment_at(p@, i as int));
            return false;
        }
        i = i + 1;
    }
    assert forall|j: int| !parent_segment_at(p@, j) by {
        if 0 <= j < i {
        }
    }
    true
}

/// Errors of the version queries and the resolver.
pub enum ApiError {
    /// No entry of the index has the requested id.
    NotFound,
    /// A library path of the descriptor would leave the download root.
    UnsafePath,
    /// A remote document could not be fetched.
    Network(String),
    /// A remote document could not be decoded.
    Decode(String),
    /// A file or directory could not be written.
    Filesystem(String),
}

/// `r` is what resolving version `id` with descriptor `data` on `platform`
/// gives: `UnsafePath` exactly when an applicable library's path would leave
/// the download root, else the plan of the server jar and the applicable
/// libraries.
pub open spec fn is_plan_of(
    r: Result<Server, ApiError>,
    id: Seq<char>,
    data: VersionData,
    platform: Seq<char>,
) -> bool {
    match r {
        Err(e) => e == ApiError::UnsafePath && has_escaping_path(data.libraries@, platform),
        Ok(s) => {
            &&& !has_escaping_path(data.libraries@, platform)
            &&& s.path@ == version_dir(id)
            &&& s.url@ == data.server_url@
            &&& s.libraries.view() == planned(data.libraries@, platform)
        },
    }
}

/// Turns a version's descriptor into its download plan on `platform`: the
/// server jar under `download/<sanitized id>/`, and each library that applies
/// under `download/libraries/`.
pub fn resolve(id: &str, data: &VersionData, platform: &str) -> (r: Result<Server, ApiError>)
    ensures
        is_plan_of(r, id@, *data, platform@),
{
    let libs = &data.libraries;
    let mut targets: Vec<Target> = Vec::new();
    let mut i: usize = 0;
    while i < libs.len()
        invariant
            i <= libs@.len(),
            libs == &data.libraries,
            targets@.map_values(|t: Target| target_view(t)) == planned(libs@.subrange(0, i as int), platform@),
            !has_escaping_path(libs@.subrange(0, i as int), platform@),
        decreases libs@.len() - i,
    {
        let lib = &libs[i];
        let ghost front = libs@.subrange(0, i as int);
        let ghost next = libs@.subrange(0, i + 1);
        assert(next.drop_last() =~= front);
        assert(next.last() == libs@[i as int]);
        if is_applicable(&lib.rules, platform) {
            if !path_stays_inside(lib.path.as_str()) {
                assert(has_escaping_path(libs@, platform@)) by {
                    assert(libs@[i as int] == lib);
                }
                return Err(ApiError::UnsafePath);
            }
            let t = Target {
                path: String::from_str("download/libraries/").concat(lib.path.as_str()),
                url: lib.url.clone(),
            };
            let ghost before = targets@;
            targets.push(t);
            assert(targets@.map_values(|t: Target| target_view(t)) =~= before.map_values(
                |t: Target| target_view(t),
            ).push(target_view(t)));
        }
        assert(!has_escaping_path(next, platform@)) by {
            assert forall|j: int| 0 <= j < next.len() implies !(applies(rules_view(#[trigger] next[j].rules), platform@)
                && !stays_inside(next[j].path@)) by {
                if j < i {
                    assert(next[j] == front[j]);
                }
            }
        }
        i = i + 1;
    }
    assert(libs@.subrange(0, libs@.len() as int) =~= libs@);
    let dir = String::from_str("download/").concat(sanitize_version_id(id).as_str());
    Ok(Server { path: dir, url: data.server_url.clone(), libraries: Libraries { libraries: targets } })
}

impl Version {
    /// The download plan of this version on `platform`, from its descriptor.
    pub fn download_server(&self, data: &VersionData, platform: &str) -> (r: Result<Server, ApiError>)
        ensures
            is_plan_of(r, self.id@, *data, platform@),
    {
        resolve(self.id.as_str(), data, platform)
    }
}

/// The first entry of `vs` whose id is `id`.
pub open spec fn first_match(vs: Seq<Version>, id: Seq<char>) -> Option<Version>
    decreases vs.len(),
{
    if vs.len() == 0 {
        None
    } else if vs[0].id@ == id {
        Some(vs[0])
    } else {
        first_match(vs.drop_first(), id)
    }
}

impl MinecraftVersions {
    /// No two entries share an id.
    pub open spec fn ids_unique(&self) -> bool {
        forall|i: int, j: int|
            0 <= i < j < self.versions@.len() ==> #[trigger] self.versions@[i].id@
                != #[trigger] self.versions@[j].id@
    }

    /// Whether no two entries share an id.
    pub fn has_unique_ids(&self) -> (r: bool)
        ensures
            r == self.ids_unique(),
    {
        let vs = &self.versions;
        let mut j: usize = 0;
        while j < vs.len()
            invariant
                j <= vs@.len(),
                vs == &self.versions,
                forall|a: int, b: int| 0 <= a < b < j ==> #[trigger] vs@[a].id@ != #[trigger] vs@[b].id@,
            decreases vs@.len() - j,
        {
            let mut i: usize = 0;
            while i < j
                invariant
                    i <= j < vs@.len(),
                    vs == &self.versions,
                    forall|a: int, b: int| 0 <= a < b < j ==> #[trigger] vs@[a].id@ != #[trigger] vs@[b].id@,
                    forall|a: int| 0 <= a < i ==> #[trigger] vs@[a].id@ != vs@[j as int].id@,
                decreases j - i,
            {
                if vs[i].id == vs[j].id {
                    return false;
                }
                i = i + 1;
            }
            j = j + 1;
        }
        true
    }
}

fn copy_version(v: &Version) -> (r: Version)
    ensures
        r == *v,
{
    Version { id: v.id.clone(), version_type: v.version_type.clone(), url: v.url.clone() }
}

/// The entry of the index with id `mc_version`, the first if several share it.
pub fn get_version(versions: &MinecraftVersions, mc_version: String) -> (r: Option<Version>)
    ensures
        r == first_match(versions.versions@, mc_version@),
{
    let vs = &versions.versions;
    let mut i: usize = 0;
    assert(vs@.subrange(0, vs@.len() as int) =~= vs@);
    while i < vs.len()
        invariant
            i <= vs@.len(),
            vs == &versions.versions,
            first_match(vs@, mc_version@) == first_match(vs@.subrange(i as int, vs@.len() as int), mc_version@),
        decreases vs@.len() - i,
    {
        let ghost rest = vs@.subrange(i as int, vs@.len() as int);
        assert(rest[0] == vs@[i as int]);
        assert(rest.drop_first() =~= vs@.subrange(i + 1, vs@.len() as int));
        if vs[i].id == mc_version {
            return Some(copy_version(&vs[i]));
        }
        i = i + 1;
    }
    None
}

/// The index's latest release and snapshot.
pub fn get_latest_versions(versions: &MinecraftVersions) -> (r: Latest)
    ensures
        r == versions.latest,
{
    Latest { release: versions.latest.release.clone(), snapshot: versions.latest.snapshot.clone() }
}

/// Applicability is a function of the rules and the platform alone: the same
/// pair always gives the same answer.
pub proof fn lemma_applicability_depends_on_inputs(
    rules_a: Option<Seq<Rule>>,
    rules_b: Option<Seq<Rule>>,
    platform_a: Seq<char>,
    platform_b: Seq<char>,
)
    requires
        rules_a == rules_b,
        platform_a == platform_b,
    ensures
        applies(rules_a, platform_a) == applies(rules_b, platform_b),
{
}

/// A library without rules applies on every platform.
pub proof fn lemma_no_rules_applies(platform: Seq<char>)
    ensures
        applies(None, platform),
        applies(Some(Seq::<Rule>::empty()), platform),
{
}

/// A library whose sole rule targets `osx` applies exactly on `macos` and on
/// `osx`, so not on `linux` nor on `windows`.
pub proof fn lemma_osx_rule(rule: Rule, platform: Seq<char>)
    requires
        rule.os matches Some(os) && os@ == "osx"@,
    ensures
        applies(Some(seq![rule]), platform) <==> (platform == "macos"@ || platform == "osx"@),
        !applies(Some(seq![rule]), "linux"@),
        !applies(Some(seq![rule]), "windows"@),
{
    reveal_strlit("osx");
    reveal_strlit("macos");
    reveal_strlit("linux");
    reveal_strlit("windows");
    assert("linux"@[0] != "macos"@[0]);
    assert("linux"@[0] != "osx"@[0]);
    assert("windows"@.len() != "macos"@.len());
    assert("windows"@.len() != "osx"@.len());
}

/// Libraries without rules are all planned, in their number.
pub proof fn lemma_unconditional_all_planned(libs: Seq<Library>, platform: Seq<char>)
    requires
        forall|i: int| 0 <= i < libs.len() ==> (#[trigger] libs[i]).rules is None,
    ensures
        planned(libs, platform).len() == libs.len(),
    decreases libs.len(),
{
    if libs.len() > 0 {
        let t = libs.drop_last();
        assert forall|i: int| 0 <= i < t.len() implies (#[trigger] t[i]).rules is None by {
            assert(t[i] == libs[i]);
        }
        lemma_unconditional_all_planned(t, platform);
    }
}

/// A descriptor with `N` libraries, none with rules and all with paths inside
/// the libraries directory, resolves to a plan of exactly `N + 1` targets.
pub proof fn lemma_unconditional_target_count(
    r: Result<Server, ApiError>,
    id: Seq<char>,
    data: VersionData,
    platform: Seq<char>,
)
    requires
        is_plan_of(r, id, data, platform),
        forall|i: int| 0 <= i < data.libraries@.len() ==> (#[trigger] data.libraries@[i]).rules is None,
        forall|i: int| 0 <= i < data.libraries@.len() ==> stays_inside(#[trigger] data.libraries@[i].path@),
    ensures
        r matches Ok(s) && s.target_views().len() == data.libraries@.len() + 1,
{
    lemma_unconditional_all_planned(data.libraries@, platform);
    assert(!has_escaping_path(data.libraries@, platform));
}

} // verus!
