//! Distribution loaders and where each one's server starts from.

use vstd::prelude::*;

verus! {

pub struct Vanilla;

pub struct Fabric;

pub struct Forge;

pub struct Neoforge;

/// The distribution loaders.
pub enum Loader {
    Vanilla(Vanilla),
    Fabric(Fabric),
    Forge(Forge),
    Neoforge(Neoforge),
}

/// The installation step of a loader.
pub trait Distro {
    fn install();
}

impl Distro for Vanilla {
    fn install() {
    }
}

impl Distro for Fabric {
    fn install() {
    }
}

impl Distro for Forge {
    fn install() {
    }
}

impl Distro for Neoforge {
    fn install() {
    }
}

/// Whether `get_main_url` knows where this loader starts from: the vanilla
/// index, or a Fabric server jar given both versions.
pub open spec fn main_url_known(
    loader: Loader,
    loader_ver: Option<String>,
    installer_ver: Option<String>,
) -> bool {
    match loader {
        Loader::Vanilla(_) => true,
        Loader::Fabric(_) => loader_ver is Some && installer_ver is Some,
        _ => false,
    }
}

/// The Fabric server jar URL for the three versions.
pub open spec fn fabric_url(mc: Seq<char>, loader: Seq<char>, installer: Seq<char>) -> Seq<char> {
    "https://meta.fabricmc.net/v2/versions/loader/"@ + mc + "/"@ + loader + "/"@ + installer
        + "/server/jar"@
}

/// The document a loader's installation starts from: the version index for
/// vanilla, the server jar for Fabric.
pub fn get_main_url(
    loader: Loader,
    loader_ver: Option<String>,
    installer_ver: Option<String>,
    minecraft_ver: String,
) -> (r: String)
    requires
        main_url_known(loader, loader_ver, installer_ver),
    ensures
        loader is Vanilla ==> r@ == "https://piston-meta.mojang.com/mc/game/version_manifest_v2.json"@,
        loader is Fabric ==> r@ == fabric_url(
            minecraft_ver@,
            loader_ver.unwrap()@,
            installer_ver.unwrap()@,
        ),
{
    match loader {
        Loader::Fabric(_) => {
            let lv = loader_ver.unwrap();
            let iv = installer_ver.unwrap();
            String::from_str("https://meta.fabricmc.net/v2/versions/loader/").concat(
                minecraft_ver.as_str(),
            ).concat("/").concat(lv.as_str()).concat("/").concat(iv.as_str()).concat("/server/jar")
        },
        _ => String::from_str("https://piston-meta.mojang.com/mc/game/version_manifest_v2.json"),
    }
}

} // verus!
