//! What one client install decides without touching the disk: the directory
//! layout it writes into, and the legacy schema's version-descriptor surgery.
use vstd::prelude::*;
use vstd::string::*;

verus! {

use crate::forge_installer_profile::ForgeVersionLibrary;
use crate::forge_installer_profile::v1::{ForgeLibrary, ForgeOptional};
use crate::strutil::str_eq;

/// An installation failure reported to the caller.
#[derive(Debug)]
pub enum ForgeInstallError {
    Other(String),
}

/// The directory of one installed version: `<root>/versions/<id>`.
pub fn version_dir_path(mc_dir: &str, version_id: &str) -> (r: String)
    ensures
        r@ == mc_dir@ + "/versions/"@ + version_id@,
{
    let mut r = mc_dir.to_owned();
    r.append("/versions/");
    r.append(version_id);
    proof {
        assert(r@ =~= mc_dir@ + "/versions/"@ + version_id@);
    }
    r
}

/// The version descriptor file: `<version dir>/<id>.json`.
pub fn version_json_path(version_dir: &str, version_id: &str) -> (r: String)
    ensures
        r@ == version_dir@ + "/"@ + version_id@ + ".json"@,
{
    let mut r = version_dir.to_owned();
    r.append("/");
    r.append(version_id);
    r.append(".json");
    proof {
        assert(r@ =~= version_dir@ + "/"@ + version_id@ + ".json"@);
    }
    r
}

/// The libraries root: `<root>/libraries`.
pub fn libraries_root_path(mc_dir: &str) -> (r: String)
    ensures
        r@ == mc_dir@ + "/libraries"@,
{
    let mut r = mc_dir.to_owned();
    r.append("/libraries");
    proof {
        assert(r@ =~= mc_dir@ + "/libraries"@);
    }
    r
}

/// The base game client jar: `<versions root>/<game version>/<game version>.jar`.
pub fn client_jar_path(versions_root: &str, minecraft: &str) -> (r: String)
    ensures
        r@ == versions_root@ + "/"@ + minecraft@ + "/"@ + minecraft@ + ".jar"@,
{
    let mut r = versions_root.to_owned();
    r.append("/");
    r.append(minecraft);
    r.append("/");
    r.append(minecraft);
    r.append(".jar");
    proof {
        assert(r@ =~= versions_root@ + "/"@ + minecraft@ + "/"@ + minecraft@ + ".jar"@);
    }
    r
}

/// Where the legacy install writes the optional-mod list, if anywhere: under
/// the version directory for an `absolute` list (the game arguments must then
/// name that file), nowhere for `none`, under the game's mods directory
/// otherwise.
pub enum ModListDisposition {
    Absolute(String),
    NoList,
    ModsDir(String),
}

/// Decides the legacy optional-mod list location from the manifest's
/// `mod_list` field.
pub fn mod_list_disposition(mod_list_type: &str, mc_dir: &str, version_dir: &str) -> (r:
    ModListDisposition)
    ensures
        mod_list_type@ == "absolute"@ ==> (r matches ModListDisposition::Absolute(p) && p@
            == version_dir@ + "/mod_list.json"@),
        mod_list_type@ == "none"@ ==> r is NoList,
        (mod_list_type@ != "absolute"@ && mod_list_type@ != "none"@) ==> (r matches
            ModListDisposition::ModsDir(p) && p@ == mc_dir@ + "/mods/mod_list.json"@),
{
    proof {
        reveal_strlit("absolute");
        reveal_strlit("none");
        assert("absolute"@.len() == 8);
        assert("none"@.len() == 4);
        assert("absolute"@ != "none"@);
    }
    if str_eq(mod_list_type, "absolute") {
        let mut p = version_dir.to_owned();
        p.append("/mod_list.json");
        proof {
            assert(p@ =~= version_dir@ + "/mod_list.json"@);
        }
        ModListDisposition::Absolute(p)
    } else if str_eq(mod_list_type, "none") {
        ModListDisposition::NoList
    } else {
        let mut p = mc_dir.to_owned();
        p.append("/mods/mod_list.json");
        proof {
            assert(p@ =~= mc_dir@ + "/mods/mod_list.json"@);
        }
        ModListDisposition::ModsDir(p)
    }
}

/// That `lib` is the version-descriptor entry injected for the optional mod:
/// its artifact under its maven url, no side flags, no checksums, enabled.
pub open spec fn spec_injected_library(opt: ForgeOptional, lib: ForgeVersionLibrary) -> bool {
    &&& lib is Forge
    &&& lib->Forge_0.name@ == opt.artifact@
    &&& lib->Forge_0.url.deep_view() == Some(opt.maven@)
    &&& lib->Forge_0.clientreq is None
    &&& lib->Forge_0.serverreq is None
    &&& lib->Forge_0.checksums@.len() == 0
    &&& lib->Forge_0.comment@.len() == 0
    &&& lib->Forge_0.enabled == true
}

/// The positions of the optional mods that are enabled and ask for injection,
/// among the first `n`.
pub open spec fn spec_injected_positions(
    opts: Seq<ForgeOptional>,
    flags: Seq<bool>,
    n: int,
) -> Seq<int>
    decreases n,
{
    if n <= 0 {
        Seq::<int>::empty()
    } else {
        spec_injected_positions(opts, flags, n - 1) + (if flags[n - 1] && opts[n - 1].inject {
            seq![n - 1]
        } else {
            Seq::<int>::empty()
        })
    }
}

/// The version-descriptor entries injected for the optional mods the caller
/// enabled, in order: one legacy entry per enabled, injectable optional.
pub fn v1_injected_optionals(optionals: &Vec<ForgeOptional>, enabled: &Vec<bool>) -> (r: Vec<
    ForgeVersionLibrary,
>)
    requires
        enabled@.len() == optionals@.len(),
    ensures
        ({
            let pos = spec_injected_positions(optionals@, enabled@, optionals@.len() as int);
            &&& r@.len() == pos.len()
            &&& forall|k: int|
                0 <= k < pos.len() ==> spec_injected_library(
                    optionals@[pos[k]],
                    #[trigger] r@[k],
                )
        }),
{
    let mut r: Vec<ForgeVersionLibrary> = Vec::new();
    let n = optionals.len();
    let mut i: usize = 0;
    while i < n
        invariant
            n == optionals@.len(),
            enabled@.len() == n,
            i <= n,
            r@.len() == spec_injected_positions(optionals@, enabled@, i as int).len(),
            forall|k: int|
                0 <= k < r@.len() ==> spec_injected_library(
                    optionals@[spec_injected_positions(optionals@, enabled@, i as int)[k]],
                    #[trigger] r@[k],
                ),
        decreases n - i,
    {
        if enabled[i] && optionals[i].inject {
            r.push(
                ForgeVersionLibrary::Forge(
                    ForgeLibrary {
                        name: optionals[i].artifact.clone(),
                        url: Some(optionals[i].maven.clone()),
                        serverreq: None,
                        clientreq: None,
                        checksums: Vec::new(),
                        comment: String::new(),
                        enabled: true,
                    },
                ),
            );
        }
        i = i + 1;
    }
    r
}

/// The positions of the legacy entries among the first `n` libraries.
pub open spec fn spec_forge_positions(libs: Seq<ForgeVersionLibrary>, n: int) -> Seq<int>
    decreases n,
{
    if n <= 0 {
        Seq::<int>::empty()
    } else {
        spec_forge_positions(libs, n - 1) + (if libs[n - 1] is Forge {
            seq![n - 1]
        } else {
            Seq::<int>::empty()
        })
    }
}

/// That `out` is `lib` slimmed: the same name and url, side flags, checksums
/// and comment dropped, enabled.
pub open spec fn spec_slimmed(lib: ForgeVersionLibrary, out: ForgeVersionLibrary) -> bool {
    &&& lib is Forge
    &&& out is Forge
    &&& out->Forge_0.name@ == lib->Forge_0.name@
    &&& out->Forge_0.url == lib->Forge_0.url
    &&& out->Forge_0.clientreq is None
    &&& out->Forge_0.serverreq is None
    &&& out->Forge_0.checksums@.len() == 0
    &&& out->Forge_0.comment@.len() == 0
    &&& out->Forge_0.enabled == true
}

/// The legacy entries of a version descriptor, each slimmed to name and url;
/// the current-schema entries are dropped, as the legacy install writes only
/// legacy-shaped entries back.
pub fn v1_slim_libraries(libs: Vec<ForgeVersionLibrary>) -> (r: Vec<ForgeVersionLibrary>)
    ensures
        ({
            let ghost_libs = libs@;
            let pos = spec_forge_positions(ghost_libs, ghost_libs.len() as int);
            &&& r@.len() == pos.len()
            &&& forall|k: int|
                0 <= k < pos.len() ==> spec_slimmed(ghost_libs[pos[k]], #[trigger] r@[k])
        }),
{
    let ghost orig = libs@;
    let mut r: Vec<ForgeVersionLibrary> = Vec::new();
    let mut rest = libs;
    let n = rest.len();
    let mut i: usize = 0;
    while i < n
        invariant
            n == orig.len(),
            rest@ =~= orig.skip(i as int),
            i <= n,
            r@.len() == spec_forge_positions(orig, i as int).len(),
            forall|k: int|
                0 <= k < r@.len() ==> spec_slimmed(
                    orig[spec_forge_positions(orig, i as int)[k]],
                    #[trigger] r@[k],
                ),
        decreases n - i,
    {
        let lib = rest.remove(0);
        proof {
            assert(lib == orig[i as int]);
            assert(rest@ =~= orig.skip(i + 1 as int));
        }
        match lib.to_forge_slim() {
            Some(slim) => {
                r.push(slim);
            },
            None => {},
        }
        i = i + 1;
    }
    r
}

} // verus!
