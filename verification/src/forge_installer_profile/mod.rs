//! The installer manifest model: two incompatible schema variants behind one
//! uniform accessor surface, chosen by a dual parse with a fixed tie-break.
use vstd::prelude::*;

pub mod v1;
pub mod v2;

verus! {

use crate::dict::Dict;
use crate::strutil::spec_split;
use self::v1::{ForgeInstallerProfileV1, ForgeLibrary};
use self::v2::{ForgeInstallerProfileV2, MojangLibrary};

/// A version descriptor shared by both schemas: identity, entry point, and the
/// libraries the target version needs. Timestamps and pass-through blocks are
/// carried as their raw text.
pub struct ForgeVersionInfo {
    pub id: String,
    pub release_type: String,
    pub time: String,
    pub release_time: String,
    pub inherits_from: Option<String>,
    pub logging: Option<String>,
    pub main_class: String,
    pub libraries: Vec<ForgeVersionLibrary>,
    pub jar: Option<String>,
    pub minecraft_arguments: String,
    pub arguments: Dict<String>,
}

/// One library entry of a version descriptor, in either schema's shape.
pub enum ForgeVersionLibrary {
    Mojang(MojangLibrary),
    Forge(ForgeLibrary),
}

impl ForgeVersionLibrary {
    /// The legacy-shaped entry, if this is one.
    pub fn to_forge(&self) -> (r: Option<&ForgeLibrary>)
        ensures
            match r {
                Some(f) => *self is Forge && *f == self->Forge_0,
                None => *self is Mojang,
            },
    {
        if let ForgeVersionLibrary::Forge(forge) = &self {
            Some(forge)
        } else {
            None
        }
    }

    /// The current-schema entry, if this is one.
    pub fn to_mojang(&self) -> (r: Option<&MojangLibrary>)
        ensures
            match r {
                Some(m) => *self is Mojang && *m == self->Mojang_0,
                None => *self is Forge,
            },
    {
        if let ForgeVersionLibrary::Mojang(mojang) = &self {
            Some(mojang)
        } else {
            None
        }
    }

    /// A legacy entry reduced to name and url: side flags, checksums and
    /// comment dropped, enabled; a current-schema entry yields nothing.
    pub fn to_forge_slim(self) -> (r: Option<ForgeVersionLibrary>)
        ensures
            match r {
                Some(l) => {
                    &&& self is Forge
                    &&& l is Forge
                    &&& l->Forge_0.name@ == self->Forge_0.name@
                    &&& l->Forge_0.url == self->Forge_0.url
                    &&& l->Forge_0.clientreq is None
                    &&& l->Forge_0.serverreq is None
                    &&& l->Forge_0.checksums@.len() == 0
                    &&& l->Forge_0.comment@.len() == 0
                    &&& l->Forge_0.enabled == true
                },
                None => self is Mojang,
            },
    {
        if let ForgeVersionLibrary::Forge(forge) = self {
            Some(
                ForgeVersionLibrary::Forge(
                    ForgeLibrary {
                        name: forge.name,
                        url: forge.url,
                        clientreq: None,
                        serverreq: None,
                        checksums: Vec::new(),
                        comment: String::new(),
                        enabled: true,
                    },
                ),
            )
        } else {
            None
        }
    }
}

/// A parsed installer manifest: exactly one of the two schema variants.
pub enum ForgeInstallerProfile {
    V1(ForgeInstallerProfileV1),
    V2(ForgeInstallerProfileV2),
}

/// The error of [`ForgeInstallerProfile::select`]: neither schema parsed.
#[derive(Debug)]
pub struct ManifestUnparseable;

impl ForgeInstallerProfile {
    /// Settles the dual parse: when both schema attempts succeeded the legacy
    /// variant wins, a deliberate tie-break; when neither did, the manifest is
    /// unparseable and the install cannot proceed.
    pub fn select(v1: Option<ForgeInstallerProfileV1>, v2: Option<ForgeInstallerProfileV2>) -> (r:
        Result<Self, ManifestUnparseable>)
        ensures
            v1 matches Some(p) ==> (r matches Ok(q) && q is V1 && q->V1_0 == p),
            (v1 is None && v2 is Some) ==> (r matches Ok(q) && q is V2 && q->V2_0 == v2->Some_0),
            r is Err <==> (v1 is None && v2 is None),
    {
        match v1 {
            Some(p) => Ok(ForgeInstallerProfile::V1(p)),
            None => match v2 {
                Some(p) => Ok(ForgeInstallerProfile::V2(p)),
                None => Err(ManifestUnparseable),
            },
        }
    }

    /// The id of the version this installer installs.
    pub fn get_version_id(&self) -> (r: String)
        ensures
            match self {
                ForgeInstallerProfile::V1(p) => r@ == p.install.target@,
                ForgeInstallerProfile::V2(p) => r@ == p.version@,
            },
    {
        match self {
            Self::V1(profile) => profile.install.target.clone(),
            Self::V2(profile) => profile.version.clone(),
        }
    }

    /// The base game version this installer builds on.
    pub fn get_minecraft(&self) -> (r: String)
        ensures
            match self {
                ForgeInstallerProfile::V1(p) => r@ == p.install.minecraft@,
                ForgeInstallerProfile::V2(p) => r@ == p.minecraft@,
            },
    {
        match self {
            Self::V1(profile) => profile.install.minecraft.clone(),
            Self::V2(profile) => profile.minecraft.clone(),
        }
    }

    /// The archive entry name of the version descriptor: the file name at the
    /// end of the current schema's json path; the legacy schema carries its
    /// descriptor inline and names no entry.
    pub fn version_json_entry_name(&self) -> (r: Option<String>)
        ensures
            match self {
                ForgeInstallerProfile::V1(_) => r is None,
                ForgeInstallerProfile::V2(p) => r matches Some(s) && s@ == spec_basename(p.json@),
            },
    {
        match self {
            Self::V1(_) => None,
            Self::V2(profile) => Some(basename(profile.json.as_str())),
        }
    }
}

/// The final `/`-separated piece of a path; the whole path when it has none.
pub open spec fn spec_basename(s: Seq<char>) -> Seq<char> {
    let parts = spec_split(s, '/');
    parts[parts.len() - 1]
}

/// The final `/`-separated piece of a path.
pub fn basename(s: &str) -> (r: String)
    ensures
        r@ == spec_basename(s@),
{
    let parts = crate::strutil::split_on(s, '/');
    proof {
        crate::strutil::lemma_spec_split_len(s@, '/');
    }
    let r = parts[parts.len() - 1].clone();
    proof {
        assert(parts@[parts@.len() - 1]@ == parts.deep_view()[parts@.len() - 1]);
    }
    r
}

} // verus!
