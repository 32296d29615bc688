//! The legacy installer manifest schema: install section, plain library
//! entries with optional side requirements, and optional (toggleable) mods.
use vstd::prelude::*;

verus! {

use crate::Artifact;
use crate::Sha1Sum;
use super::{ForgeVersionInfo, ForgeVersionLibrary};
use crate::strutil::str_eq;

/// A library requirement of the legacy schema.
pub struct ForgeLibrary {
    pub name: Artifact,
    pub url: Option<String>,
    pub serverreq: Option<bool>,
    pub clientreq: Option<bool>,
    pub checksums: Vec<Sha1Sum>,
    pub comment: String,
    pub enabled: bool,
}

/// An optional, user-toggleable mod entry of the legacy schema.
pub struct ForgeOptional {
    pub name: String,
    pub client: bool,
    pub server: bool,
    pub default: bool,
    pub inject: bool,
    pub desc: String,
    pub url: String,
    pub artifact: Artifact,
    pub maven: String,
}

/// The legacy manifest's install section.
pub struct InstallSectionV1 {
    pub profile_name: String,
    pub target: String,
    pub path: Artifact,
    pub version: String,
    pub file_path: String,
    pub welcome: String,
    pub minecraft: String,
    pub logo: String,
    pub mirror_list: Option<String>,
    pub mod_list: String,
    pub strip_meta: Option<bool>,
}

/// A whole legacy manifest.
pub struct ForgeInstallerProfileV1 {
    pub install: InstallSectionV1,
    pub version_info: ForgeVersionInfo,
    pub optionals: Vec<ForgeOptional>,
}

/// Field-for-field agreement of two library entries, texts compared by view.
pub open spec fn spec_lib_eqv(a: ForgeLibrary, b: ForgeLibrary) -> bool {
    &&& a.name@ == b.name@
    &&& a.url.deep_view() == b.url.deep_view()
    &&& a.serverreq == b.serverreq
    &&& a.clientreq == b.clientreq
    &&& a.checksums.deep_view() == b.checksums.deep_view()
    &&& a.comment@ == b.comment@
    &&& a.enabled == b.enabled
}

impl Clone for ForgeLibrary {
    fn clone(&self) -> (r: Self)
        ensures
            spec_lib_eqv(r, *self),
    {
        let r = ForgeLibrary {
            name: self.name.clone(),
            url: match &self.url {
                Some(u) => Some(u.clone()),
                None => None,
            },
            serverreq: self.serverreq,
            clientreq: self.clientreq,
            checksums: self.checksums.clone(),
            comment: self.comment.clone(),
            enabled: self.enabled,
        };
        proof {
            assert(r.checksums.deep_view() =~= self.checksums.deep_view());
        }
        r
    }
}

/// Whether a library entry is required on the given side, `clientreq` or any
/// other marker meaning the server side; an absent flag means not required.
pub open spec fn spec_is_side(lib: ForgeLibrary, side: Seq<char>) -> bool {
    if side == "clientreq"@ {
        match lib.clientreq {
            Some(b) => b,
            None => false,
        }
    } else {
        match lib.serverreq {
            Some(b) => b,
            None => false,
        }
    }
}

/// The library entry that stands for an optional mod: its artifact and url,
/// required on the side named by `marker`, with the given enablement.
pub open spec fn spec_optional_library(
    opt: ForgeOptional,
    marker: Seq<char>,
    enabled: bool,
    lib: ForgeLibrary,
) -> bool {
    &&& lib.name@ == opt.artifact@
    &&& lib.url.deep_view() == Some(opt.url@)
    &&& lib.clientreq == (if marker == "clientreq"@ {
        Some(true)
    } else {
        None::<bool>
    })
    &&& lib.serverreq == (if marker == "clientreq"@ {
        None::<bool>
    } else {
        Some(true)
    })
    &&& lib.checksums@.len() == 0
    &&& lib.comment@.len() == 0
    &&& lib.enabled == enabled
}

impl ForgeLibrary {
    /// The library entry standing for an optional mod, required on the side
    /// named by `marker` and enabled.
    pub fn new(lib: &ForgeOptional, marker: &str) -> (r: Self)
        ensures
            spec_optional_library(*lib, marker@, true, r),
    {
        let mut serverreq: Option<bool> = None;
        let mut clientreq: Option<bool> = None;
        if str_eq(marker, "clientreq") {
            clientreq = Some(true);
        } else {
            serverreq = Some(true);
        }
        ForgeLibrary {
            name: lib.artifact.clone(),
            clientreq,
            serverreq,
            url: Some(lib.url.clone()),
            checksums: Vec::new(),
            comment: String::new(),
            enabled: true,
        }
    }

    /// The base url to fetch this library from: its own url with a trailing
    /// slash, or the default library mirror.
    pub fn get_url(&self) -> (r: String)
        ensures
            match self.url {
                Some(_) => r@ == self.url.deep_view()->Some_0 + seq!['/'],
                None => r@ == "https://libraries.minecraft.net/"@,
            },
    {
        if let Some(url) = &self.url {
            let mut r = url.clone();
            r.append("/");
            proof {
                reveal_strlit("/");
                assert(r@ =~= self.url.deep_view()->Some_0 + seq!['/']);
            }
            r
        } else {
            String::from_str("https://libraries.minecraft.net/")
        }
    }

    /// Whether this library is required on the given side.
    pub fn is_side(&self, side: &str) -> (r: bool)
        ensures
            r == spec_is_side(*self, side@),
    {
        if str_eq(side, "clientreq") {
            match self.clientreq {
                Some(b) => b,
                None => false,
            }
        } else {
            match self.serverreq {
                Some(b) => b,
                None => false,
            }
        }
    }

    /// A library entry is enabled unless something disables it.
    pub fn enabled_by_default() -> (r: bool)
        ensures
            r == true,
    {
        true
    }
}

/// The side-required libraries of a legacy manifest: the legacy entries of the
/// version descriptor required on `side`, then one entry per optional mod with
/// the caller's enablement flag.
pub open spec fn spec_v1_selected(libs: Seq<ForgeVersionLibrary>, side: Seq<char>) -> Seq<
    ForgeLibrary,
> {
    libs.filter(
        |l: ForgeVersionLibrary|
            match l {
                ForgeVersionLibrary::Forge(f) => spec_is_side(f, side),
                ForgeVersionLibrary::Mojang(_) => false,
            },
    ).map_values(
        |l: ForgeVersionLibrary|
            match l {
                ForgeVersionLibrary::Forge(f) => f,
                ForgeVersionLibrary::Mojang(_) => arbitrary(),
            },
    )
}

impl ForgeInstallerProfileV1 {
    /// The libraries to install for `side`: the legacy entries of the version
    /// descriptor required on that side, then one entry per optional mod,
    /// enabled as the caller's per-optional flags say.
    pub fn get_libraries(&self, marker: &str, enabled: &Vec<bool>) -> (r: Vec<ForgeLibrary>)
        requires
            enabled@.len() == self.optionals@.len(),
        ensures
            r@.len() == spec_v1_selected(self.version_info.libraries@, marker@).len()
                + self.optionals@.len(),
            forall|i: int|
                0 <= i < spec_v1_selected(self.version_info.libraries@, marker@).len()
                    ==> spec_lib_eqv(
                    #[trigger] r@[i],
                    spec_v1_selected(self.version_info.libraries@, marker@)[i],
                ),
            forall|j: int|
                0 <= j < self.optionals@.len() ==> spec_optional_library(
                    self.optionals@[j],
                    marker@,
                    enabled@[j],
                    #[trigger] r@[spec_v1_selected(self.version_info.libraries@, marker@).len()
                        + j],
                ),
    {
        let ghost sel = spec_v1_selected(self.version_info.libraries@, marker@);
        let mut ret: Vec<ForgeLibrary> = Vec::new();
        let n = self.version_info.libraries.len();
        let mut i: usize = 0;
        while i < n
            invariant
                n == self.version_info.libraries@.len(),
                i <= n,
                ret@.len() == spec_v1_selected(
                    self.version_info.libraries@.subrange(0, i as int),
                    marker@,
                ).len(),
                forall|k: int|
                    0 <= k < ret@.len() ==> spec_lib_eqv(
                        #[trigger] ret@[k],
                        spec_v1_selected(
                            self.version_info.libraries@.subrange(0, i as int),
                            marker@,
                        )[k],
                    ),
            decreases n - i,
        {
            let ghost pre = self.version_info.libraries@.subrange(0, i as int);
            let ghost pre1 = self.version_info.libraries@.subrange(0, i + 1 as int);
            proof {
                assert(pre1.drop_last() =~= pre);
                reveal(Seq::filter);
            }
            match &self.version_info.libraries[i] {
                ForgeVersionLibrary::Forge(lib) => {
                    if lib.is_side(marker) {
                        ret.push(lib.clone());
                    }
                },
                ForgeVersionLibrary::Mojang(_) => {},
            }
            i = i + 1;
        }
        proof {
            assert(self.version_info.libraries@.subrange(0, n as int)
                =~= self.version_info.libraries@);
        }
        let m = self.optionals.len();
        let mut j: usize = 0;
        while j < m
            invariant
                m == self.optionals@.len(),
                enabled@.len() == m,
                j <= m,
                ret@.len() == sel.len() + j,
                forall|k: int|
                    0 <= k < sel.len() ==> spec_lib_eqv(#[trigger] ret@[k], sel[k]),
                forall|k: int|
                    0 <= k < j ==> spec_optional_library(
                        self.optionals@[k],
                        marker@,
                        enabled@[k],
                        #[trigger] ret@[sel.len() + k],
                    ),
            decreases m - j,
        {
            let mut info = ForgeLibrary::new(&self.optionals[j], marker);
            info.enabled = enabled[j];
            ret.push(info);
            j = j + 1;
        }
        ret
    }

    /// Whether the version descriptor inherits another and carries its own jar.
    pub fn is_inherited_json(&self) -> (r: bool)
        ensures
            r == (self.version_info.inherits_from is Some && self.version_info.jar is Some),
    {
        self.version_info.inherits_from.is_some() && self.version_info.jar.is_some()
    }
}

/// The descriptors of the first `n` optional mods whose flag is set, in order.
pub open spec fn spec_mod_list(libs: Seq<ForgeOptional>, flags: Seq<bool>, n: int) -> Seq<
    Seq<char>,
>
    decreases n,
{
    if n <= 0 {
        Seq::<Seq<char>>::empty()
    } else {
        spec_mod_list(libs, flags, n - 1) + (if flags[n - 1] {
            seq![crate::spec_descriptor(libs[n - 1].artifact@)]
        } else {
            Seq::<Seq<char>>::empty()
        })
    }
}

/// The descriptors of the optional mods the caller enabled, in order.
pub fn mod_list_entries(libs: &Vec<ForgeOptional>, enabled: &Vec<bool>) -> (r: Vec<String>)
    requires
        enabled@.len() == libs@.len(),
    ensures
        r.deep_view() == spec_mod_list(libs@, enabled@, libs@.len() as int),
{
    let mut r: Vec<String> = Vec::new();
    let n = libs.len();
    let mut i: usize = 0;
    while i < n
        invariant
            n == libs@.len(),
            enabled@.len() == n,
            i <= n,
            r.deep_view() == spec_mod_list(libs@, enabled@, i as int),
        decreases n - i,
    {
        if enabled[i] {
            let ghost before = r.deep_view();
            let d = libs[i].artifact.get_descriptor();
            r.push(d);
            proof {
                assert(r.deep_view() =~= before.push(
                    crate::spec_descriptor(libs@[i as int].artifact@),
                ));
                assert(before.push(crate::spec_descriptor(libs@[i as int].artifact@))
                    =~= spec_mod_list(libs@, enabled@, i + 1 as int));
            }
        } else {
            proof {
                assert(r.deep_view() + Seq::<Seq<char>>::empty() =~= r.deep_view());
            }
        }
        i = i + 1;
    }
    r
}

} // verus!
