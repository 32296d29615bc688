//! Version discovery for the mod loader: the known versions with their game
//! version, suffix, and latest/recommended promotion flags, and the queries
//! the installer asks of them.
use vstd::prelude::*;
use vstd::string::*;

verus! {

use crate::Artifact;
use crate::dict::Dict;
use crate::strutil::{push_char, str_eq, find_char, spec_count, lemma_spec_count_add, lemma_spec_split_count};

/// One known loader version: its game version, its own version and optional
/// suffix, and whether the index promotes it.
pub struct ForgeVersionInfo {
    pub mc_version: String,
    pub neoforge_version: String,
    pub suffix: Option<String>,
    pub latest: bool,
    pub recommended: bool,
}

/// The ghost shape of one known version.
pub ghost struct VersionInfoView {
    pub mc_version: Seq<char>,
    pub neoforge_version: Seq<char>,
    pub suffix: Option<Seq<char>>,
    pub latest: bool,
    pub recommended: bool,
}

impl View for ForgeVersionInfo {
    type V = VersionInfoView;

    open spec fn view(&self) -> VersionInfoView {
        VersionInfoView {
            mc_version: self.mc_version@,
            neoforge_version: self.neoforge_version@,
            suffix: match self.suffix {
                Some(s) => Some(s@),
                None => None,
            },
            latest: self.latest,
            recommended: self.recommended,
        }
    }
}

/// The full version text: the version, then `-suffix` when one is recorded.
pub open spec fn spec_full_version(v: VersionInfoView) -> Seq<char> {
    v.neoforge_version + (match v.suffix {
        Some(s) => seq!['-'] + s,
        None => Seq::<char>::empty(),
    })
}

/// The installer artifact descriptor of one known version.
pub open spec fn spec_installer_descriptor(v: VersionInfoView) -> Seq<char> {
    "net.neoforged"@ + seq![':'] + "neoforge"@ + seq![':'] + v.neoforge_version + seq![':']
        + "installer"@
}

impl ForgeVersionInfo {
    /// The full version text: the version, then `-suffix` when one is recorded.
    pub fn get_full_version(&self) -> (r: String)
        ensures
            r@ == spec_full_version(self@),
    {
        let mut full_version = self.neoforge_version.clone();
        if let Some(suffix) = &self.suffix {
            push_char(&mut full_version, '-');
            full_version.append(suffix.as_str());
            proof {
                assert(full_version@ =~= spec_full_version(self@));
            }
        } else {
            proof {
                assert(full_version@ =~= spec_full_version(self@));
            }
        }
        full_version
    }

    /// The installer artifact of this version:
    /// `net.neoforged:neoforge:<version>:installer`.
    pub fn get_artifact(&self) -> (r: Artifact)
        ensures
            crate::spec_parse_ok(spec_installer_descriptor(self@), r@),
    {
        let mut text = String::from_str("net.neoforged");
        push_char(&mut text, ':');
        text.append("neoforge");
        push_char(&mut text, ':');
        text.append(self.neoforge_version.as_str());
        push_char(&mut text, ':');
        text.append("installer");
        proof {
            assert(text@ =~= spec_installer_descriptor(self@));
            lemma_descriptor_parseable(self@.neoforge_version);
        }
        match Artifact::parse(text.as_str()) {
            Ok(a) => a,
            Err(_) => vstd::pervasive::unreached(),
        }
    }

    /// The url the installer jar is published at.
    pub fn get_installer_url(&self) -> (r: String)
        ensures
            r@ == "https://maven.neoforged.net/releases/"@ + crate::spec_path_string(
                crate::spec_parse(spec_installer_descriptor(self@)),
            ),
    {
        let artifact = self.get_artifact();
        let path = artifact.get_path_string();
        let mut r = String::from_str("https://maven.neoforged.net/releases/");
        r.append(path.as_str());
        proof {
            assert(r@ =~= "https://maven.neoforged.net/releases/"@ + crate::spec_path_string(
                crate::spec_parse(spec_installer_descriptor(self@)),
            ));
        }
        r
    }
}

/// An installer descriptor always parses: its first 23 characters are fixed
/// text holding two colons and no `@`, so the pre-`@` part splits into at
/// least three segments whatever the version text holds.
proof fn lemma_descriptor_parseable(ver: Seq<char>)
    ensures
        crate::spec_parseable(
            "net.neoforged"@ + seq![':'] + "neoforge"@ + seq![':'] + ver + seq![':']
                + "installer"@,
        ),
{
    reveal_strlit("net.neoforged");
    reveal_strlit("neoforge");
    let a = "net.neoforged"@;
    let b = "neoforge"@;
    let colon = seq![':'];
    let t = a + colon + b + colon + ver + colon + "installer"@;
    let head = t.subrange(0, 23);
    assert(a.len() == 13);
    assert(b.len() == 8);
    assert(spec_count(colon, ':') == 1) by {
        assert(colon.drop_last() =~= Seq::<char>::empty());
        assert(spec_count(Seq::<char>::empty(), ':') == 0);
        assert(colon.last() == ':');
    }
    assert(head =~= a + colon + b + colon);
    lemma_spec_count_add(a, colon, ':');
    lemma_spec_count_add(a + colon, b, ':');
    lemma_spec_count_add(a + colon + b, colon, ':');
    assert(spec_count(head, ':') >= 2);
    // None of the 23 fixed leading characters is an `@`.
    assert(t[0] == 'n' && t[1] == 'e' && t[2] == 't' && t[3] == '.' && t[4] == 'n' && t[5] == 'e'
        && t[6] == 'o' && t[7] == 'f' && t[8] == 'o' && t[9] == 'r' && t[10] == 'g' && t[11] == 'e'
        && t[12] == 'd');
    assert(t[13] == ':');
    assert(t[14] == 'n' && t[15] == 'e' && t[16] == 'o' && t[17] == 'f' && t[18] == 'o' && t[19]
        == 'r' && t[20] == 'g' && t[21] == 'e');
    assert(t[22] == ':');
    let pre = if t.contains('@') {
        t.subrange(0, t.index_of_first('@')->Some_0)
    } else {
        t
    };
    if t.contains('@') {
        t.index_of_first_ensures('@');
        let i = t.index_of_first('@')->Some_0;
        assert(t[i] == '@');
        assert(i >= 23);
        assert(pre =~= head + t.subrange(23, i));
        lemma_spec_count_add(head, t.subrange(23, i), ':');
    } else {
        assert(pre =~= head + t.subrange(23, t.len() as int));
        lemma_spec_count_add(head, t.subrange(23, t.len() as int), ':');
    }
    assert(spec_count(pre, ':') >= 2);
    lemma_spec_split_count(pre, ':');
}

/// The known versions, ready to be queried.
pub struct ForgeVersionHandler {
    pub versions: Vec<ForgeVersionInfo>,
}

impl ForgeVersionHandler {
    /// The known versions for one game version, in index order.
    pub fn get_by_mc_version(&self, mc_ver: &str) -> (r: Vec<&ForgeVersionInfo>)
        ensures
            r@.len() == self.versions@.filter(
                |v: ForgeVersionInfo| v.mc_version@ == mc_ver@,
            ).len(),
            forall|i: int|
                0 <= i < r@.len() ==> *(#[trigger] r@[i]) == self.versions@.filter(
                    |v: ForgeVersionInfo| v.mc_version@ == mc_ver@,
                )[i],
    {
        let mut r: Vec<&ForgeVersionInfo> = Vec::new();
        let n = self.versions.len();
        let mut i: usize = 0;
        while i < n
            invariant
                n == self.versions@.len(),
                i <= n,
                r@.len() == self.versions@.subrange(0, i as int).filter(
                    |v: ForgeVersionInfo| v.mc_version@ == mc_ver@,
                ).len(),
                forall|k: int|
                    0 <= k < r@.len() ==> *(#[trigger] r@[k]) == self.versions@.subrange(
                        0,
                        i as int,
                    ).filter(|v: ForgeVersionInfo| v.mc_version@ == mc_ver@)[k],
            decreases n - i,
        {
            proof {
                let pre = self.versions@.subrange(0, i as int);
                let pre1 = self.versions@.subrange(0, i + 1 as int);
                assert(pre1.drop_last() =~= pre);
                reveal(Seq::filter);
            }
            if str_eq(self.versions[i].mc_version.as_str(), mc_ver) {
                r.push(&self.versions[i]);
            }
            i = i + 1;
        }
        proof {
            assert(self.versions@.subrange(0, n as int) =~= self.versions@);
        }
        r
    }

    /// The promoted versions, in index order.
    pub fn get_recommended_versions(&self) -> (r: Vec<&ForgeVersionInfo>)
        ensures
            r@.len() == self.versions@.filter(|v: ForgeVersionInfo| v.recommended).len(),
            forall|i: int|
                0 <= i < r@.len() ==> *(#[trigger] r@[i]) == self.versions@.filter(
                    |v: ForgeVersionInfo| v.recommended,
                )[i],
    {
        let mut r: Vec<&ForgeVersionInfo> = Vec::new();
        let n = self.versions.len();
        let mut i: usize = 0;
        while i < n
            invariant
                n == self.versions@.len(),
                i <= n,
                r@.len() == self.versions@.subrange(0, i as int).filter(
                    |v: ForgeVersionInfo| v.recommended,
                ).len(),
                forall|k: int|
                    0 <= k < r@.len() ==> *(#[trigger] r@[k]) == self.versions@.subrange(
                        0,
                        i as int,
                    ).filter(|v: ForgeVersionInfo| v.recommended)[k],
            decreases n - i,
        {
            proof {
                let pre = self.versions@.subrange(0, i as int);
                let pre1 = self.versions@.subrange(0, i + 1 as int);
                assert(pre1.drop_last() =~= pre);
                reveal(Seq::filter);
            }
            if self.versions[i].recommended {
                r.push(&self.versions[i]);
            }
            i = i + 1;
        }
        proof {
            assert(self.versions@.subrange(0, n as int) =~= self.versions@);
        }
        r
    }

    /// The first known version with the given loader version text.
    pub fn get_by_forge_version(&self, forge_ver: &str) -> (r: Option<&ForgeVersionInfo>)
        ensures
            match r {
                Some(v) => exists|i: int|
                    0 <= i < self.versions@.len() && *v == self.versions@[i]
                        && v.neoforge_version@ == forge_ver@ && (forall|j: int|
                        0 <= j < i ==> (#[trigger] self.versions@[j]).neoforge_version@
                            != forge_ver@),
                None => forall|i: int|
                    0 <= i < self.versions@.len() ==> (
                    #[trigger] self.versions@[i]).neoforge_version@ != forge_ver@,
            },
    {
        let n = self.versions.len();
        let mut i: usize = 0;
        while i < n
            invariant
                n == self.versions@.len(),
                i <= n,
                forall|j: int|
                    0 <= j < i ==> (#[trigger] self.versions@[j]).neoforge_version@ != forge_ver@,
            decreases n - i,
        {
            if str_eq(self.versions[i].neoforge_version.as_str(), forge_ver) {
                return Some(&self.versions[i]);
            }
            i = i + 1;
        }
        None
    }

    /// The best version for one game version: the first recommended entry
    /// among that game version's entries, or, when none is recommended, the
    /// first latest entry; nothing when the game version has neither.
    pub fn get_best_version(&self, mc_ver: &str) -> (r: Option<&ForgeVersionInfo>)
        ensures
            match r {
                Some(v) => {
                    &&& v.mc_version@ == mc_ver@
                    &&& (v.recommended ==> exists|i: int|
                        0 <= i < self.versions@.len() && *v == self.versions@[i] && (forall|j: int|
                            0 <= j < i ==> !((#[trigger] self.versions@[j]).mc_version@ == mc_ver@
                                && self.versions@[j].recommended)))
                    &&& (!v.recommended ==> {
                        &&& v.latest
                        &&& forall|i: int|
                            0 <= i < self.versions@.len() ==> !((
                            #[trigger] self.versions@[i]).mc_version@ == mc_ver@
                                && self.versions@[i].recommended)
                        &&& exists|i: int|
                            0 <= i < self.versions@.len() && *v == self.versions@[i] && (forall|
                                j: int,
                            |
                                0 <= j < i ==> !((#[trigger] self.versions@[j]).mc_version@
                                    == mc_ver@ && self.versions@[j].latest))
                    })
                },
                None => forall|i: int|
                    0 <= i < self.versions@.len() ==> !((#[trigger] self.versions@[i]).mc_version@
                        == mc_ver@ && (self.versions@[i].recommended || self.versions@[i].latest)),
            },
    {
        let n = self.versions.len();
        let mut i: usize = 0;
        while i < n
            invariant
                n == self.versions@.len(),
                i <= n,
                forall|j: int|
                    0 <= j < i ==> !((#[trigger] self.versions@[j]).mc_version@ == mc_ver@
                        && self.versions@[j].recommended),
            decreases n - i,
        {
            if str_eq(self.versions[i].mc_version.as_str(), mc_ver) && self.versions[i].recommended {
                return Some(&self.versions[i]);
            }
            i = i + 1;
        }
        let mut k: usize = 0;
        while k < n
            invariant
                n == self.versions@.len(),
                k <= n,
                forall|j: int|
                    0 <= j < n ==> !((#[trigger] self.versions@[j]).mc_version@ == mc_ver@
                        && self.versions@[j].recommended),
                forall|j: int|
                    0 <= j < k ==> !((#[trigger] self.versions@[j]).mc_version@ == mc_ver@
                        && self.versions@[j].latest),
            decreases n - k,
        {
            if str_eq(self.versions[k].mc_version.as_str(), mc_ver) && self.versions[k].latest {
                return Some(&self.versions[k]);
            }
            k = k + 1;
        }
        None
    }
}

/// The number of versions the first `g` groups hold together.
pub open spec fn spec_versions_before(groups: Seq<(Seq<char>, Vec<String>)>, g: int) -> int
    decreases g,
{
    if g <= 0 {
        0
    } else {
        spec_versions_before(groups, g - 1) + groups[g - 1].1@.len()
    }
}

/// That `e` is the handler entry for the indexed version `full` of the game
/// version `mc`: the version text split from its suffix at the first dash,
/// and each promotion flag set exactly when the promotion map names the
/// split version for that game version.
pub open spec fn spec_handler_entry(
    promos: Map<Seq<char>, Seq<char>>,
    mc: Seq<char>,
    full: Seq<char>,
    e: VersionInfoView,
) -> bool {
    let ver = if full.contains('-') {
        full.subrange(0, full.index_of_first('-')->Some_0)
    } else {
        full
    };
    let suffix = if full.contains('-') {
        Some(full.subrange(full.index_of_first('-')->Some_0 + 1, full.len() as int))
    } else {
        None::<Seq<char>>
    };
    &&& e.mc_version == mc
    &&& e.neoforge_version == ver
    &&& e.suffix == suffix
    &&& spec_handler_entry_ok(promos, e)
}

/// Builds the version handler from grouped versions and their promotions: one
/// entry per indexed version, group by group in order, its version split from
/// its suffix at the first dash, flagged as latest or recommended exactly when
/// the promotion map names it for its game version.
pub fn build_version_handler(groups: &Dict<Vec<String>>, promotions: &Dict<String>) -> (r:
    ForgeVersionHandler)
    requires
        groups.wf(),
        promotions.wf(),
    ensures
        r.versions@.len() == spec_versions_before(
            groups.spec_pairs(),
            groups.spec_pairs().len() as int,
        ),
        forall|g: int, j: int|
            0 <= g < groups.spec_pairs().len() && 0 <= j < groups.spec_pairs()[g].1@.len()
                ==> spec_handler_entry(
                crate::forge_installer_profile::v2::token_views(promotions.as_map()),
                groups.spec_pairs()[g].0,
                groups.spec_pairs()[g].1.deep_view()[j],
                (#[trigger] r.versions@[spec_versions_before(groups.spec_pairs(), g) + j])@,
            ),
{
    let ghost ps = groups.spec_pairs();
    let ghost promos = crate::forge_installer_profile::v2::token_views(promotions.as_map());
    let mut versions: Vec<ForgeVersionInfo> = Vec::new();
    let n = groups.len();
    let mut g: usize = 0;
    while g < n
        invariant
            groups.wf(),
            promotions.wf(),
            ps == groups.spec_pairs(),
            promos == crate::forge_installer_profile::v2::token_views(promotions.as_map()),
            n == ps.len(),
            g <= n,
            versions@.len() == spec_versions_before(ps, g as int),
            forall|g2: int, j: int|
                0 <= g2 < g && 0 <= j < ps[g2].1@.len() ==> spec_handler_entry(
                    promos,
                    ps[g2].0,
                    ps[g2].1.deep_view()[j],
                    (#[trigger] versions@[spec_versions_before(ps, g2) + j])@,
                ),
        decreases n - g,
    {
        let entry = groups.entry_at(g);
        let mc = entry.0.clone();
        let m = entry.1.len();
        let ghost base = spec_versions_before(ps, g as int);
        proof {
            lemma_versions_before_bounds(ps, g as int);
        }
        let mut v: usize = 0;
        while v < m
            invariant
                groups.wf(),
                promotions.wf(),
                ps == groups.spec_pairs(),
                promos == crate::forge_installer_profile::v2::token_views(promotions.as_map()),
                g < n == ps.len(),
                m == ps[g as int].1@.len(),
                v <= m,
                mc@ == ps[g as int].0,
                base == spec_versions_before(ps, g as int),
                base >= 0,
                versions@.len() == base + v,
                forall|g2: int, j: int|
                    0 <= g2 < g && 0 <= j < ps[g2].1@.len() ==> spec_handler_entry(
                        promos,
                        ps[g2].0,
                        ps[g2].1.deep_view()[j],
                        (#[trigger] versions@[spec_versions_before(ps, g2) + j])@,
                    ),
                forall|j: int|
                    0 <= j < v ==> spec_handler_entry(
                        promos,
                        ps[g as int].0,
                        ps[g as int].1.deep_view()[j],
                        (#[trigger] versions@[base + j])@,
                    ),
            decreases m - v,
        {
            let entry = groups.entry_at(g);
            let full = &entry.1[v];
            proof {
                assert(full@ == ps[g as int].1.deep_view()[v as int]);
            }
            let (ver, suffix): (String, Option<String>) = match find_char(full.as_str(), '-') {
                Some(d) => {
                    proof {
                        full@.index_of_first_ensures('-');
                        assert(full@.index_of_first('-') == Some(d as int));
                    }
                    let fl = full.as_str().unicode_len();
                    (
                        full.as_str().substring_char(0, d).to_owned(),
                        Some(full.as_str().substring_char(d + 1, fl).to_owned()),
                    )
                },
                None => {
                    proof {
                        full@.index_of_first_ensures('-');
                    }
                    (full.clone(), None)
                },
            };
            let mut latest_key = mc.clone();
            latest_key.append("-latest");
            let latest = match promotions.get(latest_key.as_str()) {
                Some(p) => str_eq(p.as_str(), ver.as_str()),
                None => false,
            };
            let mut rec_key = mc.clone();
            rec_key.append("-recommended");
            let recommended = match promotions.get(rec_key.as_str()) {
                Some(p) => str_eq(p.as_str(), ver.as_str()),
                None => false,
            };
            proof {
                assert(latest_key@ =~= mc@ + "-latest"@);
                assert(rec_key@ =~= mc@ + "-recommended"@);
            }
            let info = ForgeVersionInfo {
                mc_version: mc.clone(),
                neoforge_version: ver,
                suffix,
                latest,
                recommended,
            };
            let ghost before_push = versions@;
            versions.push(info);
            proof {
                assert(spec_handler_entry(
                    promos,
                    ps[g as int].0,
                    ps[g as int].1.deep_view()[v as int],
                    versions@[base + v]@,
                ));
                assert forall|g2: int, j: int|
                    0 <= g2 < g && 0 <= j < ps[g2].1@.len() implies spec_handler_entry(
                    promos,
                    ps[g2].0,
                    ps[g2].1.deep_view()[j],
                    (#[trigger] versions@[spec_versions_before(ps, g2) + j])@,
                ) by {
                    lemma_versions_before_bounds(ps, g2);
                    lemma_versions_before_mono(ps, g2 + 1, g as int);
                    assert(spec_versions_before(ps, g2) + j < base);
                    assert(versions@[spec_versions_before(ps, g2) + j] == before_push[
                        spec_versions_before(ps, g2) + j
                    ]);
                }
            }
            v = v + 1;
        }
        proof {
            assert(spec_versions_before(ps, g + 1 as int) == base + m);
        }
        g = g + 1;
    }
    ForgeVersionHandler { versions }
}

/// Group version counts accumulate without going negative.
proof fn lemma_versions_before_bounds(groups: Seq<(Seq<char>, Vec<String>)>, g: int)
    requires
        0 <= g,
    ensures
        spec_versions_before(groups, g) >= 0,
    decreases g,
{
    if g > 0 {
        lemma_versions_before_bounds(groups, g - 1);
    }
}

/// Group version counts accumulate monotonically.
proof fn lemma_versions_before_mono(groups: Seq<(Seq<char>, Vec<String>)>, a: int, b: int)
    requires
        0 <= a <= b,
    ensures
        spec_versions_before(groups, a) <= spec_versions_before(groups, b),
    decreases b - a,
{
    if a < b {
        lemma_versions_before_mono(groups, a, b - 1);
    }
}

/// One handler entry is consistent with the promotion map: its flags hold
/// exactly when the map promotes its own version for its game version.
pub open spec fn spec_handler_entry_ok(
    promos: Map<Seq<char>, Seq<char>>,
    v: VersionInfoView,
) -> bool {
    &&& v.latest == (promos.contains_key(v.mc_version + "-latest"@) && promos[v.mc_version
        + "-latest"@] == v.neoforge_version)
    &&& v.recommended == (promos.contains_key(v.mc_version + "-recommended"@) && promos[
        v.mc_version + "-recommended"@] == v.neoforge_version)
}


} // verus!
