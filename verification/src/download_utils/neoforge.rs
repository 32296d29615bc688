//! The remote version index: its raw version list, the grouping of versions
//! by game version, and the latest/recommended promotions built from them.
use vstd::prelude::*;
use vstd::string::*;

verus! {

use crate::dict::Dict;
use crate::strutil::{spec_split, spec_lex_lt, spec_ends_with, lex_lt, ends_with_str, find_char};

/// The version index as the remote endpoint reports it.
pub struct NeoforgeVersions {
    pub is_snapshot: bool,
    pub versions: Vec<String>,
}

/// How one index version splits: the two leading dot-separated numbers name
/// the game version (prefixed `1.`), the rest names the loader version.
pub open spec fn spec_version_split_ok(v: Seq<char>, mc: Seq<char>, rest: Seq<char>) -> bool {
    let parts = spec_split(v, '.');
    &&& parts.len() >= 3
    &&& mc == seq!['1', '.'] + parts[0] + seq!['.'] + parts[1]
    &&& v == parts[0] + seq!['.'] + parts[1] + seq!['.'] + rest
}

/// Splits one index version `a.b.rest` into the game version `1.a.b` and the
/// loader rest; a version with fewer than two dots has no game version.
pub fn split_index_version(v: &str) -> (r: Option<(String, String)>)
    ensures
        match r {
            Some((mc, rest)) => spec_version_split_ok(v@, mc@, rest@),
            None => spec_split(v@, '.').len() < 3,
        },
{
    let n = v.unicode_len();
    let first = match find_char(v, '.') {
        Some(i) => i,
        None => {
            proof {
                lemma_no_sep_one_part(v@, '.');
            }
            return None;
        },
    };
    let tail = v.substring_char(first + 1, n);
    let second = match find_char(tail, '.') {
        Some(i) => i,
        None => {
            proof {
                lemma_no_sep_one_part(tail@, '.');
                lemma_split_shift(v@, '.', first as int);
            }
            return None;
        },
    };
    let a = v.substring_char(0, first);
    let b = tail.substring_char(0, second);
    let rest = tail.substring_char(second + 1, tail.unicode_len());
    let mut mc = String::from_str("1.");
    mc.append(a);
    mc.append(".");
    mc.append(b);
    proof {
        reveal_strlit("1.");
        reveal_strlit(".");
        lemma_split_parts(v@, '.', first as int);
        lemma_split_parts(tail@, '.', second as int);
        lemma_split_shift(v@, '.', first as int);
        assert(mc@ =~= seq!['1', '.'] + spec_split(v@, '.')[0] + seq!['.'] + spec_split(v@, '.')[1]);
        assert(v@ =~= spec_split(v@, '.')[0] + seq!['.'] + spec_split(v@, '.')[1] + seq!['.']
            + rest@);
    }
    Some((mc, rest.to_owned()))
}

/// A text without the separator splits into itself alone.
proof fn lemma_no_sep_one_part(s: Seq<char>, sep: char)
    requires
        !s.contains(sep),
    ensures
        spec_split(s, sep).len() == 1,
        spec_split(s, sep)[0] == s,
    decreases s.len(),
{
    if s.len() > 0 {
        assert(forall|j: int| 0 <= j < s.len() - 1 ==> s.drop_last()[j] == s[j]);
        lemma_no_sep_one_part(s.drop_last(), sep);
        crate::strutil::lemma_spec_split_len(s.drop_last(), sep);
        assert(spec_split(s, sep)[0] =~= s);
    } else {
        assert(spec_split(s, sep)[0] =~= s);
    }
}

/// The first piece of a split is the text before the first separator.
proof fn lemma_split_parts(s: Seq<char>, sep: char, i: int)
    requires
        0 <= i < s.len(),
        s[i] == sep,
        forall|j: int| 0 <= j < i ==> s[j] != sep,
    ensures
        spec_split(s, sep).len() >= 2,
        spec_split(s, sep)[0] == s.subrange(0, i),
    decreases s.len(),
{
    if i == s.len() - 1 {
        lemma_no_sep_one_part(s.drop_last(), sep);
        assert(s.subrange(0, i) =~= s.drop_last());
    } else {
        assert(s.drop_last()[i] == sep);
        lemma_split_parts(s.drop_last(), sep, i);
        crate::strutil::lemma_spec_split_len(s.drop_last(), sep);
        assert(s.drop_last().subrange(0, i) =~= s.subrange(0, i));
    }
}

/// Splitting after the first separator drops exactly the first piece.
proof fn lemma_split_shift(s: Seq<char>, sep: char, i: int)
    requires
        0 <= i < s.len(),
        s[i] == sep,
        forall|j: int| 0 <= j < i ==> s[j] != sep,
    ensures
        spec_split(s, sep) == seq![s.subrange(0, i)] + spec_split(
            s.subrange(i + 1, s.len() as int),
            sep,
        ),
    decreases s.len(),
{
    let tail = s.subrange(i + 1, s.len() as int);
    if i == s.len() - 1 {
        lemma_no_sep_one_part(s.drop_last(), sep);
        assert(tail =~= Seq::<char>::empty());
        assert(s.subrange(0, i) =~= s.drop_last());
        assert(spec_split(s, sep) =~= seq![s.subrange(0, i)] + spec_split(tail, sep));
    } else {
        assert(s.drop_last()[i] == sep);
        lemma_split_shift(s.drop_last(), sep, i);
        crate::strutil::lemma_spec_split_len(s.drop_last().subrange(i + 1, s.len() - 1), sep);
        assert(s.drop_last().subrange(0, i) =~= s.subrange(0, i));
        assert(s.drop_last().subrange(i + 1, s.len() - 1) =~= tail.drop_last());
        if s.last() == sep {
            assert(spec_split(s, sep) =~= seq![s.subrange(0, i)] + spec_split(tail, sep));
        } else {
            crate::strutil::lemma_spec_split_len(tail.drop_last(), sep);
            assert(spec_split(s, sep) =~= seq![s.subrange(0, i)] + spec_split(tail, sep));
        }
    }
}

/// The grouped-version views: each bucket of grouped versions as character
/// sequences.
pub open spec fn group_views(m: Map<Seq<char>, Vec<String>>) -> Map<Seq<char>, Seq<Seq<char>>> {
    Map::new(|k: Seq<char>| m.contains_key(k), |k: Seq<char>| m[k].deep_view())
}

/// The game-version key of one index version, when it has one: `1.a.b` for a
/// version `a.b.rest`.
pub open spec fn spec_group_key(v: Seq<char>) -> Option<Seq<char>> {
    let parts = spec_split(v, '.');
    if parts.len() >= 3 {
        Some(seq!['1', '.'] + parts[0] + seq!['.'] + parts[1])
    } else {
        None
    }
}

/// The grouping of the first `n` index versions: each one appended, in index
/// order, to the bucket under its game-version key.
pub open spec fn spec_grouped(
    versions: Seq<Seq<char>>,
    n: int,
) -> Map<Seq<char>, Seq<Seq<char>>>
    decreases n,
{
    if n <= 0 {
        Map::<Seq<char>, Seq<Seq<char>>>::empty()
    } else {
        let m = spec_grouped(versions, n - 1);
        match spec_group_key(versions[n - 1]) {
            Some(key) => {
                let bucket = if m.contains_key(key) {
                    m[key]
                } else {
                    Seq::<Seq<char>>::empty()
                };
                m.insert(key, bucket.push(versions[n - 1]))
            },
            None => m,
        }
    }
}

/// Groups the index versions by their game version: each index version
/// `a.b.rest` is listed, in index order, under the key `1.a.b`; versions with
/// fewer than two dots are dropped.
pub fn build_list_neoforge_versions(versions: &NeoforgeVersions) -> (r: Dict<Vec<String>>)
    ensures
        r.wf(),
        group_views(r.as_map()) == spec_grouped(
            versions.versions.deep_view(),
            versions.versions@.len() as int,
        ),
{
    let ghost vs = versions.versions.deep_view();
    let mut r: Dict<Vec<String>> = Dict::new();
    let n = versions.versions.len();
    let mut i: usize = 0;
    proof {
        assert(group_views(r.as_map()) =~= spec_grouped(vs, 0));
    }
    while i < n
        invariant
            n == versions.versions@.len(),
            vs == versions.versions.deep_view(),
            i <= n,
            r.wf(),
            group_views(r.as_map()) == spec_grouped(vs, i as int),
        decreases n - i,
    {
        let v = &versions.versions[i];
        proof {
            assert(v@ == vs[i as int]);
        }
        match split_index_version(v.as_str()) {
            Some((mc, _rest)) => {
                proof {
                    assert(spec_group_key(vs[i as int]) == Some(mc@));
                }
                let mut bucket: Vec<String> = match r.get(mc.as_str()) {
                    Some(existing) => existing.clone(),
                    None => Vec::new(),
                };
                let ghost bucket_before = bucket.deep_view();
                proof {
                    assert(bucket_before == (if group_views(r.as_map()).contains_key(mc@) {
                        group_views(r.as_map())[mc@]
                    } else {
                        Seq::<Seq<char>>::empty()
                    }));
                }
                bucket.push(v.clone());
                proof {
                    assert(bucket.deep_view() =~= bucket_before.push(vs[i as int]));
                }
                let ghost before_map = group_views(r.as_map());
                r.insert(mc, bucket);
                proof {
                    assert(group_views(r.as_map()) =~= before_map.insert(
                        mc@,
                        bucket_before.push(vs[i as int]),
                    ));
                }
            },
            None => {},
        }
        i = i + 1;
    }
    r
}

/// The lexicographic maximum of the versions seen so far, kept per key.
fn promote(promotions: &mut Dict<String>, key: String, version: &String)
    requires
        old(promotions).wf(),
    ensures
        final (promotions).wf(),
        final (promotions).as_map().contains_key(key@),
        final (promotions).as_map().dom() == old(promotions).as_map().dom().insert(key@),
        ({
            let told = old(promotions).as_map();
            if told.contains_key(key@) && !spec_lex_lt(told[key@]@, version@) {
                final (promotions).as_map() == told
            } else {
                final (promotions).as_map() == told.insert(key@, *version)
            }
        }),
{
    let current: Option<String> = match promotions.get(key.as_str()) {
        Some(c) => Some(c.clone()),
        None => None,
    };
    match current {
        Some(c) => {
            if lex_lt(c.as_str(), version.as_str()) {
                promotions.insert(key, version.clone());
                proof {
                    assert(promotions.as_map().dom() =~= old(
                        promotions,
                    ).as_map().dom().insert(key@));
                }
            } else {
                proof {
                    assert(old(promotions).as_map().contains_key(key@));
                    assert(promotions.as_map().dom() =~= old(
                        promotions,
                    ).as_map().dom().insert(key@));
                }
            }
        },
        None => {
            promotions.insert(key, version.clone());
            proof {
                assert(promotions.as_map().dom() =~= old(promotions).as_map().dom().insert(key@));
            }
        },
    }
}

/// One promotion: the value under `key` is replaced when `v` is
/// lexicographically greater or the key is new.
pub open spec fn spec_promote(
    m: Map<Seq<char>, Seq<char>>,
    key: Seq<char>,
    v: Seq<char>,
) -> Map<Seq<char>, Seq<char>> {
    if m.contains_key(key) && !spec_lex_lt(m[key], v) {
        m
    } else {
        m.insert(key, v)
    }
}

/// The promotions one version contributes: always a candidate for its group's
/// `-latest` key, and for its `-recommended` key unless it is a beta.
pub open spec fn spec_promote_version(
    m: Map<Seq<char>, Seq<char>>,
    mc: Seq<char>,
    v: Seq<char>,
) -> Map<Seq<char>, Seq<char>> {
    let m1 = spec_promote(m, mc + "-latest"@, v);
    if !spec_ends_with(v, "-beta"@) {
        spec_promote(m1, mc + "-recommended"@, v)
    } else {
        m1
    }
}

/// The promotions of one group's first `j` versions.
pub open spec fn spec_promote_group(
    m: Map<Seq<char>, Seq<char>>,
    mc: Seq<char>,
    bucket: Seq<Seq<char>>,
    j: int,
) -> Map<Seq<char>, Seq<char>>
    decreases j,
{
    if j <= 0 {
        m
    } else {
        spec_promote_version(spec_promote_group(m, mc, bucket, j - 1), mc, bucket[j - 1])
    }
}

/// The promotions of the first `g` groups.
pub open spec fn spec_promotions(groups: Seq<(Seq<char>, Seq<Seq<char>>)>, g: int) -> Map<
    Seq<char>,
    Seq<char>,
>
    decreases g,
{
    if g <= 0 {
        Map::<Seq<char>, Seq<char>>::empty()
    } else {
        let m = spec_promotions(groups, g - 1);
        spec_promote_group(m, groups[g - 1].0, groups[g - 1].1, groups[g - 1].1.len() as int)
    }
}

/// The groups of a grouped-version map, bucket contents as character sequences.
pub open spec fn spec_group_pairs(d: Dict<Vec<String>>) -> Seq<(Seq<char>, Seq<Seq<char>>)> {
    Seq::new(d.spec_pairs().len(), |i: int| (d.spec_pairs()[i].0, d.spec_pairs()[i].1.deep_view()))
}

/// Builds the promotion map from the grouped versions: walking the groups and
/// their versions in order, each version is promoted to its group's `-latest`
/// key, and to its `-recommended` key unless it is marked `-beta`, a greater
/// version always replacing a lesser one.
pub fn build_promoted_versions(versions: &Dict<Vec<String>>) -> (r: Dict<String>)
    requires
        versions.wf(),
    ensures
        r.wf(),
        crate::forge_installer_profile::v2::token_views(r.as_map()) == spec_promotions(
            spec_group_pairs(*versions),
            versions.spec_pairs().len() as int,
        ),
{
    let ghost groups = spec_group_pairs(*versions);
    let mut promotions: Dict<String> = Dict::new();
    let n = versions.len();
    let mut g: usize = 0;
    proof {
        assert(crate::forge_installer_profile::v2::token_views(promotions.as_map())
            =~= spec_promotions(groups, 0));
    }
    while g < n
        invariant
            versions.wf(),
            groups == spec_group_pairs(*versions),
            n == versions.spec_pairs().len(),
            g <= n,
            promotions.wf(),
            crate::forge_installer_profile::v2::token_views(promotions.as_map())
                == spec_promotions(groups, g as int),
        decreases n - g,
    {
        let entry = versions.entry_at(g);
        let m = entry.1.len();
        let mc = entry.0.clone();
        let ghost bucket = groups[g as int].1;
        let mut v: usize = 0;
        while v < m
            invariant
                versions.wf(),
                groups == spec_group_pairs(*versions),
                g < n == versions.spec_pairs().len(),
                m == versions.spec_pairs()[g as int].1@.len(),
                bucket == groups[g as int].1,
                bucket.len() == m,
                v <= m,
                promotions.wf(),
                mc@ == groups[g as int].0,
                crate::forge_installer_profile::v2::token_views(promotions.as_map())
                    == spec_promote_group(
                    spec_promotions(groups, g as int),
                    groups[g as int].0,
                    bucket,
                    v as int,
                ),
            decreases m - v,
        {
            let entry = versions.entry_at(g);
            let neo_version = &entry.1[v];
            proof {
                assert(neo_version@ == bucket[v as int]);
            }
            let mut latest_key = mc.clone();
            latest_key.append("-latest");
            proof {
                assert(latest_key@ =~= mc@ + "-latest"@);
            }
            let ghost before_vals = promotions.as_map();
            promote(&mut promotions, latest_key, neo_version);
            proof {
                lemma_promote_views(
                    before_vals,
                    mc@ + "-latest"@,
                    *neo_version,
                    promotions.as_map(),
                );
            }
            if !ends_with_str(neo_version.as_str(), "-beta") {
                let mut rec_key = mc.clone();
                rec_key.append("-recommended");
                proof {
                    assert(rec_key@ =~= mc@ + "-recommended"@);
                }
                let ghost mid_vals = promotions.as_map();
                promote(&mut promotions, rec_key, neo_version);
                proof {
                    lemma_promote_views(
                        mid_vals,
                        mc@ + "-recommended"@,
                        *neo_version,
                        promotions.as_map(),
                    );
                }
            }
            v = v + 1;
        }
        proof {
            assert(spec_promote_group(
                spec_promotions(groups, g as int),
                groups[g as int].0,
                bucket,
                m as int,
            ) == spec_promotions(groups, g + 1 as int));
        }
        g = g + 1;
    }
    promotions
}

/// Lifts `promote`'s effect to the view level.
proof fn lemma_promote_views(
    before: Map<Seq<char>, String>,
    key: Seq<char>,
    version: String,
    after: Map<Seq<char>, String>,
)
    requires
        after == (if before.contains_key(key) && !spec_lex_lt(before[key]@, version@) {
            before
        } else {
            before.insert(key, version)
        }),
    ensures
        crate::forge_installer_profile::v2::token_views(after) == spec_promote(
            crate::forge_installer_profile::v2::token_views(before),
            key,
            version@,
        ),
{
    let tv_before = crate::forge_installer_profile::v2::token_views(before);
    if before.contains_key(key) && !spec_lex_lt(before[key]@, version@) {
        assert(tv_before.contains_key(key) && tv_before[key] == before[key]@);
    } else {
        assert(crate::forge_installer_profile::v2::token_views(after) =~= tv_before.insert(
            key,
            version@,
        ));
    }
}

} // verus!
