//! The current installer manifest schema: data tokens, processors, and the
//! token-substitution grammar their argument and output templates use.
use vstd::prelude::*;
use vstd::string::*;

verus! {

use crate::Artifact;
use crate::Sha1Sum;
use crate::dict::Dict;
use crate::strutil::{push_char, str_eq};
use super::ForgeVersionLibrary;

/// The error of [`replace_tokens`]: a template that cannot be expanded.
#[derive(Debug)]
pub enum MalformedTemplate {
    /// An escape `\` stands at the final character position.
    BadEscape,
    /// A `{` or `'` is never closed; holds the opening character.
    Unclosed(char),
    /// A `{name}` names a token the environment does not hold.
    MissingKey(String),
}

/// Where the template scanner stands: copying plainly, inside `'...'`, or
/// inside `{...}`; the two scanning states carry the key read so far.
pub ghost enum ScanState {
    Plain,
    Quoted(Seq<char>),
    Braced(Seq<char>),
}

/// One token environment entry per key, as character sequences.
pub open spec fn token_views(m: Map<Seq<char>, String>) -> Map<Seq<char>, Seq<char>> {
    Map::new(|k: Seq<char>| m.contains_key(k), |k: Seq<char>| m[k]@)
}

/// The result of scanning the rest `s` of a template in state `st` under the
/// token environment `m`: `\X` emits `X` and an escape at the end fails;
/// `{name}` is replaced by the token under `name` and a missing key fails;
/// `'literal'` is emitted unprocessed; an unclosed `{` or `'` fails; any other
/// character is copied verbatim.
pub open spec fn spec_scan(m: Map<Seq<char>, Seq<char>>, s: Seq<char>, st: ScanState) -> Option<
    Seq<char>,
>
    decreases s.len(),
{
    if s.len() == 0 {
        match st {
            ScanState::Plain => Some(Seq::<char>::empty()),
            _ => None,
        }
    } else {
        let c = s[0];
        match st {
            ScanState::Plain => {
                if c == '\\' {
                    if s.len() == 1 {
                        None
                    } else {
                        match spec_scan(m, s.skip(2), ScanState::Plain) {
                            Some(r) => Some(seq![s[1]] + r),
                            None => None,
                        }
                    }
                } else if c == '{' {
                    spec_scan(m, s.skip(1), ScanState::Braced(Seq::<char>::empty()))
                } else if c == '\'' {
                    spec_scan(m, s.skip(1), ScanState::Quoted(Seq::<char>::empty()))
                } else {
                    match spec_scan(m, s.skip(1), ScanState::Plain) {
                        Some(r) => Some(seq![c] + r),
                        None => None,
                    }
                }
            },
            ScanState::Braced(k) => {
                if c == '\\' {
                    if s.len() == 1 {
                        None
                    } else {
                        spec_scan(m, s.skip(2), ScanState::Braced(k.push(s[1])))
                    }
                } else if c == '}' {
                    if m.contains_key(k) {
                        match spec_scan(m, s.skip(1), ScanState::Plain) {
                            Some(r) => Some(m[k] + r),
                            None => None,
                        }
                    } else {
                        None
                    }
                } else {
                    spec_scan(m, s.skip(1), ScanState::Braced(k.push(c)))
                }
            },
            ScanState::Quoted(k) => {
                if c == '\\' {
                    if s.len() == 1 {
                        None
                    } else {
                        spec_scan(m, s.skip(2), ScanState::Quoted(k.push(s[1])))
                    }
                } else if c == '\'' {
                    match spec_scan(m, s.skip(1), ScanState::Plain) {
                        Some(r) => Some(k + r),
                        None => None,
                    }
                } else {
                    spec_scan(m, s.skip(1), ScanState::Quoted(k.push(c)))
                }
            },
        }
    }
}

/// What expanding the whole template `s` under tokens `m` yields, if anything.
pub open spec fn spec_replace_tokens(m: Map<Seq<char>, Seq<char>>, s: Seq<char>) -> Option<
    Seq<char>,
> {
    spec_scan(m, s, ScanState::Plain)
}

/// Expands a template over the token environment: `\X` emits `X`, `{name}` is
/// replaced by the named token, `'literal'` is emitted without lookup, any
/// other character is copied; an escape at the end, an unclosed `{` or `'`,
/// or a missing key is a malformed template.
pub fn replace_tokens(tokens: &Dict<String>, value: &str) -> (r: Result<String, MalformedTemplate>)
    requires
        tokens.wf(),
    ensures
        r is Ok <==> spec_replace_tokens(token_views(tokens.as_map()), value@) is Some,
        r matches Ok(s) ==> Some(s@) == spec_replace_tokens(token_views(tokens.as_map()), value@),
{
    let ghost m = token_views(tokens.as_map());
    let n = value.unicode_len();
    let mut buf = String::new();
    let mut key = String::new();
    // 0: plain, 1: quoted, 2: braced
    let mut mode: u8 = 0;
    let mut i: usize = 0;
    proof {
        assert(value@.skip(0) =~= value@);
        let s0 = spec_scan(m, value@, ScanState::Plain);
        if s0 is Some {
            assert(buf@ + s0->Some_0 =~= s0->Some_0);
        }
    }
    while i < n
        invariant
            tokens.wf(),
            m == token_views(tokens.as_map()),
            n == value@.len(),
            i <= n,
            mode == 0 || mode == 1 || mode == 2,
            mode == 0 ==> key@ == Seq::<char>::empty(),
            spec_replace_tokens(m, value@) == (match spec_scan(
                m,
                value@.skip(i as int),
                if mode == 0 {
                    ScanState::Plain
                } else if mode == 1 {
                    ScanState::Quoted(key@)
                } else {
                    ScanState::Braced(key@)
                },
            ) {
                Some(r) => Some(buf@ + r),
                None => None::<Seq<char>>,
            }),
        decreases n - i,
    {
        let ghost rest = value@.skip(i as int);
        proof {
            assert(rest.len() == n - i);
            assert(rest[0] == value@[i as int]);
            assert(rest.skip(1) =~= value@.skip(i + 1));
            if i + 2 <= n {
                assert(rest.skip(2) =~= value@.skip(i + 2));
            }
        }
        let c = value.get_char(i);
        if c == '\\' {
            if i + 1 == n {
                return Err(MalformedTemplate::BadEscape);
            }
            let d = value.get_char(i + 1);
            if mode == 0 {
                let ghost old_buf = buf@;
                push_char(&mut buf, d);
                proof {
                    assert forall|r: Seq<char>| true implies old_buf + (seq![d] + r) =~= buf@
                        + r by {}
                }
            } else {
                push_char(&mut key, d);
            }
            i = i + 2;
        } else if mode == 0 {
            if c == '{' {
                mode = 2;
                i = i + 1;
            } else if c == '\'' {
                mode = 1;
                i = i + 1;
            } else {
                let ghost old_buf = buf@;
                push_char(&mut buf, c);
                proof {
                    assert forall|r: Seq<char>| true implies old_buf + (seq![c] + r) =~= buf@
                        + r by {}
                }
                i = i + 1;
            }
        } else if mode == 2 {
            if c == '}' {
                match tokens.get(key.as_str()) {
                    Some(v) => {
                        let ghost old_buf = buf@;
                        let ghost kv = v@;
                        buf.append(v.as_str());
                        proof {
                            assert(m.contains_key(key@) && m[key@] == kv);
                            assert forall|r: Seq<char>| true implies old_buf + (kv + r) =~= buf@
                                + r by {}
                        }
                        key = String::new();
                        mode = 0;
                        i = i + 1;
                    },
                    None => {
                        return Err(MalformedTemplate::MissingKey(key));
                    },
                }
            } else {
                push_char(&mut key, c);
                i = i + 1;
            }
        } else {
            if c == '\'' {
                let ghost old_buf = buf@;
                let ghost kv = key@;
                buf.append(key.as_str());
                proof {
                    assert forall|r: Seq<char>| true implies old_buf + (kv + r) =~= buf@ + r by {}
                }
                key = String::new();
                mode = 0;
                i = i + 1;
            } else {
                push_char(&mut key, c);
                i = i + 1;
            }
        }
    }
    proof {
        assert(value@.skip(n as int) =~= Seq::<char>::empty());
    }
    if mode == 1 {
        return Err(MalformedTemplate::Unclosed('\''));
    }
    if mode == 2 {
        return Err(MalformedTemplate::Unclosed('{'));
    }
    proof {
        assert(buf@ + Seq::<char>::empty() =~= buf@);
    }
    Ok(buf)
}

/// One data entry of the current schema: the value for each side.
pub struct DataFile {
    pub client: String,
    pub server: String,
}

/// One external build step: the tool jar to run, its classpath, templated
/// arguments, and declared outputs with their expected-digest templates.
pub struct Processor {
    pub sides: Option<Vec<String>>,
    pub jar: Artifact,
    pub classpath: Vec<Artifact>,
    pub args: Vec<String>,
    pub outputs: Dict<Option<String>>,
}

impl Processor {
    /// Whether the step runs on `side`: it does unless it names sides and
    /// `side` is not among them.
    pub open spec fn spec_is_side(&self, side: Seq<char>) -> bool {
        match self.sides {
            None => true,
            Some(v) => v.deep_view().contains(side),
        }
    }

    /// Whether the step runs on `side`.
    pub fn is_side(&self, side: &str) -> (r: bool)
        ensures
            r == self.spec_is_side(side@),
    {
        match &self.sides {
            None => true,
            Some(v) => {
                proof {
                    assert(*v == self.sides->Some_0);
                }
                let n = v.len();
                let mut i: usize = 0;
                while i < n
                    invariant
                        n == v@.len(),
                        *v == self.sides->Some_0,
                        self.sides is Some,
                        i <= n,
                        forall|j: int| 0 <= j < i ==> v.deep_view()[j] != side@,
                    decreases n - i,
                {
                    if str_eq(v[i].as_str(), side) {
                        proof {
                            assert(v.deep_view()[i as int] == side@);
                            assert(v.deep_view().contains(side@));
                        }
                        return true;
                    }
                    i = i + 1;
                }
                proof {
                    assert(forall|j: int| 0 <= j < v.deep_view().len() ==> v.deep_view()[j] != side@);
                }
                false
            },
        }
    }
}

/// The error of one processor step, before or after its tool runs.
#[derive(Debug)]
pub enum ProcessorError {
    /// A whole-argument `[coordinate]` failed to parse; holds the text.
    BadCoordinate(String),
    /// An argument or output template could not be expanded.
    BadTemplate(MalformedTemplate),
    /// An output entry carries no expected-digest template, or one that
    /// cannot be expanded; holds the output key template.
    BadOutputConfig(String),
    /// The tool jar is missing or names no entry-point class.
    MissingEntryPoint,
    /// Classpath entries with no local file; holds every missing descriptor.
    MissingDependencies(Vec<String>),
    /// Declared outputs missing or digest-mismatched after the run; holds
    /// every violating output path.
    InvalidOutputs(Vec<String>),
}

/// Whether the whole argument is delimited by `open` and `close`.
pub open spec fn spec_delimited(t: Seq<char>, open: char, close: char) -> bool {
    t.len() >= 2 && t[0] == open && t.last() == close
}

/// The text between the delimiters.
pub open spec fn spec_inner(t: Seq<char>) -> Seq<char> {
    t.subrange(1, t.len() - 1)
}

/// What one argument template expands to: a whole-argument `[coordinate]`
/// names the artifact's local path under the libraries directory, bypassing
/// the token map; anything else goes through token substitution. Nothing when
/// the coordinate does not parse or the template is malformed.
pub open spec fn spec_expand_arg(
    m: Map<Seq<char>, Seq<char>>,
    libraries_dir: Seq<char>,
    t: Seq<char>,
) -> Option<Seq<char>> {
    if spec_delimited(t, '[', ']') {
        if crate::spec_parseable(spec_inner(t)) {
            Some(libraries_dir + seq!['/'] + crate::spec_path_string(crate::spec_parse(spec_inner(t))))
        } else {
            None
        }
    } else {
        spec_replace_tokens(m, t)
    }
}

/// Expands one argument template: the whole-argument `[coordinate]` form to
/// the artifact's local path, anything else through token substitution.
pub fn expand_arg(tokens: &Dict<String>, libraries_dir: &str, t: &str) -> (r: Result<
    String,
    ProcessorError,
>)
    requires
        tokens.wf(),
    ensures
        r is Ok <==> spec_expand_arg(token_views(tokens.as_map()), libraries_dir@, t@) is Some,
        r matches Ok(s) ==> Some(s@) == spec_expand_arg(
            token_views(tokens.as_map()),
            libraries_dir@,
            t@,
        ),
{
    let n = t.unicode_len();
    if n >= 2 && t.get_char(0) == '[' && t.get_char(n - 1) == ']' {
        let inner = t.substring_char(1, n - 1);
        proof {
            assert(inner@ == spec_inner(t@));
        }
        match Artifact::parse(inner) {
            Ok(artifact) => Ok(artifact.get_local_path(libraries_dir)),
            Err(_) => Err(ProcessorError::BadCoordinate(inner.to_owned())),
        }
    } else {
        match replace_tokens(tokens, t) {
            Ok(s) => Ok(s),
            Err(e) => Err(ProcessorError::BadTemplate(e)),
        }
    }
}

/// The descriptors of the classpath entries without a local file, in order.
pub open spec fn spec_missing_deps(cp: Seq<Artifact>, present: Seq<bool>, n: int) -> Seq<Seq<char>>
    decreases n,
{
    if n <= 0 {
        Seq::<Seq<char>>::empty()
    } else {
        spec_missing_deps(cp, present, n - 1) + (if present[n - 1] {
            Seq::<Seq<char>>::empty()
        } else {
            seq![crate::spec_descriptor(cp[n - 1]@)]
        })
    }
}

impl Processor {
    /// Expands every argument template of the step, in order; the first
    /// template that cannot be expanded aborts before the tool is invoked.
    pub fn expand_args(&self, tokens: &Dict<String>, libraries_dir: &str) -> (r: Result<
        Vec<String>,
        ProcessorError,
    >)
        requires
            tokens.wf(),
        ensures
            r is Ok <==> (forall|i: int|
                0 <= i < self.args@.len() ==> spec_expand_arg(
                    token_views(tokens.as_map()),
                    libraries_dir@,
                    self.args.deep_view()[i],
                ) is Some),
            r matches Ok(v) ==> v@.len() == self.args@.len() && (forall|i: int|
                0 <= i < v@.len() ==> Some(#[trigger] v.deep_view()[i]) == spec_expand_arg(
                    token_views(tokens.as_map()),
                    libraries_dir@,
                    self.args.deep_view()[i],
                )),
    {
        let mut out: Vec<String> = Vec::new();
        let n = self.args.len();
        let mut i: usize = 0;
        while i < n
            invariant
                tokens.wf(),
                n == self.args@.len(),
                i <= n,
                out@.len() == i,
                forall|j: int|
                    0 <= j < i ==> Some(#[trigger] out.deep_view()[j]) == spec_expand_arg(
                        token_views(tokens.as_map()),
                        libraries_dir@,
                        self.args.deep_view()[j],
                    ),
            decreases n - i,
        {
            let ghost before = out.deep_view();
            match expand_arg(tokens, libraries_dir, self.args[i].as_str()) {
                Ok(s) => {
                    out.push(s);
                    proof {
                        assert(out.deep_view() =~= before.push(out@.last()@));
                        assert(self.args@[i as int]@ == self.args.deep_view()[i as int]);
                    }
                },
                Err(e) => {
                    proof {
                        assert(self.args@[i as int]@ == self.args.deep_view()[i as int]);
                    }
                    return Err(e);
                },
            }
            i = i + 1;
        }
        proof {
            assert forall|i: int| 0 <= i < self.args@.len() implies spec_expand_arg(
                token_views(tokens.as_map()),
                libraries_dir@,
                self.args.deep_view()[i],
            ) is Some by {
                assert(Some(out.deep_view()[i]) == spec_expand_arg(
                    token_views(tokens.as_map()),
                    libraries_dir@,
                    self.args.deep_view()[i],
                ));
            }
        }
        Ok(out)
    }

    /// Builds the tool classpath: the tool jar's local path first, then every
    /// classpath entry's local path in declared order. `present` says, entry
    /// for entry, whether a local file exists; any absent entry is fatal, and
    /// every missing descriptor is collected before the step is abandoned.
    pub fn build_classpath(&self, libraries_dir: &str, present: &Vec<bool>) -> (r: Result<
        Vec<String>,
        ProcessorError,
    >)
        requires
            present@.len() == self.classpath@.len(),
        ensures
            r is Ok <==> (forall|i: int| 0 <= i < present@.len() ==> present@[i]),
            r matches Ok(cp) ==> {
                &&& cp@.len() == self.classpath@.len() + 1
                &&& cp.deep_view()[0] == libraries_dir@ + seq!['/'] + crate::spec_path_string(
                    self.jar@,
                )
                &&& forall|i: int|
                    0 <= i < self.classpath@.len() ==> #[trigger] cp.deep_view()[i + 1]
                        == libraries_dir@ + seq!['/'] + crate::spec_path_string(
                        self.classpath@[i]@,
                    )
            },
            r matches Err(e) ==> e matches ProcessorError::MissingDependencies(d)
                && d.deep_view() == spec_missing_deps(
                self.classpath@,
                present@,
                present@.len() as int,
            ),
    {
        let mut cp: Vec<String> = Vec::new();
        let mut missing: Vec<String> = Vec::new();
        cp.push(self.jar.get_local_path(libraries_dir));
        let n = self.classpath.len();
        let mut i: usize = 0;
        while i < n
            invariant
                n == self.classpath@.len(),
                present@.len() == n,
                i <= n,
                cp@.len() == i + 1,
                cp.deep_view()[0] == libraries_dir@ + seq!['/'] + crate::spec_path_string(
                    self.jar@,
                ),
                forall|j: int|
                    0 <= j < i ==> #[trigger] cp.deep_view()[j + 1] == libraries_dir@ + seq!['/']
                        + crate::spec_path_string(self.classpath@[j]@),
                missing.deep_view() == spec_missing_deps(self.classpath@, present@, i as int),
                missing@.len() == 0 <==> (forall|j: int| 0 <= j < i ==> present@[j]),
            decreases n - i,
        {
            let ghost cp_before = cp.deep_view();
            let ghost miss_before = missing.deep_view();
            if !present[i] {
                missing.push(self.classpath[i].get_descriptor());
                proof {
                    assert(missing.deep_view() =~= miss_before.push(
                        crate::spec_descriptor(self.classpath@[i as int]@),
                    ));
                    assert(miss_before + seq![crate::spec_descriptor(self.classpath@[i as int]@)]
                        =~= missing.deep_view());
                }
            } else {
                proof {
                    assert(miss_before + Seq::<Seq<char>>::empty() =~= miss_before);
                }
            }
            cp.push(self.classpath[i].get_local_path(libraries_dir));
            proof {
                assert(cp.deep_view() =~= cp_before.push(
                    libraries_dir@ + seq!['/'] + crate::spec_path_string(
                        self.classpath@[i as int]@,
                    ),
                ));
            }
            i = i + 1;
        }
        if missing.len() > 0 {
            proof {
                let k = choose|k: int| 0 <= k < n && !present@[k];
            }
            return Err(ProcessorError::MissingDependencies(missing));
        }
        Ok(cp)
    }
}

/// A whole current-schema manifest.
pub struct ForgeInstallerProfileV2 {
    pub spec_number: u8,
    pub profile: String,
    pub version: String,
    pub icon: Option<String>,
    pub json: String,
    pub path: Option<Artifact>,
    pub logo: String,
    pub minecraft: String,
    pub welcome: String,
    pub data: Dict<DataFile>,
    pub processors: Vec<Processor>,
    pub libraries: Vec<ForgeVersionLibrary>,
    pub hide_extract: Option<bool>,
    pub mirror_list: Option<String>,
    pub server_jar_path: Option<String>,
}

impl ForgeInstallerProfileV2 {
    /// The maps inside the manifest have well-formed key sets.
    pub open spec fn wf(&self) -> bool {
        &&& self.data.wf()
        &&& forall|i: int|
            0 <= i < self.processors@.len() ==> (#[trigger] self.processors@[i]).outputs.wf()
    }

    /// The data tokens for one side: each data key mapped to its value for
    /// that side.
    pub open spec fn spec_data_tokens(&self, is_client: bool) -> Map<Seq<char>, Seq<char>> {
        Map::new(
            |k: Seq<char>| self.data.as_map().contains_key(k),
            |k: Seq<char>|
                if is_client {
                    self.data.as_map()[k].client@
                } else {
                    self.data.as_map()[k].server@
                },
        )
    }

    /// The processors that run on `side`, in manifest order.
    pub fn get_processors(&self, side: &str) -> (r: Vec<&Processor>)
        ensures
            r@.len() == self.processors@.filter(|p: Processor| p.spec_is_side(side@)).len(),
            forall|i: int|
                0 <= i < r@.len() ==> *(#[trigger] r@[i]) == self.processors@.filter(
                    |p: Processor| p.spec_is_side(side@),
                )[i],
    {
        let ghost sel = self.processors@.filter(|p: Processor| p.spec_is_side(side@));
        let mut r: Vec<&Processor> = Vec::new();
        let n = self.processors.len();
        let mut i: usize = 0;
        while i < n
            invariant
                n == self.processors@.len(),
                i <= n,
                r@.len() == self.processors@.subrange(0, i as int).filter(
                    |p: Processor| p.spec_is_side(side@),
                ).len(),
                forall|k: int|
                    0 <= k < r@.len() ==> *(#[trigger] r@[k]) == self.processors@.subrange(
                        0,
                        i as int,
                    ).filter(|p: Processor| p.spec_is_side(side@))[k],
            decreases n - i,
        {
            let ghost pre = self.processors@.subrange(0, i as int);
            let ghost pre1 = self.processors@.subrange(0, i + 1 as int);
            proof {
                assert(pre1.drop_last() =~= pre);
                reveal(Seq::filter);
            }
            if self.processors[i].is_side(side) {
                r.push(&self.processors[i]);
            }
            i = i + 1;
        }
        proof {
            assert(self.processors@.subrange(0, n as int) =~= self.processors@);
        }
        r
    }

    /// The first `upto` data entries stand in `m` with the side's value.
    pub open spec fn spec_data_prefix(
        ps: Seq<(Seq<char>, DataFile)>,
        m: Map<Seq<char>, String>,
        is_client: bool,
        upto: int,
    ) -> bool {
        forall|j: int|
            0 <= j < upto ==> m.contains_key((#[trigger] ps[j]).0) && m[ps[j].0]@ == (if is_client {
                ps[j].1.client@
            } else {
                ps[j].1.server@
            })
    }

    /// The data tokens for one side: each data key with that side's value.
    pub fn get_data(&self, is_client: bool) -> (r: Dict<String>)
        requires
            self.data.wf(),
        ensures
            r.wf(),
            token_views(r.as_map()) == self.spec_data_tokens(is_client),
    {
        let mut r: Dict<String> = Dict::new();
        let n = self.data.len();
        let mut i: usize = 0;
        while i < n
            invariant
                self.data.wf(),
                n == self.data.spec_pairs().len(),
                i <= n,
                r.wf(),
                forall|k: Seq<char>|
                    r.as_map().contains_key(k) <==> exists|j: int|
                        0 <= j < i && (#[trigger] self.data.spec_pairs()[j]).0 == k,
                Self::spec_data_prefix(self.data.spec_pairs(), r.as_map(), is_client, i as int),
            decreases n - i,
        {
            let entry = self.data.entry_at(i);
            let value = if is_client {
                entry.1.client.clone()
            } else {
                entry.1.server.clone()
            };
            let ghost before = r.as_map();
            let ghost vv = value@;
            let ghost prev = i as int;
            r.insert(entry.0.clone(), value);
            i = i + 1;
            proof {
                let ghost ps = self.data.spec_pairs();
                assert(r.as_map() =~= before.insert(ps[prev].0, r.as_map()[ps[prev].0]));
                assert(r.as_map()[ps[prev].0]@ == vv);
                assert forall|j: int| 0 <= j < i implies r.as_map().contains_key(
                    (#[trigger] ps[j]).0,
                ) && r.as_map()[ps[j].0]@ == (if is_client {
                    ps[j].1.client@
                } else {
                    ps[j].1.server@
                }) by {
                    if j < prev {
                        assert(ps[j].0 != ps[prev].0);
                        assert(before.contains_key(ps[j].0));
                        assert(before[ps[j].0]@ == (if is_client {
                            ps[j].1.client@
                        } else {
                            ps[j].1.server@
                        }));
                        assert(r.as_map()[ps[j].0] == before[ps[j].0]);
                    }
                }
                assert(Self::spec_data_prefix(ps, r.as_map(), is_client, i as int));
            }
        }
        proof {
            let dm = self.data.as_map();
            assert forall|k: Seq<char>| #[trigger]
                r.as_map().contains_key(k) == dm.contains_key(k) by {
                crate::dict::lemma_map_of_contains(self.data.spec_pairs(), k);
            }
            assert forall|k: Seq<char>| dm.contains_key(k) implies r.as_map()[k]@ == (if is_client {
                dm[k].client@
            } else {
                dm[k].server@
            }) by {
                crate::dict::lemma_map_of_contains(self.data.spec_pairs(), k);
                let j = choose|j: int|
                    0 <= j < self.data.spec_pairs().len() && (#[trigger] self.data.spec_pairs()[j]).0
                        == k;
                crate::dict::lemma_map_of_get(self.data.spec_pairs(), j);
                assert(r.as_map().contains_key(self.data.spec_pairs()[j].0));
                assert(r.as_map()[self.data.spec_pairs()[j].0]@ == (if is_client {
                    self.data.spec_pairs()[j].1.client@
                } else {
                    self.data.spec_pairs()[j].1.server@
                }));
            }
            assert(token_views(r.as_map()) =~= self.spec_data_tokens(is_client));
        }
        r
    }

    /// Every library entry of the manifest, in order.
    pub fn get_libraries(&self) -> (r: Vec<&ForgeVersionLibrary>)
        ensures
            r@.len() == self.libraries@.len(),
            forall|i: int| 0 <= i < r@.len() ==> *(#[trigger] r@[i]) == self.libraries@[i],
    {
        let mut r: Vec<&ForgeVersionLibrary> = Vec::new();
        let n = self.libraries.len();
        let mut i: usize = 0;
        while i < n
            invariant
                n == self.libraries@.len(),
                i <= n,
                r@.len() == i,
                forall|k: int| 0 <= k < i ==> *(#[trigger] r@[k]) == self.libraries@[k],
            decreases n - i,
        {
            r.push(&self.libraries[i]);
            i = i + 1;
        }
        r
    }
}

/// One downloadable artifact of the current schema: its path, url, checksum
/// and size, each optional.
pub struct MojangArtifact {
    pub path: Option<String>,
    pub url: Option<String>,
    pub sha1: Option<Sha1Sum>,
    pub size: Option<u32>,
}

impl MojangArtifact {
    /// An artifact known only by its path.
    pub fn new(artifact: String) -> (r: Self)
        ensures
            r.path == Some(artifact),
            r.url is None,
            r.sha1 is None,
            r.size is None,
    {
        MojangArtifact { path: Some(artifact), sha1: None, size: None, url: None }
    }
}

/// The download section of a current-schema library entry.
pub struct MojangLibraryDownloads {
    pub artifact: Option<MojangArtifact>,
    pub classifiers: Option<Dict<MojangArtifact>>,
}

/// A current-schema library entry: its coordinate and download section.
pub struct MojangLibrary {
    pub name: Artifact,
    pub downloads: MojangLibraryDownloads,
}

impl MojangLibrary {
    /// Distils the entry into what the resolution engine needs: its
    /// coordinate, the expected digest and download url of its artifact block
    /// (nothing of either when the block is absent), and the caller's
    /// enablement verdict.
    pub fn to_requirement(&self, enabled: bool) -> (r:
        crate::download_utils::LibraryRequirement)
        ensures
            r.coordinate@ == self.name@,
            r.expected.deep_view() == (match self.downloads.artifact {
                Some(a) => a.sha1.deep_view(),
                None => None::<Seq<u8>>,
            }),
            r.url.deep_view() == (match self.downloads.artifact {
                Some(a) => a.url.deep_view(),
                None => None::<Seq<char>>,
            }),
            r.enabled == enabled,
    {
        let (expected, url): (Option<Sha1Sum>, Option<String>) = match &self.downloads.artifact {
            Some(a) => (
                match &a.sha1 {
                    Some(d) => Some(d.clone()),
                    None => None,
                },
                match &a.url {
                    Some(u) => Some(u.clone()),
                    None => None,
                },
            ),
            None => (None, None),
        };
        crate::download_utils::LibraryRequirement {
            coordinate: self.name.clone(),
            expected,
            url,
            enabled,
        }
    }
}

/// One download of a current-schema version file.
pub struct Download {
    pub sha1: Sha1Sum,
    pub size: u16,
    pub url: Option<String>,
    pub provided: bool,
}

impl Download {
    /// The url to fetch: empty when none is given or the file is provided
    /// elsewhere, else the stated url.
    pub fn get_url(&self) -> (r: Option<String>)
        ensures
            (self.url is None || self.provided) ==> (r matches Some(u) && u@ == Seq::<
                char,
            >::empty()),
            !(self.url is None || self.provided) ==> (r matches Some(u) && u@
                == self.url.deep_view()->Some_0),
    {
        if self.url.is_none() || self.provided {
            Some(String::new())
        } else {
            match &self.url {
                Some(u) => Some(u.clone()),
                None => None,
            }
        }
    }
}

/// A whole current-schema version file.
pub struct ForgeVersionFileV2 {
    pub id: String,
    pub time: String,
    pub release_time: String,
    pub inherits_from: Option<String>,
    pub release_type: String,
    pub logging: Option<String>,
    pub main_class: String,
    pub downloads: Dict<Download>,
    pub libraries: Vec<MojangLibrary>,
    pub arguments: Dict<String>,
}

} // verus!
