//! The post-processor pipeline's decisions: expanding output and argument
//! templates, the output-digest cache check, the tool classpath and command
//! line, and the run-scoped token environment.
use vstd::prelude::*;
use vstd::string::*;

verus! {

use crate::Sha1Sum;
use crate::dict::Dict;
use crate::forge_client_install::ForgeInstallError;
use crate::forge_installer_profile::ForgeInstallerProfile;
use crate::forge_installer_profile::ForgeVersionLibrary;
use crate::forge_installer_profile::v2::{
    ForgeInstallerProfileV2,
    Processor,
    ProcessorError,
    spec_expand_arg,
    spec_replace_tokens,
    spec_delimited,
    spec_inner,
    expand_arg,
    replace_tokens,
    token_views,
};
use crate::strutil::{
    spec_split,
    spec_trim,
    spec_join,
    split_on,
    str_eq,
    trim_str,
    find_char,
    join_with,
};

/// A line without its trailing carriage return.
pub open spec fn spec_strip_cr(l: Seq<char>) -> Seq<char> {
    if l.len() > 0 && l.last() == '\r' {
        l.drop_last()
    } else {
        l
    }
}

/// The entry-point class one manifest line declares, if it is the
/// `Main-Class` attribute: the text after the first colon, trimmed.
pub open spec fn spec_main_class_of_line(l: Seq<char>) -> Option<Seq<char>> {
    let t = spec_strip_cr(l);
    if t.contains(':') {
        let i = t.index_of_first(':')->Some_0;
        if t.subrange(0, i) == "Main-Class"@ {
            Some(spec_trim(t.subrange(i + 1, t.len() as int)))
        } else {
            None
        }
    } else {
        None
    }
}

/// The first `Main-Class` attribute at or after line `from`.
pub open spec fn spec_main_class_from(lines: Seq<Seq<char>>, from: int) -> Option<Seq<char>>
    decreases lines.len() - from,
{
    if from < 0 || from >= lines.len() {
        None
    } else {
        match spec_main_class_of_line(lines[from]) {
            Some(v) => Some(v),
            None => spec_main_class_from(lines, from + 1),
        }
    }
}

/// The entry-point class a jar manifest declares: the trimmed value of the
/// first `Main-Class` attribute.
pub open spec fn spec_main_class(text: Seq<char>) -> Option<Seq<char>> {
    spec_main_class_from(spec_split(text, '\n'), 0)
}

/// Finds the entry-point class in a jar manifest's text: the first line whose
/// key before the colon is exactly `Main-Class`, its value trimmed; nothing
/// when no line declares one.
pub fn find_main_class(text: &str) -> (r: Option<String>)
    ensures
        match r {
            Some(s) => spec_main_class(text@) == Some(s@),
            None => spec_main_class(text@) is None,
        },
{
    let lines = split_on(text, '\n');
    let n = lines.len();
    let mut i: usize = 0;
    while i < n
        invariant
            n == lines@.len(),
            lines.deep_view() == spec_split(text@, '\n'),
            i <= n,
            spec_main_class(text@) == spec_main_class_from(lines.deep_view(), i as int),
        decreases n - i,
    {
        let line = &lines[i];
        proof {
            assert(lines@[i as int]@ == lines.deep_view()[i as int]);
        }
        let ln = line.unicode_len();
        let stripped: &str = if ln > 0 && line.as_str().get_char(ln - 1) == '\r' {
            line.as_str().substring_char(0, ln - 1)
        } else {
            line.as_str()
        };
        proof {
            assert(stripped@ =~= spec_strip_cr(lines.deep_view()[i as int]));
        }
        match find_char(stripped, ':') {
            Some(ci) => {
                proof {
                    stripped@.index_of_first_ensures(':');
                    assert(stripped@.index_of_first(':') == Some(ci as int));
                }
                let key = stripped.substring_char(0, ci);
                if str_eq(key, "Main-Class") {
                    let sn = stripped.unicode_len();
                    let value = trim_str(stripped.substring_char(ci + 1, sn));
                    return Some(value);
                }
            },
            None => {},
        }
        i = i + 1;
    }
    None
}

/// The expanded outputs of one processor step: each output key (a path) with
/// its expected digest text, both templates expanded; a key may also be a
/// whole-argument `[coordinate]` naming a local artifact path. An output with
/// no digest template, or one that cannot be expanded, is a bad output
/// configuration.
pub fn expand_outputs(
    outputs: &Dict<Option<String>>,
    tokens: &Dict<String>,
    libraries_dir: &str,
) -> (r: Result<Vec<(String, String)>, ProcessorError>)
    requires
        tokens.wf(),
    ensures
        r is Ok <==> (forall|i: int|
            0 <= i < outputs.spec_pairs().len() ==> spec_expand_arg(
                token_views(tokens.as_map()),
                libraries_dir@,
                (#[trigger] outputs.spec_pairs()[i]).0,
            ) is Some && (outputs.spec_pairs()[i].1 matches Some(v) && spec_replace_tokens(
                token_views(tokens.as_map()),
                v@,
            ) is Some)),
        r matches Ok(list) ==> list@.len() == outputs.spec_pairs().len() && (forall|i: int|
            0 <= i < list@.len() ==> Some((#[trigger] list@[i]).0@) == spec_expand_arg(
                token_views(tokens.as_map()),
                libraries_dir@,
                outputs.spec_pairs()[i].0,
            ) && Some(list@[i].1@) == spec_replace_tokens(
                token_views(tokens.as_map()),
                outputs.spec_pairs()[i].1->Some_0@,
            )),
{
    let mut list: Vec<(String, String)> = Vec::new();
    let n = outputs.len();
    let mut i: usize = 0;
    while i < n
        invariant
            tokens.wf(),
            n == outputs.spec_pairs().len(),
            i <= n,
            list@.len() == i,
            forall|j: int|
                0 <= j < i ==> Some((#[trigger] list@[j]).0@) == spec_expand_arg(
                    token_views(tokens.as_map()),
                    libraries_dir@,
                    outputs.spec_pairs()[j].0,
                ) && (outputs.spec_pairs()[j].1 matches Some(v) && Some(list@[j].1@)
                    == spec_replace_tokens(token_views(tokens.as_map()), v@)),
        decreases n - i,
    {
        let entry = outputs.entry_at(i);
        let key = match expand_arg(tokens, libraries_dir, entry.0.as_str()) {
            Ok(k) => k,
            Err(e) => {
                return Err(e);
            },
        };
        let value = match &entry.1 {
            Some(v) => match replace_tokens(tokens, v.as_str()) {
                Ok(s) => s,
                Err(_) => {
                    return Err(ProcessorError::BadOutputConfig(entry.0.clone()));
                },
            },
            None => {
                return Err(ProcessorError::BadOutputConfig(entry.0.clone()));
            },
        };
        list.push((key, value));
        i = i + 1;
    }
    proof {
        assert forall|i: int| 0 <= i < outputs.spec_pairs().len() implies spec_expand_arg(
            token_views(tokens.as_map()),
            libraries_dir@,
            (#[trigger] outputs.spec_pairs()[i]).0,
        ) is Some && (outputs.spec_pairs()[i].1 matches Some(v) && spec_replace_tokens(
            token_views(tokens.as_map()),
            v@,
        ) is Some) by {
            assert(Some(list@[i].0@) == spec_expand_arg(
                token_views(tokens.as_map()),
                libraries_dir@,
                outputs.spec_pairs()[i].0,
            ));
        }
    }
    Ok(list)
}

/// Whether one declared output is valid: a file is there and its digest is
/// exactly what the expected 40-digit hex text denotes; unparseable expected
/// text validates nothing.
pub open spec fn spec_output_valid(expected_hex: Seq<char>, observed: Option<Seq<u8>>) -> bool {
    &&& expected_hex.len() == 40
    &&& crate::spec_all_hex(expected_hex)
    &&& observed matches Some(d) && d == crate::spec_from_hex(expected_hex)
}

/// The output paths among the first `n` whose file is present but invalid:
/// these are deleted before a re-run.
pub open spec fn spec_stale_outputs(
    expected: Seq<(Seq<char>, Seq<char>)>,
    observed: Seq<Option<Seq<u8>>>,
    n: int,
) -> Seq<Seq<char>>
    decreases n,
{
    if n <= 0 {
        Seq::<Seq<char>>::empty()
    } else {
        spec_stale_outputs(expected, observed, n - 1) + (if observed[n - 1] is Some
            && !spec_output_valid(expected[n - 1].1, observed[n - 1]) {
            seq![expected[n - 1].0]
        } else {
            Seq::<Seq<char>>::empty()
        })
    }
}

/// The output paths among the first `n` that are not valid: missing files and
/// digest mismatches both.
pub open spec fn spec_invalid_outputs(
    expected: Seq<(Seq<char>, Seq<char>)>,
    observed: Seq<Option<Seq<u8>>>,
    n: int,
) -> Seq<Seq<char>>
    decreases n,
{
    if n <= 0 {
        Seq::<Seq<char>>::empty()
    } else {
        spec_invalid_outputs(expected, observed, n - 1) + (if !spec_output_valid(
            expected[n - 1].1,
            observed[n - 1],
        ) {
            seq![expected[n - 1].0]
        } else {
            Seq::<Seq<char>>::empty()
        })
    }
}

/// The deep view of expanded outputs: each path and expected text as characters.
pub open spec fn spec_outputs_view(list: Seq<(String, String)>) -> Seq<(Seq<char>, Seq<char>)> {
    Seq::new(list.len(), |i: int| (list[i].0@, list[i].1@))
}

/// What checking the declared outputs found.
pub struct OutputsCheck {
    /// Every declared output exists with its expected digest.
    pub all_valid: bool,
    /// The paths holding a file that does not validate: deleted before a re-run.
    pub stale: Vec<String>,
    /// Every path that does not validate, missing files included.
    pub invalid: Vec<String>,
}

/// Checks every declared output of a step against what the caller observed on
/// disk: the step may be skipped — its sole caching mechanism — exactly when
/// every output file is present with its expected digest; mutating any one
/// output makes the check fail, which forces the tool to run.
pub fn check_outputs(expected: &Vec<(String, String)>, observed: &Vec<Option<Sha1Sum>>) -> (r:
    OutputsCheck)
    requires
        observed@.len() == expected@.len(),
    ensures
        r.all_valid <==> (forall|i: int|
            0 <= i < expected@.len() ==> spec_output_valid(
                spec_outputs_view(expected@)[i].1,
                #[trigger] observed.deep_view()[i],
            )),
        r.stale.deep_view() == spec_stale_outputs(
            spec_outputs_view(expected@),
            observed.deep_view(),
            expected@.len() as int,
        ),
        r.invalid.deep_view() == spec_invalid_outputs(
            spec_outputs_view(expected@),
            observed.deep_view(),
            expected@.len() as int,
        ),
{
    let mut all_valid = true;
    let mut stale: Vec<String> = Vec::new();
    let mut invalid: Vec<String> = Vec::new();
    let n = expected.len();
    let mut i: usize = 0;
    while i < n
        invariant
            n == expected@.len(),
            observed@.len() == n,
            i <= n,
            all_valid <==> (forall|j: int|
                0 <= j < i ==> spec_output_valid(
                    spec_outputs_view(expected@)[j].1,
                    #[trigger] observed.deep_view()[j],
                )),
            stale.deep_view() == spec_stale_outputs(
                spec_outputs_view(expected@),
                observed.deep_view(),
                i as int,
            ),
            invalid.deep_view() == spec_invalid_outputs(
                spec_outputs_view(expected@),
                observed.deep_view(),
                i as int,
            ),
        decreases n - i,
    {
        let valid = match &observed[i] {
            Some(d) => match Sha1Sum::from_hex(expected[i].1.as_str()) {
                Ok(e) => e.equals(d),
                Err(_) => false,
            },
            None => false,
        };
        proof {
            assert(observed@[i as int].deep_view() == observed.deep_view()[i as int]);
            assert(valid == spec_output_valid(
                spec_outputs_view(expected@)[i as int].1,
                observed.deep_view()[i as int],
            ));
        }
        let ghost stale_before = stale.deep_view();
        let ghost invalid_before = invalid.deep_view();
        if !valid {
            all_valid = false;
            invalid.push(expected[i].0.clone());
            proof {
                assert(invalid.deep_view() =~= invalid_before.push(expected@[i as int].0@));
                assert(invalid_before + seq![spec_outputs_view(expected@)[i as int].0]
                    =~= invalid.deep_view());
            }
            let is_present = match &observed[i] {
                Some(_) => true,
                None => false,
            };
            if is_present {
                stale.push(expected[i].0.clone());
                proof {
                    assert(stale.deep_view() =~= stale_before.push(expected@[i as int].0@));
                    assert(stale_before + seq![spec_outputs_view(expected@)[i as int].0]
                        =~= stale.deep_view());
                }
            } else {
                proof {
                    assert(stale_before + Seq::<Seq<char>>::empty() =~= stale_before);
                }
            }
        } else {
            proof {
                assert(stale_before + Seq::<Seq<char>>::empty() =~= stale_before);
                assert(invalid_before + Seq::<Seq<char>>::empty() =~= invalid_before);
            }
        }
        i = i + 1;
    }
    OutputsCheck { all_valid, stale, invalid }
}

/// The command line for one tool invocation: `-cp`, the classpath joined with
/// the host's separator, the entry-point class, then the expanded arguments.
pub fn build_command(
    classpath: &Vec<String>,
    separator: char,
    main_class: &str,
    args: &Vec<String>,
) -> (r: Vec<String>)
    ensures
        r.deep_view() == seq!["-cp"@, spec_join(classpath.deep_view(), separator), main_class@]
            + args.deep_view(),
{
    let mut r: Vec<String> = Vec::new();
    r.push(String::from_str("-cp"));
    r.push(join_with(classpath, separator));
    r.push(main_class.to_owned());
    let n = args.len();
    let mut i: usize = 0;
    while i < n
        invariant
            n == args@.len(),
            i <= n,
            r.deep_view() =~= seq![
                "-cp"@,
                spec_join(classpath.deep_view(), separator),
                main_class@,
            ] + args.deep_view().subrange(0, i as int),
        decreases n - i,
    {
        let ghost before = r.deep_view();
        r.push(args[i].clone());
        proof {
            assert(r.deep_view() =~= before.push(args.deep_view()[i as int]));
            assert(args.deep_view().subrange(0, i + 1 as int) =~= args.deep_view().subrange(
                0,
                i as int,
            ).push(args.deep_view()[i as int]));
        }
        i = i + 1;
    }
    proof {
        assert(args.deep_view().subrange(0, n as int) =~= args.deep_view());
    }
    r
}

/// What one data-token value means for the run: a `[coordinate]` resolves to
/// the artifact's local path, a `'literal'` is its own contents, and anything
/// else names an archive entry to extract to the temporary directory.
pub enum DataPrep {
    LocalCoordinate(String),
    Literal(String),
    ArchiveEntry(String),
}

/// Decides one data-token value: bracketed values resolve to a local artifact
/// path under the libraries directory, quoted values unwrap, anything else is
/// an archive entry for the caller to extract.
pub fn prepare_data_value(libraries_dir: &str, value: &str) -> (r: Result<
    DataPrep,
    crate::InvalidCoordinate,
>)
    ensures
        spec_delimited(value@, '[', ']') ==> (if crate::spec_parseable(spec_inner(value@)) {
            r matches Ok(DataPrep::LocalCoordinate(p)) && p@ == libraries_dir@ + seq!['/']
                + crate::spec_path_string(crate::spec_parse(spec_inner(value@)))
        } else {
            r is Err
        }),
        (!spec_delimited(value@, '[', ']') && spec_delimited(value@, '\'', '\'')) ==> (r matches Ok(
            DataPrep::Literal(s),
        ) && s@ == spec_inner(value@)),
        (!spec_delimited(value@, '[', ']') && !spec_delimited(value@, '\'', '\'')) ==> (r matches
            Ok(DataPrep::ArchiveEntry(s)) && s@ == value@),
{
    let n = value.unicode_len();
    if n >= 2 && value.get_char(0) == '[' && value.get_char(n - 1) == ']' {
        let inner = value.substring_char(1, n - 1);
        proof {
            assert(inner@ == spec_inner(value@));
        }
        match crate::Artifact::parse(inner) {
            Ok(artifact) => Ok(DataPrep::LocalCoordinate(artifact.get_local_path(libraries_dir))),
            Err(e) => Err(e),
        }
    } else if n >= 2 && value.get_char(0) == '\'' && value.get_char(n - 1) == '\'' {
        let inner = value.substring_char(1, n - 1);
        proof {
            assert(inner@ == spec_inner(value@));
        }
        Ok(DataPrep::Literal(inner.to_owned()))
    } else {
        Ok(DataPrep::ArchiveEntry(value.to_owned()))
    }
}

/// The side marker of one run: `client` or `server`.
pub open spec fn spec_run_side(is_client: bool) -> Seq<char> {
    if is_client {
        "client"@
    } else {
        "server"@
    }
}

/// How many of the first `n` processors run on the given side.
pub open spec fn spec_count_on_side(procs: Seq<Processor>, side: Seq<char>, n: int) -> int
    decreases n,
{
    if n <= 0 {
        0
    } else {
        spec_count_on_side(procs, side, n - 1) + (if procs[n - 1].spec_is_side(side) {
            1int
        } else {
            0int
        })
    }
}

/// Whether any processor of the list runs on the given side.
fn any_processor_on_side(processors: &Vec<Processor>, side: &str) -> (r: bool)
    ensures
        r == (exists|i: int|
            0 <= i < processors@.len() && (#[trigger] processors@[i]).spec_is_side(side@)),
{
    let n = processors.len();
    let mut i: usize = 0;
    while i < n
        invariant
            n == processors@.len(),
            i <= n,
            forall|j: int| 0 <= j < i ==> !(#[trigger] processors@[j]).spec_is_side(side@),
        decreases n - i,
    {
        if processors[i].is_side(side) {
            proof {
                assert(processors@[i as int].spec_is_side(side@));
            }
            return true;
        }
        i = i + 1;
    }
    false
}

/// The post-processor pipeline of one install run: the parsed manifest, the
/// run's token environment, and which side it installs.
pub struct PostProcessors {
    profile: ForgeInstallerProfile,
    java_path: String,
    is_client: bool,
    has_tasks: bool,
    data: Dict<String>,
}

impl PostProcessors {
    /// The manifest the pipeline runs against.
    pub closed spec fn spec_profile(&self) -> ForgeInstallerProfile {
        self.profile
    }

    /// Which side this run installs.
    pub closed spec fn spec_is_client(&self) -> bool {
        self.is_client
    }

    /// Whether the manifest declares any processors.
    pub closed spec fn spec_has_tasks(&self) -> bool {
        self.has_tasks
    }

    /// The run's token environment.
    pub closed spec fn spec_data(&self) -> Dict<String> {
        self.data
    }

    /// The path of the external runtime that executes the tools.
    pub closed spec fn spec_java_path(&self) -> Seq<char> {
        self.java_path@
    }

    /// A pipeline always holds a current-schema manifest with well-formed
    /// maps and a well-formed token environment, and it has tasks exactly
    /// when some processor runs on this run's side.
    pub open spec fn wf(&self) -> bool {
        &&& self.spec_profile() is V2
        &&& self.spec_profile()->V2_0.wf()
        &&& self.spec_data().wf()
        &&& self.spec_has_tasks() == (exists|i: int|
            0 <= i < self.spec_profile()->V2_0.processors@.len() && (
            #[trigger] self.spec_profile()->V2_0.processors@[i]).spec_is_side(
                spec_run_side(self.spec_is_client()),
            ))
    }

    /// Builds the pipeline for one run: only a current-schema manifest has
    /// processors, its data block seeds the token environment for the chosen
    /// side, and the pipeline has tasks exactly when some processor runs on
    /// that side.
    pub fn new(profile: ForgeInstallerProfile, is_client: bool, java_path: String) -> (r: Result<
        Self,
        ForgeInstallError,
    >)
        requires
            profile matches ForgeInstallerProfile::V2(p) ==> p.wf(),
        ensures
            r is Ok <==> profile is V2,
            r matches Ok(p) ==> {
                &&& p.wf()
                &&& p.spec_profile() == profile
                &&& p.spec_is_client() == is_client
                &&& p.spec_java_path() == java_path@
                &&& token_views(p.spec_data().as_map()) == profile->V2_0.spec_data_tokens(
                    is_client,
                )
            },
    {
        let data: Dict<String> = match &profile {
            ForgeInstallerProfile::V2(p) => p.get_data(is_client),
            ForgeInstallerProfile::V1(_) => {
                return Err(
                    ForgeInstallError::Other(String::from_str("Not a current-schema profile.")),
                );
            },
        };
        let side = if is_client {
            "client"
        } else {
            "server"
        };
        proof {
            assert(side@ == spec_run_side(is_client));
        }
        let has_tasks = match &profile {
            ForgeInstallerProfile::V2(p) => any_processor_on_side(&p.processors, side),
            ForgeInstallerProfile::V1(_) => false,
        };
        Ok(PostProcessors { profile, java_path, is_client, has_tasks, data })
    }

    /// The current-schema manifest behind the pipeline.
    pub fn get_inner_profile(&self) -> (r: &ForgeInstallerProfileV2)
        requires
            self.wf(),
        ensures
            *r == self.spec_profile()->V2_0,
    {
        match &self.profile {
            ForgeInstallerProfile::V2(p) => p,
            ForgeInstallerProfile::V1(_) => vstd::pervasive::unreached(),
        }
    }

    /// The library entries the pipeline needs: every manifest entry when
    /// there are processors to run, nothing otherwise.
    pub fn get_libraries(&self) -> (r: Vec<&ForgeVersionLibrary>)
        requires
            self.wf(),
        ensures
            self.spec_has_tasks() ==> r@.len() == self.spec_profile()->V2_0.libraries@.len() && (
            forall|i: int|
                0 <= i < r@.len() ==> *(#[trigger] r@[i])
                    == self.spec_profile()->V2_0.libraries@[i]),
            !self.spec_has_tasks() ==> r@.len() == 0,
    {
        if self.has_tasks {
            self.get_inner_profile().get_libraries()
        } else {
            Vec::new()
        }
    }

    /// The work total the pipeline reports: zero when no processor runs on
    /// this side, else the manifest's library count, the processors that run
    /// on this side, and the data entry count together.
    pub fn get_task_count(&self) -> (r: usize)
        requires
            self.wf(),
            self.spec_profile()->V2_0.libraries@.len() + self.spec_profile()->V2_0.processors@.len()
                + self.spec_profile()->V2_0.data.spec_pairs().len() <= usize::MAX,
        ensures
            !self.spec_has_tasks() ==> r == 0,
            self.spec_has_tasks() ==> r == self.spec_profile()->V2_0.libraries@.len()
                + spec_count_on_side(
                self.spec_profile()->V2_0.processors@,
                spec_run_side(self.spec_is_client()),
                self.spec_profile()->V2_0.processors@.len() as int,
            ) + self.spec_profile()->V2_0.data.spec_pairs().len(),
    {
        if !self.has_tasks {
            return 0;
        }
        let inner = self.get_inner_profile();
        let side = if self.is_client {
            "client"
        } else {
            "server"
        };
        proof {
            assert(side@ == spec_run_side(self.spec_is_client()));
        }
        let n = inner.processors.len();
        let mut on_side: usize = 0;
        let mut i: usize = 0;
        while i < n
            invariant
                n == inner.processors@.len(),
                i <= n,
                on_side <= i,
                on_side == spec_count_on_side(inner.processors@, side@, i as int),
            decreases n - i,
        {
            if inner.processors[i].is_side(side) {
                on_side = on_side + 1;
            }
            i = i + 1;
        }
        inner.libraries.len() + on_side + inner.data.len()
    }

    /// Which side this run installs.
    pub fn is_client_side(&self) -> (r: bool)
        ensures
            r == self.spec_is_client(),
    {
        self.is_client
    }

    /// The path of the external runtime that executes the tools.
    pub fn get_java_path(&self) -> (r: &String)
        ensures
            r@ == self.spec_java_path(),
    {
        &self.java_path
    }

    /// The run's token environment.
    pub fn tokens(&self) -> (r: &Dict<String>)
        ensures
            *r == self.spec_data(),
    {
        &self.data
    }

    /// Writes one token of the run's environment, replacing any earlier value.
    pub fn set_token(&mut self, key: String, value: String)
        requires
            old(self).wf(),
        ensures
            final (self).wf(),
            final (self).spec_data().as_map() == old(self).spec_data().as_map().insert(
                key@,
                value,
            ),
            final (self).spec_profile() == old(self).spec_profile(),
            final (self).spec_is_client() == old(self).spec_is_client(),
            final (self).spec_has_tasks() == old(self).spec_has_tasks(),
            final (self).spec_java_path() == old(self).spec_java_path(),
    {
        self.data.insert(key, value);
    }
}

} // verus!
