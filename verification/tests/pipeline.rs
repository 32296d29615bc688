use forge_downloader::dict::Dict;
use forge_downloader::forge_client_install::{
    client_jar_path, libraries_root_path, mod_list_disposition, v1_injected_optionals,
    v1_slim_libraries, version_dir_path, version_json_path, ModListDisposition,
};
use forge_downloader::forge_installer_profile::v1::{ForgeLibrary, ForgeOptional};
use forge_downloader::forge_installer_profile::v2::{expand_arg, Processor, ProcessorError};
use forge_downloader::forge_installer_profile::{ForgeInstallerProfile, ForgeVersionLibrary};
use forge_downloader::post_processors::{
    build_command, check_outputs, expand_outputs, find_main_class, prepare_data_value, DataPrep,
    PostProcessors,
};
use forge_downloader::{Artifact, Sha1Sum};

fn tokens(pairs: &[(&str, &str)]) -> Dict<String> {
    let mut d: Dict<String> = Dict::new();
    for (k, v) in pairs {
        d.insert(k.to_string(), v.to_string());
    }
    d
}

#[test]
fn main_class_is_found_and_trimmed() {
    let manifest = "Manifest-Version: 1.0\r\nMain-Class: com.example.Tool \r\nBuilt-By: x\r\n";
    assert_eq!(find_main_class(manifest).unwrap(), "com.example.Tool");
}

#[test]
fn main_class_missing() {
    assert!(find_main_class("Manifest-Version: 1.0\n").is_none());
    assert!(find_main_class("").is_none());
    // A key that merely begins the same does not match.
    assert!(find_main_class("Main-Classes: a.b.C\n").is_none());
}

#[test]
fn argument_expansion_both_forms() {
    let t = tokens(&[("SIDE", "client")]);
    // The whole-argument coordinate form bypasses the token map.
    assert_eq!(
        expand_arg(&t, "/libs", "[a.b:x:1]").unwrap(),
        "/libs/a/b/x/1/x-1.jar"
    );
    // Anything else goes through substitution.
    assert_eq!(expand_arg(&t, "/libs", "--side={SIDE}").unwrap(), "--side=client");
    // A bracketed coordinate that does not parse is an error.
    assert!(matches!(
        expand_arg(&t, "/libs", "[not-a-coordinate]"),
        Err(ProcessorError::BadCoordinate(_))
    ));
}

fn processor(args: Vec<&str>, classpath: Vec<&str>) -> Processor {
    Processor {
        sides: None,
        jar: Artifact::parse("a.b:tool:1").unwrap(),
        classpath: classpath.iter().map(|c| Artifact::parse(c).unwrap()).collect(),
        args: args.iter().map(|a| a.to_string()).collect(),
        outputs: Dict::new(),
    }
}

#[test]
fn processor_argument_expansion() {
    let t = tokens(&[("INPUT", "/tmp/in.jar")]);
    let p = processor(vec!["--input", "{INPUT}", "[a.b:dep:2]"], vec![]);
    let args = p.expand_args(&t, "/libs").unwrap();
    assert_eq!(args, vec!["--input", "/tmp/in.jar", "/libs/a/b/dep/2/dep-2.jar"]);
    let bad = processor(vec!["{MISSING}"], vec![]);
    assert!(bad.expand_args(&t, "/libs").is_err());
}

#[test]
fn classpath_is_tool_jar_then_dependencies() {
    let p = processor(vec![], vec!["a.b:dep:1", "c.d:dep2:2"]);
    let cp = p.build_classpath("/libs", &vec![true, true]).unwrap();
    assert_eq!(
        cp,
        vec![
            "/libs/a/b/tool/1/tool-1.jar",
            "/libs/a/b/dep/1/dep-1.jar",
            "/libs/c/d/dep2/2/dep2-2.jar"
        ]
    );
}

#[test]
fn missing_classpath_entries_are_all_collected() {
    let p = processor(vec![], vec!["a.b:dep:1", "c.d:dep2:2", "e.f:dep3:3"]);
    match p.build_classpath("/libs", &vec![false, true, false]) {
        Err(ProcessorError::MissingDependencies(missing)) => {
            assert_eq!(missing, vec!["a.b:dep:1".to_string(), "e.f:dep3:3".to_string()]);
        },
        _ => panic!("expected every missing dependency listed"),
    }
}

#[test]
fn expanded_outputs_and_bad_configs() {
    let t = tokens(&[("OUT", "/tmp/out.jar"), ("SHA", "cafebabe")]);
    let mut outputs: Dict<Option<String>> = Dict::new();
    outputs.insert("{OUT}".to_string(), Some("{SHA}".to_string()));
    let list = expand_outputs(&outputs, &t, "/libs").unwrap();
    assert_eq!(list, vec![("/tmp/out.jar".to_string(), "cafebabe".to_string())]);

    let mut no_value: Dict<Option<String>> = Dict::new();
    no_value.insert("{OUT}".to_string(), None);
    assert!(matches!(
        expand_outputs(&no_value, &t, "/libs"),
        Err(ProcessorError::BadOutputConfig(_))
    ));
}

#[test]
fn cache_hit_skips_and_one_mutation_forces_a_run() {
    let bytes = b"the produced output";
    let d = Sha1Sum::from_bytes(bytes);
    let expected = vec![
        ("/tmp/a.jar".to_string(), d.to_hex()),
        ("/tmp/b.jar".to_string(), Sha1Sum::from_bytes(b"other output").to_hex()),
    ];
    // Every output present with its expected digest: the step is skipped.
    let all_good = check_outputs(
        &expected,
        &vec![Some(Sha1Sum::from_bytes(bytes)), Some(Sha1Sum::from_bytes(b"other output"))],
    );
    assert!(all_good.all_valid);
    assert!(all_good.stale.is_empty());
    assert!(all_good.invalid.is_empty());
    // Mutating one output's bytes forces the tool to run.
    let mutated = check_outputs(
        &expected,
        &vec![Some(Sha1Sum::from_bytes(b"tampered")), Some(Sha1Sum::from_bytes(b"other output"))],
    );
    assert!(!mutated.all_valid);
    assert_eq!(mutated.stale, vec!["/tmp/a.jar".to_string()]);
    assert_eq!(mutated.invalid, vec!["/tmp/a.jar".to_string()]);
    // A missing output must run but leaves nothing to delete.
    let missing = check_outputs(&expected, &vec![None, Some(Sha1Sum::from_bytes(b"other output"))]);
    assert!(!missing.all_valid);
    assert!(missing.stale.is_empty());
    assert_eq!(missing.invalid, vec!["/tmp/a.jar".to_string()]);
}

#[test]
fn command_line_shape() {
    let cp = vec!["/libs/tool.jar".to_string(), "/libs/dep.jar".to_string()];
    let args = vec!["--task".to_string(), "patch".to_string()];
    let cmd = build_command(&cp, ':', "com.example.Tool", &args);
    assert_eq!(
        cmd,
        vec!["-cp", "/libs/tool.jar:/libs/dep.jar", "com.example.Tool", "--task", "patch"]
    );
}

#[test]
fn data_values_are_classified() {
    match prepare_data_value("/libs", "[a.b:maps:1@txt]").unwrap() {
        DataPrep::LocalCoordinate(p) => assert_eq!(p, "/libs/a/b/maps/1/maps-1.txt"),
        _ => panic!("bracketed values resolve to artifact paths"),
    }
    match prepare_data_value("/libs", "'/literal'").unwrap() {
        DataPrep::Literal(s) => assert_eq!(s, "/literal"),
        _ => panic!("quoted values unwrap"),
    }
    match prepare_data_value("/libs", "data/client.lzma").unwrap() {
        DataPrep::ArchiveEntry(s) => assert_eq!(s, "data/client.lzma"),
        _ => panic!("anything else names an archive entry"),
    }
    assert!(prepare_data_value("/libs", "[broken]").is_err());
}

fn v2_profile_with_data() -> ForgeInstallerProfile {
    let mut data: Dict<forge_downloader::forge_installer_profile::v2::DataFile> = Dict::new();
    data.insert(
        "MAPPINGS".to_string(),
        forge_downloader::forge_installer_profile::v2::DataFile {
            client: "'/client'".to_string(),
            server: "'/server'".to_string(),
        },
    );
    ForgeInstallerProfile::V2(forge_downloader::forge_installer_profile::v2::ForgeInstallerProfileV2 {
        spec_number: 0,
        profile: "forge".to_string(),
        version: "1.20.1-forge-47.1.0".to_string(),
        icon: None,
        json: "/version.json".to_string(),
        path: None,
        logo: "/big_logo.png".to_string(),
        minecraft: "1.20.1".to_string(),
        welcome: "Welcome".to_string(),
        data,
        processors: vec![],
        libraries: vec![],
        hide_extract: None,
        mirror_list: None,
        server_jar_path: None,
    })
}

#[test]
fn post_processors_seed_and_extend_the_token_environment() {
    let pipeline = PostProcessors::new(v2_profile_with_data(), true, "/usr/bin/java".to_string());
    let mut pipeline = pipeline.unwrap();
    assert_eq!(pipeline.tokens().get("MAPPINGS").unwrap(), "'/client'");
    pipeline.set_token("SIDE".to_string(), "client".to_string());
    pipeline.set_token("ROOT".to_string(), "/game".to_string());
    assert_eq!(pipeline.tokens().get("SIDE").unwrap(), "client");
    assert_eq!(pipeline.tokens().get("ROOT").unwrap(), "/game");
    assert!(pipeline.is_client_side());
    assert_eq!(pipeline.get_java_path(), "/usr/bin/java");
    // No processors: the libraries list is empty and there is no work.
    assert!(pipeline.get_libraries().is_empty());
    assert_eq!(pipeline.get_task_count(), 0);
    assert_eq!(pipeline.get_inner_profile().minecraft, "1.20.1");
}

#[test]
fn post_processors_reject_the_legacy_schema() {
    let v1 = ForgeInstallerProfile::select(
        Some(forge_downloader::forge_installer_profile::v1::ForgeInstallerProfileV1 {
            install: forge_downloader::forge_installer_profile::v1::InstallSectionV1 {
                profile_name: "forge".to_string(),
                target: "t".to_string(),
                path: Artifact::parse("a.b:c:1").unwrap(),
                version: "1".to_string(),
                file_path: "f".to_string(),
                welcome: "w".to_string(),
                minecraft: "1.12.2".to_string(),
                logo: "l".to_string(),
                mirror_list: None,
                mod_list: "none".to_string(),
                strip_meta: None,
            },
            version_info: forge_downloader::forge_installer_profile::ForgeVersionInfo {
                id: "i".to_string(),
                release_type: "release".to_string(),
                time: "t".to_string(),
                release_time: "t".to_string(),
                inherits_from: None,
                logging: None,
                main_class: "m".to_string(),
                libraries: vec![],
                jar: None,
                minecraft_arguments: String::new(),
                arguments: Dict::new(),
            },
            optionals: vec![],
        }),
        None,
    )
    .unwrap();
    assert!(PostProcessors::new(v1, true, "/usr/bin/java".to_string()).is_err());
}

#[test]
fn install_paths_layout() {
    assert_eq!(version_dir_path("/game", "1.20.1-forge"), "/game/versions/1.20.1-forge");
    assert_eq!(
        version_json_path("/game/versions/1.20.1-forge", "1.20.1-forge"),
        "/game/versions/1.20.1-forge/1.20.1-forge.json"
    );
    assert_eq!(libraries_root_path("/game"), "/game/libraries");
    assert_eq!(
        client_jar_path("/game/versions", "1.20.1"),
        "/game/versions/1.20.1/1.20.1.jar"
    );
}

#[test]
fn mod_list_disposition_cases() {
    match mod_list_disposition("absolute", "/game", "/game/versions/v") {
        ModListDisposition::Absolute(p) => assert_eq!(p, "/game/versions/v/mod_list.json"),
        _ => panic!("absolute lists live under the version directory"),
    }
    assert!(matches!(mod_list_disposition("none", "/game", "/v"), ModListDisposition::NoList));
    match mod_list_disposition("", "/game", "/v") {
        ModListDisposition::ModsDir(p) => assert_eq!(p, "/game/mods/mod_list.json"),
        _ => panic!("other lists live under the mods directory"),
    }
}

fn optional(descriptor: &str, inject: bool) -> ForgeOptional {
    ForgeOptional {
        name: "opt".to_string(),
        client: true,
        server: false,
        default: true,
        inject,
        desc: String::new(),
        url: "https://mods.example.net".to_string(),
        artifact: Artifact::parse(descriptor).unwrap(),
        maven: "https://maven.example.net".to_string(),
    }
}

#[test]
fn injected_optionals_follow_the_flags() {
    let opts = vec![optional("a.b:one:1", true), optional("a.b:two:1", false), optional("a.b:three:1", true)];
    let injected = v1_injected_optionals(&opts, &vec![true, true, false]);
    assert_eq!(injected.len(), 1);
    match &injected[0] {
        ForgeVersionLibrary::Forge(f) => {
            assert_eq!(f.name.get_descriptor(), "a.b:one:1");
            assert_eq!(f.url.as_deref(), Some("https://maven.example.net"));
            assert!(f.clientreq.is_none() && f.serverreq.is_none());
        },
        _ => panic!("injected entries are legacy-shaped"),
    }
}

#[test]
fn slimming_keeps_only_legacy_entries() {
    let libs = vec![
        ForgeVersionLibrary::Forge(ForgeLibrary {
            name: Artifact::parse("a.b:keep:1").unwrap(),
            url: Some("https://maven.example.net".to_string()),
            serverreq: Some(true),
            clientreq: Some(true),
            checksums: vec![Sha1Sum::from_bytes(b"x")],
            comment: "a comment".to_string(),
            enabled: false,
        }),
        ForgeVersionLibrary::Mojang(forge_downloader::forge_installer_profile::v2::MojangLibrary {
            name: Artifact::parse("a.b:drop:1").unwrap(),
            downloads: forge_downloader::forge_installer_profile::v2::MojangLibraryDownloads {
                artifact: None,
                classifiers: None,
            },
        }),
    ];
    let slim = v1_slim_libraries(libs);
    assert_eq!(slim.len(), 1);
    match &slim[0] {
        ForgeVersionLibrary::Forge(f) => {
            assert_eq!(f.name.get_descriptor(), "a.b:keep:1");
            assert!(f.clientreq.is_none() && f.serverreq.is_none());
            assert!(f.checksums.is_empty());
            assert_eq!(f.comment, "");
            assert!(f.enabled);
        },
        _ => panic!("slimming keeps the legacy shape"),
    }
}

fn v2_profile_with_processors(sides: Option<Vec<&str>>) -> ForgeInstallerProfile {
    let processor = Processor {
        sides: sides.map(|v| v.iter().map(|s| s.to_string()).collect()),
        jar: Artifact::parse("a.b:tool:1").unwrap(),
        classpath: vec![],
        args: vec![],
        outputs: Dict::new(),
    };
    ForgeInstallerProfile::V2(forge_downloader::forge_installer_profile::v2::ForgeInstallerProfileV2 {
        spec_number: 0,
        profile: "forge".to_string(),
        version: "1.20.1-forge-47.1.0".to_string(),
        icon: None,
        json: "/version.json".to_string(),
        path: None,
        logo: "/big_logo.png".to_string(),
        minecraft: "1.20.1".to_string(),
        welcome: "Welcome".to_string(),
        data: Dict::new(),
        processors: vec![processor],
        libraries: vec![ForgeVersionLibrary::Forge(ForgeLibrary {
            name: Artifact::parse("a.b:lib:1").unwrap(),
            url: None,
            serverreq: None,
            clientreq: Some(true),
            checksums: vec![],
            comment: String::new(),
            enabled: true,
        })],
        hide_extract: None,
        mirror_list: None,
        server_jar_path: None,
    })
}

#[test]
fn pipeline_has_no_tasks_when_every_processor_is_for_the_other_side() {
    // One server-only processor, a client run: no tasks, so no libraries and
    // no work to count.
    let pipeline = PostProcessors::new(
        v2_profile_with_processors(Some(vec!["server"])),
        true,
        "/usr/bin/java".to_string(),
    )
    .unwrap();
    assert!(pipeline.get_libraries().is_empty());
    assert_eq!(pipeline.get_task_count(), 0);
}

#[test]
fn pipeline_has_tasks_when_a_processor_runs_on_this_side() {
    // An unrestricted processor runs on every side: the pipeline has tasks,
    // the libraries are handed out, and the count is one library plus the one
    // processor on this side plus no data entries.
    let pipeline = PostProcessors::new(
        v2_profile_with_processors(None),
        true,
        "/usr/bin/java".to_string(),
    )
    .unwrap();
    assert_eq!(pipeline.get_libraries().len(), 1);
    assert_eq!(pipeline.get_task_count(), 2);
}
