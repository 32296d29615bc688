use forge_downloader::dict::Dict;
use forge_downloader::forge_installer_profile::v1::{
    ForgeInstallerProfileV1, ForgeLibrary, ForgeOptional, InstallSectionV1, mod_list_entries,
};
use forge_downloader::forge_installer_profile::v2::{
    DataFile, Download, ForgeInstallerProfileV2, MojangArtifact, Processor,
};
use forge_downloader::forge_installer_profile::{
    basename, ForgeInstallerProfile, ForgeVersionInfo, ForgeVersionLibrary,
};
use forge_downloader::{Artifact, Sha1Sum};

fn version_info(libraries: Vec<ForgeVersionLibrary>) -> ForgeVersionInfo {
    ForgeVersionInfo {
        id: "1.20.1-forge-47.1.0".to_string(),
        release_type: "release".to_string(),
        time: "2023-06-15T10:00:00+00:00".to_string(),
        release_time: "2023-06-15T10:00:00+00:00".to_string(),
        inherits_from: None,
        logging: None,
        main_class: "cpw.mods.bootstraplauncher.BootstrapLauncher".to_string(),
        libraries,
        jar: None,
        minecraft_arguments: String::new(),
        arguments: Dict::new(),
    }
}

fn install_section() -> InstallSectionV1 {
    InstallSectionV1 {
        profile_name: "forge".to_string(),
        target: "1.12.2-forge-14.23".to_string(),
        path: Artifact::parse("net.minecraftforge:forge:14.23").unwrap(),
        version: "14.23".to_string(),
        file_path: "forge-14.23-universal.jar".to_string(),
        welcome: "Welcome".to_string(),
        minecraft: "1.12.2".to_string(),
        logo: "/big_logo.png".to_string(),
        mirror_list: None,
        mod_list: "none".to_string(),
        strip_meta: None,
    }
}

fn v1_profile() -> ForgeInstallerProfileV1 {
    ForgeInstallerProfileV1 {
        install: install_section(),
        version_info: version_info(vec![]),
        optionals: vec![],
    }
}

fn v2_profile() -> ForgeInstallerProfileV2 {
    ForgeInstallerProfileV2 {
        spec_number: 0,
        profile: "forge".to_string(),
        version: "1.20.1-forge-47.1.0".to_string(),
        icon: None,
        json: "/version.json".to_string(),
        path: None,
        logo: "/big_logo.png".to_string(),
        minecraft: "1.20.1".to_string(),
        welcome: "Welcome".to_string(),
        data: Dict::new(),
        processors: vec![],
        libraries: vec![],
        hide_extract: None,
        mirror_list: None,
        server_jar_path: None,
    }
}

#[test]
fn select_prefers_the_legacy_schema() {
    // Both schema attempts succeeded: the legacy variant wins the tie-break.
    let chosen = ForgeInstallerProfile::select(Some(v1_profile()), Some(v2_profile())).unwrap();
    assert!(matches!(chosen, ForgeInstallerProfile::V1(_)));
}

#[test]
fn select_takes_the_current_schema_alone() {
    let chosen = ForgeInstallerProfile::select(None, Some(v2_profile())).unwrap();
    assert!(matches!(chosen, ForgeInstallerProfile::V2(_)));
}

#[test]
fn select_fails_when_both_attempts_failed() {
    assert!(ForgeInstallerProfile::select(None, None).is_err());
}

#[test]
fn uniform_accessors_cover_both_variants() {
    let v1 = ForgeInstallerProfile::select(Some(v1_profile()), None).unwrap();
    assert_eq!(v1.get_version_id(), "1.12.2-forge-14.23");
    assert_eq!(v1.get_minecraft(), "1.12.2");
    assert!(v1.version_json_entry_name().is_none());
    let v2 = ForgeInstallerProfile::select(None, Some(v2_profile())).unwrap();
    assert_eq!(v2.get_version_id(), "1.20.1-forge-47.1.0");
    assert_eq!(v2.get_minecraft(), "1.20.1");
    assert_eq!(v2.version_json_entry_name().unwrap(), "version.json");
}

#[test]
fn basename_takes_the_last_piece() {
    assert_eq!(basename("/a/b/c.json"), "c.json");
    assert_eq!(basename("plain.json"), "plain.json");
}

fn optional(name: &str, descriptor: &str, inject: bool) -> ForgeOptional {
    ForgeOptional {
        name: name.to_string(),
        client: true,
        server: false,
        default: true,
        inject,
        desc: String::new(),
        url: "https://mods.example.net".to_string(),
        artifact: Artifact::parse(descriptor).unwrap(),
        maven: "https://maven.example.net".to_string(),
    }
}

fn forge_library(descriptor: &str, clientreq: Option<bool>, serverreq: Option<bool>) -> ForgeLibrary {
    ForgeLibrary {
        name: Artifact::parse(descriptor).unwrap(),
        url: None,
        serverreq,
        clientreq,
        checksums: vec![],
        comment: String::new(),
        enabled: true,
    }
}

#[test]
fn v1_get_libraries_filters_by_side_and_appends_optionals() {
    let libs = vec![
        ForgeVersionLibrary::Forge(forge_library("a.b:client-only:1", Some(true), None)),
        ForgeVersionLibrary::Forge(forge_library("a.b:server-only:1", None, Some(true))),
    ];
    let profile = ForgeInstallerProfileV1 {
        install: install_section(),
        version_info: version_info(libs),
        optionals: vec![optional("opt", "a.b:opt:1", false)],
    };
    let out = profile.get_libraries("clientreq", &vec![false]);
    assert_eq!(out.len(), 2);
    assert_eq!(out[0].name.get_descriptor(), "a.b:client-only:1");
    assert_eq!(out[1].name.get_descriptor(), "a.b:opt:1");
    assert!(!out[1].enabled);
    assert_eq!(out[1].clientreq, Some(true));
    assert!(out[1].serverreq.is_none());
}

#[test]
fn v1_library_accessors() {
    let lib = forge_library("a.b:x:1", Some(true), None);
    assert!(lib.is_side("clientreq"));
    assert!(!lib.is_side("serverreq"));
    assert_eq!(lib.get_url(), "https://libraries.minecraft.net/");
    let mut with_url = lib;
    with_url.url = Some("https://maven.example.net".to_string());
    assert_eq!(with_url.get_url(), "https://maven.example.net/");
    assert!(ForgeLibrary::enabled_by_default());
}

#[test]
fn v1_optional_library_entry() {
    let opt = optional("opt", "a.b:opt:1", true);
    let lib = ForgeLibrary::new(&opt, "clientreq");
    assert_eq!(lib.name.get_descriptor(), "a.b:opt:1");
    assert_eq!(lib.url.as_deref(), Some("https://mods.example.net"));
    assert_eq!(lib.clientreq, Some(true));
    assert!(lib.serverreq.is_none());
    assert!(lib.enabled);
}

#[test]
fn is_inherited_json_needs_both_fields() {
    let mut profile = v1_profile();
    assert!(!profile.is_inherited_json());
    profile.version_info.inherits_from = Some("1.12.2".to_string());
    assert!(!profile.is_inherited_json());
    profile.version_info.jar = Some("1.12.2".to_string());
    assert!(profile.is_inherited_json());
}

#[test]
fn mod_list_keeps_only_enabled_optionals() {
    let libs = vec![optional("a", "a.b:one:1", false), optional("b", "a.b:two:1", false)];
    let entries = mod_list_entries(&libs, &vec![true, false]);
    assert_eq!(entries, vec!["a.b:one:1".to_string()]);
    let none = mod_list_entries(&libs, &vec![false, false]);
    assert!(none.is_empty());
}

#[test]
fn library_conversions() {
    let forge = ForgeVersionLibrary::Forge(forge_library("a.b:x:1", Some(true), None));
    assert!(forge.to_forge().is_some());
    assert!(forge.to_mojang().is_none());
    let slim = forge.to_forge_slim().unwrap();
    match &slim {
        ForgeVersionLibrary::Forge(f) => {
            assert_eq!(f.name.get_descriptor(), "a.b:x:1");
            assert!(f.clientreq.is_none());
            assert!(f.serverreq.is_none());
            assert!(f.enabled);
        },
        _ => panic!("slimming keeps the legacy shape"),
    }
    let mojang = ForgeVersionLibrary::Mojang(
        forge_downloader::forge_installer_profile::v2::MojangLibrary {
            name: Artifact::parse("a.b:m:1").unwrap(),
            downloads: forge_downloader::forge_installer_profile::v2::MojangLibraryDownloads {
                artifact: None,
                classifiers: None,
            },
        },
    );
    assert!(mojang.to_forge().is_none());
    assert!(mojang.to_mojang().is_some());
    assert!(mojang.to_forge_slim().is_none());
}

#[test]
fn v2_accessors() {
    let mut profile = v2_profile();
    profile.data.insert(
        "MAPPINGS".to_string(),
        DataFile { client: "[a.b:maps:1]".to_string(), server: "[a.b:maps-srv:1]".to_string() },
    );
    profile.processors = vec![
        Processor {
            sides: Some(vec!["client".to_string()]),
            jar: Artifact::parse("a.b:tool:1").unwrap(),
            classpath: vec![],
            args: vec![],
            outputs: Dict::new(),
        },
        Processor {
            sides: None,
            jar: Artifact::parse("a.b:tool2:1").unwrap(),
            classpath: vec![],
            args: vec![],
            outputs: Dict::new(),
        },
    ];
    let client_procs = profile.get_processors("client");
    assert_eq!(client_procs.len(), 2);
    let server_procs = profile.get_processors("server");
    assert_eq!(server_procs.len(), 1);
    assert_eq!(server_procs[0].jar.get_descriptor(), "a.b:tool2:1");

    let client_data = profile.get_data(true);
    assert_eq!(client_data.get("MAPPINGS").unwrap(), "[a.b:maps:1]");
    let server_data = profile.get_data(false);
    assert_eq!(server_data.get("MAPPINGS").unwrap(), "[a.b:maps-srv:1]");
    assert_eq!(profile.get_libraries().len(), 0);
}

#[test]
fn download_url_rules() {
    let d = Download {
        sha1: Sha1Sum::from_bytes(b"x"),
        size: 10,
        url: Some("https://example.net/x.jar".to_string()),
        provided: false,
    };
    assert_eq!(d.get_url().unwrap(), "https://example.net/x.jar");
    let provided = Download { provided: true, ..d };
    assert_eq!(provided.get_url().unwrap(), "");
    let unnamed = Download {
        sha1: Sha1Sum::from_bytes(b"x"),
        size: 10,
        url: None,
        provided: false,
    };
    assert_eq!(unnamed.get_url().unwrap(), "");
}

#[test]
fn mojang_artifact_new_holds_only_the_path() {
    let a = MojangArtifact::new("a/b/c.jar".to_string());
    assert_eq!(a.path.as_deref(), Some("a/b/c.jar"));
    assert!(a.url.is_none());
    assert!(a.sha1.is_none());
    assert!(a.size.is_none());
}
