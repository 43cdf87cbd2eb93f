use pandora_backend::launch::{
    build_command_line, expand_argument, ArgumentExpansionKey, ExpansionValue, LaunchError,
};
use pandora_backend::message::QuickPlayLaunch;
use pandora_backend::metadata::{
    accept_download, asset_index_file_name, check_argument_expansions, check_version_arguments,
    check_download, download_all_metadata, hash_content, hex_lower, plan_cached_fetch,
    has_known_java_executable, plan_fetch, split_ascii_whitespace, CacheProbe, DownloadOutcome,
    FetchError, FetchPlan, FetchTable, FetchTicket, LaunchArgument, LaunchArgumentValue,
    MetadataCacheEntry, MetadataPass, PassEvent, PassFailure, PassRequest, PassStage,
};

fn entry(hash: Option<&str>) -> MetadataCacheEntry {
    MetadataCacheEntry {
        url: "https://example.org/doc.json".to_string(),
        cache_path: "/cache/doc.json".to_string(),
        expected_hash: hash.map(|h| h.to_string()),
    }
}

fn present(hash: &str, parses: bool) -> CacheProbe {
    CacheProbe::Present { hash: hash.to_string(), parses }
}

fn received(hash: &str, parses: bool) -> DownloadOutcome {
    DownloadOutcome::Received { hash: hash.to_string(), parses }
}

#[test]
fn known_placeholders_are_not_flagged() {
    assert_eq!(check_argument_expansions("--username"), Vec::<String>::new());
    assert_eq!(check_argument_expansions("${auth_player_name}"), Vec::<String>::new());
    assert_eq!(
        check_argument_expansions("-Djava.library.path=${natives_directory}:${classpath}"),
        Vec::<String>::new()
    );
}

#[test]
fn unknown_placeholders_are_flagged_in_order() {
    assert_eq!(check_argument_expansions("${thing}"), vec!["thing"]);
    assert_eq!(
        check_argument_expansions("a${one}b${classpath}c${two}"),
        vec!["one", "two"]
    );
    assert_eq!(check_argument_expansions("${}"), vec![""]);
    assert_eq!(check_argument_expansions("${Classpath}"), vec!["Classpath"]);
}

#[test]
fn what_is_no_placeholder_token_is_not_flagged() {
    assert_eq!(check_argument_expansions(""), Vec::<String>::new());
    assert_eq!(check_argument_expansions("$thing"), Vec::<String>::new());
    assert_eq!(check_argument_expansions("{thing}"), Vec::<String>::new());
    assert_eq!(check_argument_expansions("$ {thing}"), Vec::<String>::new());
    assert_eq!(check_argument_expansions("${thing"), Vec::<String>::new());
    assert_eq!(check_argument_expansions("$x{thing}"), Vec::<String>::new());
}

#[test]
fn only_a_brace_right_behind_a_dollar_opens_a_placeholder() {
    assert_eq!(check_argument_expansions("${{x}"), vec!["{x"]);
    assert_eq!(check_argument_expansions("${{a}"), vec!["{a"]);
    assert_eq!(check_argument_expansions("${{{classpath}"), vec!["{{classpath"]);
    assert_eq!(check_argument_expansions("$${a}"), vec!["a"]);
    assert_eq!(check_argument_expansions("${a${b}}"), vec!["a${b", "b"]);
}

#[test]
fn every_known_placeholder_is_found_by_its_name() {
    for index in 0..23 {
        let key = ArgumentExpansionKey::at(index);
        assert_eq!(ArgumentExpansionKey::from_str(key.name()), Some(key));
        assert_eq!(check_argument_expansions(&format!("${{{}}}", key.name())), Vec::<String>::new());
    }
    assert_eq!(ArgumentExpansionKey::from_str("classpath"), Some(ArgumentExpansionKey::Classpath));
    assert_eq!(ArgumentExpansionKey::from_str("quickPlayRealms"), Some(ArgumentExpansionKey::QuickPlayRealms));
    assert_eq!(ArgumentExpansionKey::from_str("quickplayrealms"), None);
    assert_eq!(ArgumentExpansionKey::from_str(""), None);
}

#[test]
fn ascii_white_space_splits_words() {
    assert_eq!(split_ascii_whitespace("  --a  ${b}\t--c\n"), vec!["--a", "${b}", "--c"]);
    assert_eq!(split_ascii_whitespace(""), Vec::<String>::new());
    assert_eq!(split_ascii_whitespace(" \t\r\n\x0c"), Vec::<String>::new());
    assert_eq!(split_ascii_whitespace("one"), vec!["one"]);
    assert_eq!(split_ascii_whitespace("a\u{a0}b c"), vec!["a\u{a0}b", "c"]);
}

#[test]
fn splitting_agrees_with_std() {
    for sample in ["", " ", "a", " a", "a ", "a b", "  a \t b\r\nc\x0cd  ", "\u{2003}x y"] {
        let expected: Vec<String> = sample.split_ascii_whitespace().map(|w| w.to_string()).collect();
        assert_eq!(split_ascii_whitespace(sample), expected, "{:?}", sample);
    }
}

#[test]
fn version_arguments_are_checked_template_by_template() {
    let game = Some(vec![
        LaunchArgument::Single(LaunchArgumentValue::Single("--username".to_string())),
        LaunchArgument::Single(LaunchArgumentValue::Single("${auth_player_name}".to_string())),
        LaunchArgument::Ruled(LaunchArgumentValue::Multiple(vec![
            "--width".to_string(),
            "${resolution_width}".to_string(),
            "${is_demo}".to_string(),
        ])),
        LaunchArgument::Ruled(LaunchArgumentValue::Single("${custom}".to_string())),
    ]);
    assert_eq!(
        check_version_arguments(&game, &Some("${legacy_only}".to_string())),
        vec!["is_demo", "custom"]
    );
    assert_eq!(
        check_version_arguments(&None, &Some("--session ${auth_session} --gameDir ${game_directory}".to_string())),
        vec!["auth_session"]
    );
    assert_eq!(check_version_arguments(&None, &None), Vec::<String>::new());
    assert_eq!(check_version_arguments(&Some(vec![]), &Some("${x}".to_string())), Vec::<String>::new());
}

#[test]
fn known_java_executables() {
    let files = |names: &[&str]| names.iter().map(|n| n.to_string()).collect::<Vec<String>>();
    assert!(has_known_java_executable(&files(&["lib/rt.jar", "bin/java"])));
    assert!(has_known_java_executable(&files(&["bin/javaw.exe"])));
    assert!(has_known_java_executable(&files(&["jre.bundle/Contents/Home/bin/java", "x"])));
    assert!(has_known_java_executable(&files(&["MinecraftJava.exe"])));
    assert!(!has_known_java_executable(&files(&["bin/javac", "java", "bin/java.exe"])));
    assert!(!has_known_java_executable(&files(&[])));
}

#[test]
fn usable_cache_is_served() {
    assert_eq!(plan_fetch(&entry(Some("abc")), &present("abc", true), false), FetchPlan::UseCache);
    assert_eq!(plan_fetch(&entry(None), &present("whatever", true), false), FetchPlan::UseCache);
}

#[test]
fn missing_stale_or_broken_cache_is_fetched() {
    assert_eq!(plan_fetch(&entry(Some("abc")), &CacheProbe::Missing, false), FetchPlan::Download);
    assert_eq!(plan_fetch(&entry(Some("abc")), &present("abd", true), false), FetchPlan::Download);
    assert_eq!(plan_fetch(&entry(Some("abc")), &present("abc", false), false), FetchPlan::Download);
    assert_eq!(plan_fetch(&entry(None), &present("abc", false), false), FetchPlan::Download);
}

#[test]
fn forced_fetch_bypasses_the_cache() {
    assert_eq!(plan_fetch(&entry(Some("abc")), &present("abc", true), true), FetchPlan::Download);
    assert_eq!(plan_fetch(&entry(None), &present("abc", true), true), FetchPlan::Download);
}

#[test]
fn stale_cache_is_replaced_by_content_that_verifies() {
    let doc = entry(Some("good"));
    assert_eq!(plan_fetch(&doc, &present("stale", true), false), FetchPlan::Download);
    assert_eq!(accept_download(&doc, &received("good", true)), Ok(()));
    assert_eq!(plan_fetch(&doc, &present("good", true), false), FetchPlan::UseCache);
}

#[test]
fn download_errors_have_their_own_kind() {
    let doc = entry(Some("good"));
    assert_eq!(accept_download(&doc, &received("bad", true)), Err(FetchError::HashMismatch));
    assert_eq!(accept_download(&doc, &received("bad", false)), Err(FetchError::HashMismatch));
    assert_eq!(accept_download(&doc, &received("good", false)), Err(FetchError::InvalidDocument));
    assert_eq!(accept_download(&doc, &DownloadOutcome::TimedOut), Err(FetchError::Timeout));
    assert_eq!(accept_download(&doc, &DownloadOutcome::Failed), Err(FetchError::Network));
    assert_eq!(accept_download(&entry(None), &received("any", true)), Ok(()));
}

#[test]
fn identical_requests_share_one_fetch() {
    let mut table = FetchTable::new();
    assert!(!table.is_in_flight("manifest"));
    assert_eq!(table.begin("manifest"), FetchTicket::Start);
    assert_eq!(table.begin("manifest"), FetchTicket::Join);
    assert_eq!(table.begin("manifest"), FetchTicket::Join);
    assert_eq!(table.begin("other"), FetchTicket::Start);
    assert!(table.is_in_flight("manifest"));
    assert!(table.complete("manifest"));
    assert!(!table.is_in_flight("manifest"));
    assert!(table.is_in_flight("other"));
    assert!(!table.complete("manifest"));
    assert_eq!(table.begin("manifest"), FetchTicket::Start);
}

#[test]
fn pass_goes_through_every_document() {
    let mut pass = MetadataPass::new();
    assert_eq!(pass.current_request(), PassRequest::FetchManifest);
    assert_eq!(pass.advance(PassEvent::Manifest(Some(2))), PassRequest::FetchVersion(0));
    assert_eq!(pass.advance(PassEvent::Version(true)), PassRequest::FetchAssetIndex(0));
    assert_eq!(pass.advance(PassEvent::AssetIndex(true)), PassRequest::FetchVersion(1));
    assert_eq!(pass.advance(PassEvent::Version(true)), PassRequest::FetchAssetIndex(1));
    assert_eq!(pass.advance(PassEvent::AssetIndex(true)), PassRequest::FetchRuntimes);
    assert_eq!(pass.advance(PassEvent::Runtimes(Some(2))), PassRequest::FetchComponent(0));
    assert_eq!(pass.advance(PassEvent::Component(true)), PassRequest::FetchComponent(1));
    assert_eq!(pass.advance(PassEvent::Component(true)), PassRequest::Done);
    assert_eq!(pass.stage, PassStage::Finished);
}

#[test]
fn pass_over_empty_manifests() {
    let mut pass = MetadataPass::new();
    assert_eq!(pass.advance(PassEvent::Manifest(Some(0))), PassRequest::FetchRuntimes);
    assert_eq!(pass.advance(PassEvent::Runtimes(Some(0))), PassRequest::Done);
}

#[test]
fn pass_stops_at_the_first_failure() {
    let mut pass = MetadataPass::new();
    assert_eq!(pass.advance(PassEvent::Manifest(None)), PassRequest::Abort(PassFailure::Manifest));
    assert_eq!(pass.stage, PassStage::Aborted);
    assert_eq!(pass.advance(PassEvent::Manifest(Some(1))), PassRequest::Abort(PassFailure::OutOfOrder));

    let mut pass = MetadataPass::new();
    pass.advance(PassEvent::Manifest(Some(3)));
    pass.advance(PassEvent::Version(true));
    pass.advance(PassEvent::AssetIndex(true));
    assert_eq!(pass.advance(PassEvent::Version(false)), PassRequest::Abort(PassFailure::Version(1)));
    assert_eq!(pass.current_request(), PassRequest::Abort(PassFailure::OutOfOrder));

    let mut pass = MetadataPass::new();
    pass.advance(PassEvent::Manifest(Some(1)));
    pass.advance(PassEvent::Version(true));
    assert_eq!(pass.advance(PassEvent::AssetIndex(false)), PassRequest::Abort(PassFailure::AssetIndex(0)));

    let mut pass = MetadataPass::new();
    pass.advance(PassEvent::Manifest(Some(0)));
    assert_eq!(pass.advance(PassEvent::Runtimes(None)), PassRequest::Abort(PassFailure::Runtimes));

    let mut pass = MetadataPass::new();
    pass.advance(PassEvent::Manifest(Some(0)));
    pass.advance(PassEvent::Runtimes(Some(4)));
    pass.advance(PassEvent::Component(true));
    assert_eq!(pass.advance(PassEvent::Component(false)), PassRequest::Abort(PassFailure::Component(1)));
}

#[test]
fn pass_refuses_what_it_did_not_ask_for() {
    let mut pass = MetadataPass::new();
    assert_eq!(pass.advance(PassEvent::Version(true)), PassRequest::Abort(PassFailure::OutOfOrder));
    assert_eq!(pass.stage, PassStage::Aborted);
}

#[test]
fn asset_index_cache_file() {
    assert_eq!(asset_index_file_name("17"), "17.json");
    assert_eq!(asset_index_file_name("pre-1.6"), "pre-1.6.json");
}

fn values() -> Vec<ExpansionValue> {
    vec![
        ExpansionValue { key: ArgumentExpansionKey::AuthPlayerName, value: "Steve".to_string() },
        ExpansionValue { key: ArgumentExpansionKey::GameDirectory, value: "/instances/a".to_string() },
        ExpansionValue { key: ArgumentExpansionKey::Classpath, value: "a.jar:b.jar".to_string() },
        ExpansionValue { key: ArgumentExpansionKey::Classpath, value: "shadowed".to_string() },
        ExpansionValue { key: ArgumentExpansionKey::VersionName, value: "${game_directory}".to_string() },
    ]
}

#[test]
fn placeholders_are_replaced_by_their_values() {
    assert_eq!(expand_argument("${auth_player_name}", &values()), Ok("Steve".to_string()));
    assert_eq!(
        expand_argument("-cp=${classpath};dir=${game_directory}/x", &values()),
        Ok("-cp=a.jar:b.jar;dir=/instances/a/x".to_string())
    );
    assert_eq!(expand_argument("--username", &values()), Ok("--username".to_string()));
    assert_eq!(expand_argument("", &values()), Ok(String::new()));
    assert_eq!(expand_argument("${version_name}", &values()), Ok("${game_directory}".to_string()));
}

#[test]
fn what_is_no_token_stays() {
    assert_eq!(expand_argument("$auth_player_name", &values()), Ok("$auth_player_name".to_string()));
    assert_eq!(expand_argument("{classpath}", &values()), Ok("{classpath}".to_string()));
    assert_eq!(expand_argument("${classpath", &values()), Ok("${classpath".to_string()));
    assert_eq!(expand_argument("$$${classpath}}", &values()), Ok("$$a.jar:b.jar}".to_string()));
    assert_eq!(expand_argument("caf\u{e9} $", &values()), Ok("caf\u{e9} $".to_string()));
}

#[test]
fn placeholder_without_value_fails_the_expansion() {
    assert_eq!(
        expand_argument("${auth_uuid}", &values()),
        Err(LaunchError::UnresolvedPlaceholder("auth_uuid".to_string()))
    );
    assert_eq!(
        expand_argument("${auth_player_name} ${nonsense} ${auth_uuid}", &values()),
        Err(LaunchError::UnresolvedPlaceholder("nonsense".to_string()))
    );
    assert_eq!(
        expand_argument("${}", &values()),
        Err(LaunchError::UnresolvedPlaceholder(String::new()))
    );
    assert_eq!(
        LaunchError::UnresolvedPlaceholder("x".to_string()).message(),
        "Unable to expand launch argument: x"
    );
    assert_eq!(LaunchError::MissingMetadata.message(), "Unable to load the metadata of the version");
    assert_eq!(LaunchError::SpawnFailed.message(), "Unable to start the game process");
}

#[test]
fn command_line_ends_with_the_quick_play_target() {
    let templates = vec!["--username".to_string(), "${auth_player_name}".to_string()];
    assert_eq!(
        build_command_line(&templates, &values(), &None),
        Ok(vec!["--username".to_string(), "Steve".to_string()])
    );
    assert_eq!(
        build_command_line(&templates, &values(), &Some(QuickPlayLaunch::Singleplayer("New World".to_string()))),
        Ok(vec![
            "--username".to_string(),
            "Steve".to_string(),
            "--quickPlaySingleplayer".to_string(),
            "New World".to_string(),
        ])
    );
    assert_eq!(
        build_command_line(&vec![], &values(), &Some(QuickPlayLaunch::Multiplayer("mc.example.org:25565".to_string()))),
        Ok(vec!["--quickPlayMultiplayer".to_string(), "mc.example.org:25565".to_string()])
    );
    assert_eq!(
        build_command_line(&vec![], &values(), &Some(QuickPlayLaunch::Realms("1234".to_string()))),
        Ok(vec!["--quickPlayRealms".to_string(), "1234".to_string()])
    );
}

#[test]
fn command_line_fails_on_the_first_unresolved_placeholder() {
    let templates = vec![
        "${auth_player_name}".to_string(),
        "${clientid}".to_string(),
        "${auth_xuid}".to_string(),
    ];
    assert_eq!(
        build_command_line(&templates, &values(), &Some(QuickPlayLaunch::Realms("1".to_string()))),
        Err(LaunchError::UnresolvedPlaceholder("clientid".to_string()))
    );
}

#[test]
fn pass_over_a_list_of_outcomes() {
    assert_eq!(download_all_metadata(&vec![]), PassRequest::FetchManifest);
    assert_eq!(
        download_all_metadata(&vec![PassEvent::Manifest(Some(1)), PassEvent::Version(true)]),
        PassRequest::FetchAssetIndex(0)
    );
    assert_eq!(
        download_all_metadata(&vec![
            PassEvent::Manifest(Some(1)),
            PassEvent::Version(true),
            PassEvent::AssetIndex(true),
            PassEvent::Runtimes(Some(1)),
            PassEvent::Component(true),
        ]),
        PassRequest::Done
    );
    assert_eq!(
        download_all_metadata(&vec![
            PassEvent::Manifest(Some(2)),
            PassEvent::Version(true),
            PassEvent::AssetIndex(false),
            PassEvent::Version(true),
        ]),
        PassRequest::Abort(PassFailure::OutOfOrder)
    );
    assert_eq!(
        download_all_metadata(&vec![PassEvent::Manifest(Some(2)), PassEvent::Version(false)]),
        PassRequest::Abort(PassFailure::Version(0))
    );
}

#[test]
fn bytes_in_hexadecimal() {
    assert_eq!(hex_lower(&[]), "");
    assert_eq!(hex_lower(&[0x00, 0x09, 0x0a, 0x1f, 0xa0, 0xff]), "00090a1fa0ff");
}

#[test]
fn content_is_known_by_its_sha1() {
    assert_eq!(hash_content(b""), "da39a3ee5e6b4b0d3255bfef95601890afd80709");
    assert_eq!(hash_content(b"abc"), "a9993e364706816aba3e25717850c26c9cd0d89d");
    assert_eq!(
        hash_content(b"The quick brown fox jumps over the lazy dog"),
        "2fd4e1c67a2d28fced849ee1bb76e7391b93eb12"
    );
}

#[test]
fn cached_content_is_served_only_under_its_expected_hash() {
    let abc = "a9993e364706816aba3e25717850c26c9cd0d89d";
    let content: &[u8] = b"abc";
    assert_eq!(plan_cached_fetch(&entry(Some(abc)), Some(content), true, false), FetchPlan::UseCache);
    assert_eq!(plan_cached_fetch(&entry(None), Some(content), true, false), FetchPlan::UseCache);
    assert_eq!(plan_cached_fetch(&entry(Some(abc)), Some(b"abd"), true, false), FetchPlan::Download);
    assert_eq!(plan_cached_fetch(&entry(Some(abc)), Some(content), false, false), FetchPlan::Download);
    assert_eq!(plan_cached_fetch(&entry(Some(abc)), Some(content), true, true), FetchPlan::Download);
    assert_eq!(plan_cached_fetch(&entry(Some(abc)), None, true, false), FetchPlan::Download);
    assert_eq!(
        plan_cached_fetch(&entry(Some(&abc.to_uppercase())), Some(content), true, false),
        FetchPlan::Download
    );
}

#[test]
fn downloaded_content_is_checked_against_its_expected_hash() {
    let abc = "a9993e364706816aba3e25717850c26c9cd0d89d";
    assert_eq!(check_download(&entry(Some(abc)), b"abc", true), Ok(()));
    assert_eq!(check_download(&entry(Some(abc)), b"abd", true), Err(FetchError::HashMismatch));
    assert_eq!(check_download(&entry(Some(abc)), b"abd", false), Err(FetchError::HashMismatch));
    assert_eq!(check_download(&entry(Some(abc)), b"abc", false), Err(FetchError::InvalidDocument));
    assert_eq!(check_download(&entry(None), b"anything", true), Ok(()));
}
