use sabinokaku::config::{AdditionalParameter, ConfigError, LoadConfig, VulkanEntryPoint};

#[test]
fn test_parse_short() {
    let kaku_co = "kaku_s
Assembly::TestInject.EntryPoint!Main";
    let config = LoadConfig::try_parse("kaku.co", kaku_co).unwrap();
    assert_eq!(config.runtime_config, "Assembly.runtimeconfig.json");
    assert_eq!(config.entry_type, "TestInject.EntryPoint, Assembly");
    assert_eq!(config.entry_assembly, "Assembly.dll");
    assert_eq!(config.entry_method, "Main");
    assert_eq!(config.additional_params.len(), 0);
}

#[test]
fn test_parse_short_params() {
    let kaku_co = "kaku_s
Assembly::TestInject.EntryPoint!Main
hostfxr HOSTFX
env TESTENV=TEST
env TESTENV2=TEST2
dotnetroot DOTNETROOT
";
    let config = LoadConfig::try_parse("kaku.co", kaku_co).unwrap();
    assert_eq!(config.runtime_config, "Assembly.runtimeconfig.json");
    assert_eq!(config.entry_type, "TestInject.EntryPoint, Assembly");
    assert_eq!(config.entry_assembly, "Assembly.dll");
    assert_eq!(config.entry_method, "Main");
    assert_eq!(
        config.environment_variables(),
        vec![
            ("TESTENV".to_string(), "TEST".to_string()),
            ("TESTENV2".to_string(), "TEST2".to_string())
        ]
    );
    assert_eq!(config.hostfxr_path(), Some("HOSTFX".to_string()));
    assert_eq!(config.dotnetroot_path(), Some("DOTNETROOT".to_string()));
}

#[test]
fn test_parse_long() {
    let kaku_co = "kaku_l
Assembly.runtimeconfig.json
Assembly.dll
TestInject.EntryPoint, Assembly
Main";
    let config = LoadConfig::try_parse("kaku.co", kaku_co).unwrap();
    assert_eq!(config.runtime_config, "Assembly.runtimeconfig.json");
    assert_eq!(config.entry_type, "TestInject.EntryPoint, Assembly");
    assert_eq!(config.entry_assembly, "Assembly.dll");
    assert_eq!(config.entry_method, "Main");
    assert_eq!(config.additional_params.len(), 0);
}

#[test]
fn test_parse_long_params() {
    let kaku_co = "kaku_l
Assembly.runtimeconfig.json
Assembly.dll
TestInject.EntryPoint, Assembly
Main
hostfxr HOSTFX
env TESTENV=TEST
env TESTENV2=TEST2
dotnetroot DOTNETROOT
";
    let config = LoadConfig::try_parse("/kaku.co", kaku_co).unwrap();
    assert_eq!(config.runtime_config, "/Assembly.runtimeconfig.json");
    assert_eq!(config.entry_type, "TestInject.EntryPoint, Assembly");
    assert_eq!(config.entry_assembly, "/Assembly.dll");
    assert_eq!(config.entry_method, "Main");
    assert_eq!(
        config.environment_variables(),
        vec![
            ("TESTENV".to_string(), "TEST".to_string()),
            ("TESTENV2".to_string(), "TEST2".to_string())
        ]
    );
    assert_eq!(config.hostfxr_path(), Some("/HOSTFX".to_string()));
    assert_eq!(config.dotnetroot_path(), Some("/DOTNETROOT".to_string()));
}

#[test]
fn short_form_paths_keep_their_suffixes() {
    let config =
        LoadConfig::try_parse("/opt/game/kaku.co", "kaku_s\nMyAssembly::Ns.Cls!Run").unwrap();
    assert!(config.entry_assembly.ends_with(".dll"));
    assert!(config.runtime_config.ends_with(".runtimeconfig.json"));
    assert_eq!(config.runtime_config, "/opt/game/MyAssembly.runtimeconfig.json");
    assert_eq!(config.entry_assembly, "/opt/game/MyAssembly.dll");
    assert_eq!(config.entry_type, "Ns.Cls, MyAssembly");
    assert_eq!(config.entry_method, "Run");
}

#[test]
fn unknown_magic_is_rejected_with_the_line() {
    let err = LoadConfig::try_parse("kaku.co", "bogus\nAssembly::T!M").unwrap_err();
    assert_eq!(
        err,
        ConfigError::MissingOrInvalidConfigMagic(Some("bogus".to_string()))
    );
}

#[test]
fn empty_input_is_rejected_without_a_line() {
    let err = LoadConfig::try_parse("kaku.co", "").unwrap_err();
    assert_eq!(err, ConfigError::MissingOrInvalidConfigMagic(None));
}

#[test]
fn short_form_without_separators_is_malformed() {
    let err = LoadConfig::try_parse("kaku.co", "kaku_s\nAssemblyMain").unwrap_err();
    assert_eq!(err, ConfigError::InvalidConfig);
    let err = LoadConfig::try_parse("kaku.co", "kaku_s\nAssembly::NoMethod").unwrap_err();
    assert_eq!(err, ConfigError::InvalidConfig);
    let err = LoadConfig::try_parse("kaku.co", "kaku_s").unwrap_err();
    assert_eq!(err, ConfigError::InvalidConfig);
}

#[test]
fn long_form_with_three_body_lines_is_malformed() {
    let err = LoadConfig::try_parse("kaku.co", "kaku_l\na.json\na.dll\nT").unwrap_err();
    assert_eq!(err, ConfigError::InvalidConfig);
}

#[test]
fn rootless_config_path_reports_missing_config() {
    let err = LoadConfig::try_parse("", "kaku_s\nAssembly::T!M").unwrap_err();
    assert_eq!(err, ConfigError::MissingConfig);
    let err = LoadConfig::try_parse("/", "kaku_s\nAssembly::T!M").unwrap_err();
    assert_eq!(err, ConfigError::MissingConfig);
}

#[test]
fn byte_order_mark_is_stripped() {
    let config =
        LoadConfig::try_parse("kaku.co", "\u{feff}kaku_s\nAssembly::T!M").unwrap();
    assert_eq!(config.entry_method, "M");
}

#[test]
fn carriage_returns_are_stripped_before_newlines() {
    let config = LoadConfig::try_parse(
        "kaku.co",
        "kaku_s\r\nAssembly::T!M\r\nenv A=B\r\n",
    )
    .unwrap();
    assert_eq!(config.entry_method, "M");
    assert_eq!(
        config.environment_variables(),
        vec![("A".to_string(), "B".to_string())]
    );
}

#[test]
fn unknown_keys_are_ignored_between_recognized_ones() {
    let config = LoadConfig::try_parse(
        "kaku.co",
        "kaku_s\nAssembly::T!M\nenv A=1\nfancy future-key here\nenv B=2",
    )
    .unwrap();
    assert_eq!(config.additional_params.len(), 2);
    assert_eq!(
        config.environment_variables(),
        vec![
            ("A".to_string(), "1".to_string()),
            ("B".to_string(), "2".to_string())
        ]
    );
}

#[test]
fn env_line_without_equals_is_ignored() {
    let config =
        LoadConfig::try_parse("kaku.co", "kaku_s\nAssembly::T!M\nenv NOEQUALS").unwrap();
    assert_eq!(config.additional_params.len(), 0);
}

#[test]
fn vulkan_line_parses_version_and_trigger() {
    let config = LoadConfig::try_parse(
        "kaku.co",
        "kaku_s\nAssembly::T!M\nvulkan 2 CreateInstance",
    )
    .unwrap();
    let vk = config.vulkan().unwrap();
    assert_eq!(vk.loader_version, 2);
    assert_eq!(vk.entry, VulkanEntryPoint::CreateInstance);
}

#[test]
fn vulkan_line_with_nonnumeric_version_is_skipped() {
    let config = LoadConfig::try_parse(
        "kaku.co",
        "kaku_s\nAssembly::T!M\nvulkan abc CreateInstance",
    )
    .unwrap();
    assert!(config.vulkan().is_none());
    assert_eq!(config.additional_params.len(), 0);
}

#[test]
fn vulkan_line_accepts_prefixed_trigger_tokens() {
    let config = LoadConfig::try_parse(
        "kaku.co",
        "kaku_s\nAssembly::T!M\nvulkan 7 vkCreateDevice",
    )
    .unwrap();
    let vk = config.vulkan().unwrap();
    assert_eq!(vk.loader_version, 7);
    assert_eq!(vk.entry, VulkanEntryPoint::CreateDevice);
}

#[test]
fn vulkan_line_with_unknown_trigger_is_skipped() {
    let config = LoadConfig::try_parse(
        "kaku.co",
        "kaku_s\nAssembly::T!M\nvulkan 2 CreateSurface",
    )
    .unwrap();
    assert!(config.vulkan().is_none());
}

#[test]
fn vulkan_version_overflow_is_skipped() {
    let config = LoadConfig::try_parse(
        "kaku.co",
        "kaku_s\nAssembly::T!M\nvulkan 4294967296 CreateInstance",
    )
    .unwrap();
    assert!(config.vulkan().is_none());
    let config = LoadConfig::try_parse(
        "kaku.co",
        "kaku_s\nAssembly::T!M\nvulkan 4294967295 CreateInstance",
    )
    .unwrap();
    assert_eq!(config.vulkan().unwrap().loader_version, u32::MAX);
}

#[test]
fn duplicate_overrides_keep_first_match() {
    let config = LoadConfig::try_parse(
        "kaku.co",
        "kaku_s\nAssembly::T!M\nhostfxr first\nhostfxr second\ndotnetroot one\ndotnetroot two",
    )
    .unwrap();
    assert_eq!(config.hostfxr_path(), Some("first".to_string()));
    assert_eq!(config.dotnetroot_path(), Some("one".to_string()));
}

#[test]
fn example_descriptor_keeps_all_parameters_in_file_order() {
    let kaku_co = "kaku_s
MyAssembly::MyNamespace.MyClass!MyMethod
env FOO=BAR
hostfxr ./custom/hostfxr.so
dotnetroot ./runtime
vulkan 2 CreateInstance
";
    let config = LoadConfig::try_parse("/srv/kaku.co", kaku_co).unwrap();
    assert_eq!(config.additional_params.len(), 4);
    assert!(matches!(
        config.additional_params[0],
        AdditionalParameter::EnvironmentVariable(_, _)
    ));
    assert!(matches!(config.additional_params[1], AdditionalParameter::Hostfxr(_)));
    assert!(matches!(config.additional_params[2], AdditionalParameter::DotNetRoot(_)));
    assert!(matches!(config.additional_params[3], AdditionalParameter::Vulkan(_)));
    assert_eq!(
        config.environment_variables(),
        vec![("FOO".to_string(), "BAR".to_string())]
    );
    assert_eq!(config.hostfxr_path(), Some("/srv/./custom/hostfxr.so".to_string()));
    assert_eq!(config.dotnetroot_path(), Some("/srv/./runtime".to_string()));
    let vk = config.vulkan().unwrap();
    assert_eq!(vk.loader_version, 2);
    assert_eq!(vk.entry, VulkanEntryPoint::CreateInstance);
}

#[test]
fn example_descriptor_with_second_env_line_keeps_order() {
    let kaku_co = "kaku_s
MyAssembly::MyNamespace.MyClass!MyMethod
env FOO=BAR
hostfxr ./custom/hostfxr.so
dotnetroot ./runtime
vulkan 2 CreateInstance
env SECOND=2
";
    let config = LoadConfig::try_parse("/srv/kaku.co", kaku_co).unwrap();
    assert_eq!(config.additional_params.len(), 5);
    assert_eq!(
        config.environment_variables(),
        vec![
            ("FOO".to_string(), "BAR".to_string()),
            ("SECOND".to_string(), "2".to_string())
        ]
    );
}

#[test]
fn long_form_skips_empty_lines_between_header_fields() {
    let kaku_co = "kaku_l

Assembly.runtimeconfig.json

Assembly.dll
TestInject.EntryPoint, Assembly
Main";
    let config = LoadConfig::try_parse("kaku.co", kaku_co).unwrap();
    assert_eq!(config.runtime_config, "Assembly.runtimeconfig.json");
    assert_eq!(config.entry_assembly, "Assembly.dll");
    assert_eq!(config.entry_method, "Main");
}

#[test]
fn env_value_keeps_later_equals_signs() {
    let config =
        LoadConfig::try_parse("kaku.co", "kaku_s\nAssembly::T!M\nenv A=b=c").unwrap();
    assert_eq!(
        config.environment_variables(),
        vec![("A".to_string(), "b=c".to_string())]
    );
}
