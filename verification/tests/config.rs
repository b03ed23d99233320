use discord_we::config::{
    resolve_our_name, validate_nickname, Config, ConfigError, NameRejection, FALLBACK_NAME,
};

#[test]
fn unset_or_empty_name_defaults_to_we() {
    assert_eq!(resolve_our_name(None), "We");
    assert_eq!(resolve_our_name(Some(String::new())), "We");
}

#[test]
fn valid_names_are_kept() {
    assert_eq!(resolve_our_name(Some("Us".to_owned())), "Us");
    assert_eq!(resolve_our_name(Some("私たち".to_owned())), "私たち");
    let exactly_32 = "W".repeat(32);
    assert_eq!(resolve_our_name(Some(exactly_32.clone())), exactly_32);
    // Visible emoji held together by zero-width joiners are fine.
    assert_eq!(
        resolve_our_name(Some("👨\u{200D}👩\u{200D}👧".to_owned())),
        "👨\u{200D}👩\u{200D}👧"
    );
}

#[test]
fn visibly_empty_names_fall_back_to_we() {
    for name in [
        "   ",
        "\u{200B}\u{200B}",
        "\u{3164}",
        "\u{2800}\u{2800}",
        "\u{FEFF}",
    ] {
        assert_eq!(
            resolve_our_name(Some(name.to_owned())),
            "We",
            "name: {name:?}"
        );
        assert_eq!(validate_nickname(name), Err(NameRejection::VisiblyEmpty));
    }
}

#[test]
fn overlong_names_fall_back_to_we() {
    let too_long = "W".repeat(33);
    assert_eq!(validate_nickname(&too_long), Err(NameRejection::TooLong));
    assert_eq!(resolve_our_name(Some(too_long)), "We");
}

#[test]
fn control_characters_fall_back_to_we() {
    assert_eq!(
        validate_nickname("a\nb"),
        Err(NameRejection::ControlCharacters)
    );
    assert_eq!(resolve_our_name(Some("a\nb".to_owned())), "We");
}

#[test]
fn fallback_name_is_we_and_valid() {
    assert_eq!(FALLBACK_NAME, "We");
    assert_eq!(validate_nickname(FALLBACK_NAME), Ok(()));
}

#[test]
fn rejections_are_checked_in_order() {
    // Too long wins over control characters and emptiness.
    let long_controls = "\n".repeat(40);
    assert_eq!(validate_nickname(&long_controls), Err(NameRejection::TooLong));
    // Control characters win over visible emptiness.
    assert_eq!(
        validate_nickname(" \u{7}"),
        Err(NameRejection::ControlCharacters)
    );
    // 32 characters of 4-byte emoji are still 32 characters.
    assert_eq!(validate_nickname(&"😀".repeat(32)), Ok(()));
    assert_eq!(validate_nickname(""), Err(NameRejection::VisiblyEmpty));
}

#[test]
fn resolving_twice_changes_nothing() {
    for raw in [None, Some("Us"), Some(""), Some("   "), Some("a\nb")] {
        let once = resolve_our_name(raw.map(str::to_owned));
        let twice = resolve_our_name(Some(once.clone()));
        assert_eq!(once, twice);
        assert_eq!(validate_nickname(&once), Ok(()));
    }
}

fn vars(
    token: Option<&str>,
    guild: Option<&str>,
    name: Option<&str>,
    interval: Option<&str>,
) -> Result<Config, ConfigError> {
    Config::from_env_values(
        token.map(str::to_owned),
        guild.map(str::to_owned),
        name.map(str::to_owned),
        interval.map(str::to_owned),
    )
}

#[test]
fn config_from_complete_environment() {
    let cfg = vars(Some("tok"), Some(" 123456789012345678\n"), Some("Us"), Some(" 600 ")).unwrap();
    assert_eq!(cfg.token, "tok");
    assert_eq!(cfg.guild_id, 123456789012345678);
    assert_eq!(cfg.our_name, "Us");
    assert_eq!(cfg.reconcile_interval_secs, Some(600));
}

#[test]
fn config_defaults() {
    let cfg = vars(Some("tok"), Some("42"), None, None).unwrap();
    assert_eq!(cfg.our_name, "We");
    assert_eq!(cfg.reconcile_interval_secs, None);
    let cfg = vars(Some("tok"), Some("+42"), Some(""), Some("   ")).unwrap();
    assert_eq!(cfg.guild_id, 42);
    assert_eq!(cfg.our_name, "We");
    assert_eq!(cfg.reconcile_interval_secs, None);
    let cfg = vars(Some("tok"), Some("42"), Some("\u{200B}"), Some("0")).unwrap();
    assert_eq!(cfg.our_name, "We");
    assert_eq!(cfg.reconcile_interval_secs, None);
}

#[test]
fn config_errors() {
    assert_eq!(vars(None, Some("1"), None, None).unwrap_err(), ConfigError::TokenMissing);
    assert_eq!(vars(Some(" \t"), Some("1"), None, None).unwrap_err(), ConfigError::TokenEmpty);
    assert_eq!(vars(Some("t"), None, None, None).unwrap_err(), ConfigError::GuildIdMissing);
    assert_eq!(
        vars(Some("t"), Some("abc"), None, None).unwrap_err(),
        ConfigError::GuildIdNotNumeric
    );
    assert_eq!(
        vars(Some("t"), Some("-5"), None, None).unwrap_err(),
        ConfigError::GuildIdNotNumeric
    );
    assert_eq!(
        vars(Some("t"), Some("18446744073709551616"), None, None).unwrap_err(),
        ConfigError::GuildIdNotNumeric
    );
    assert_eq!(vars(Some("t"), Some(" 0 "), None, None).unwrap_err(), ConfigError::GuildIdZero);
    assert_eq!(
        vars(Some("t"), Some("7"), None, Some("soon")).unwrap_err(),
        ConfigError::IntervalNotNumeric
    );
    // The token is checked before the guild ID.
    assert_eq!(vars(None, Some("x"), None, Some("x")).unwrap_err(), ConfigError::TokenMissing);
}
