//! Configuration, including the resolution of the name everyone becomes.
//!
//! The environment itself is read by the program around the library; what
//! it found (each variable, or `None` where it is unset) is handed to
//! [`Config::from_env_values`].

use vstd::prelude::*;

use crate::text::{
    chars_of, is_control, is_control_spec, is_invisible_spec, is_visible, parse_u64, parse_u64_spec,
    trim, trimmed,
};

verus! {

/// The name everyone becomes when nothing else is configured.
pub const FALLBACK_NAME: &'static str = "We";

/// Discord rejects guild nicknames longer than 32 characters.
pub const MAX_NICKNAME_CHARS: usize = 32;

/// The characters of [`FALLBACK_NAME`].
pub open spec fn fallback_name() -> Seq<char> {
    seq!['W', 'e']
}

/// Why a configured name cannot be used as a Discord guild nickname.
#[derive(Debug, Clone, Copy, PartialEq, Eq, Structural)]
pub enum NameRejection {
    /// More than 32 characters.
    TooLong,
    /// Contains control characters.
    ControlCharacters,
    /// Would render as visibly empty (only whitespace and invisible code
    /// points), which the Discord client forbids.
    VisiblyEmpty,
}

/// Why Discord would refuse `name` as a guild nickname, checked in this
/// order: length, control characters, visible emptiness.
pub open spec fn nickname_rejection(name: Seq<char>) -> Option<NameRejection> {
    if name.len() > MAX_NICKNAME_CHARS {
        Some(NameRejection::TooLong)
    } else if exists|i: int| 0 <= i < name.len() && is_control_spec(#[trigger] name[i]) {
        Some(NameRejection::ControlCharacters)
    } else if forall|i: int| 0 <= i < name.len() ==> is_invisible_spec(#[trigger] name[i]) {
        Some(NameRejection::VisiblyEmpty)
    } else {
        None
    }
}

/// Discord accepts `name` as a guild nickname.
pub open spec fn is_valid_nickname(name: Seq<char>) -> bool {
    nickname_rejection(name) is None
}

/// The name `OUR_NAME` resolves to: unset or empty means the fallback, and
/// so does a value Discord would reject.
pub open spec fn resolved_name(raw: Option<Seq<char>>) -> Seq<char> {
    match raw {
        Some(name) => if name.len() > 0 && is_valid_nickname(name) {
            name
        } else {
            fallback_name()
        },
        None => fallback_name(),
    }
}

/// Checks `name` against what Discord accepts as a guild nickname.
pub fn validate_nickname(name: &str) -> (r: Result<(), NameRejection>)
    ensures
        r == (match nickname_rejection(name@) {
            Some(reason) => Err(reason),
            None => Ok(()),
        }),
        r is Ok <==> is_valid_nickname(name@),
{
    let chars = chars_of(name);
    if chars.len() > MAX_NICKNAME_CHARS {
        return Err(NameRejection::TooLong);
    }
    let mut i: usize = 0;
    while i < chars.len()
        invariant
            chars@ == name@,
            name@.len() <= MAX_NICKNAME_CHARS,
            i <= chars.len(),
            forall|j: int| 0 <= j < i ==> !is_control_spec(#[trigger] name@[j]),
        decreases chars.len() - i,
    {
        if is_control(chars[i]) {
            assert(is_control_spec(name@[i as int]));
            return Err(NameRejection::ControlCharacters);
        }
        i = i + 1;
    }
    let mut k: usize = 0;
    while k < chars.len()
        invariant
            chars@ == name@,
            name@.len() <= MAX_NICKNAME_CHARS,
            forall|j: int| 0 <= j < name@.len() ==> !is_control_spec(#[trigger] name@[j]),
            k <= chars.len(),
            forall|j: int| 0 <= j < k ==> is_invisible_spec(#[trigger] name@[j]),
        decreases chars.len() - k,
    {
        if is_visible(chars[k]) {
            assert(!is_invisible_spec(name@[k as int]));
            return Ok(());
        }
        k = k + 1;
    }
    Err(NameRejection::VisiblyEmpty)
}

/// Discord refuses a nickname for exactly three reasons, checked in this
/// order: more than 32 characters, a control character, or no visible
/// character at all. Every other name is accepted, and `OUR_NAME` set to
/// such a name is kept as it is.
pub proof fn lemma_nickname_rules(name: Seq<char>)
    ensures
        (nickname_rejection(name) == Some(NameRejection::TooLong)) <==> name.len() > 32,
        (nickname_rejection(name) == Some(NameRejection::ControlCharacters)) <==> (name.len() <= 32
            && exists|i: int| 0 <= i < name.len() && is_control_spec(#[trigger] name[i])),
        (nickname_rejection(name) == Some(NameRejection::VisiblyEmpty)) <==> (name.len() <= 32
            && (forall|i: int| 0 <= i < name.len() ==> !is_control_spec(#[trigger] name[i])) && (
        forall|i: int| 0 <= i < name.len() ==> is_invisible_spec(#[trigger] name[i]))),
        is_valid_nickname(name) <==> (name.len() <= 32 && (forall|i: int|
            0 <= i < name.len() ==> !is_control_spec(#[trigger] name[i])) && (exists|i: int|
            0 <= i < name.len() && !is_invisible_spec(#[trigger] name[i]))),
        is_valid_nickname(name) ==> resolved_name(Some(name)) == name,
{
}

/// Printable ASCII characters (from `!` to `~`) are visible, and so are all
/// other characters outside the whitespace, control and blank-format
/// classes.
pub proof fn lemma_printable_ascii_is_visible(c: char)
    ensures
        '!' <= c <= '~' ==> !is_invisible_spec(c),
        !crate::text::is_whitespace_spec(c) && !is_control_spec(c)
            && !crate::text::is_blank_format_spec(c) ==> !is_invisible_spec(c),
{
}

/// The fallback name is one Discord accepts.
pub proof fn lemma_fallback_is_valid()
    ensures
        is_valid_nickname(fallback_name()),
        fallback_name().len() > 0,
{
    let name = fallback_name();
    assert(!is_invisible_spec(name[0]));
    assert forall|i: int| 0 <= i < name.len() implies !is_control_spec(#[trigger] name[i]) by {
        if i == 0 {
        } else {
            assert(i == 1);
        }
    }
}

/// Proves that [`FALLBACK_NAME`] holds the characters of [`fallback_name`].
proof fn lemma_fallback_literal()
    ensures
        FALLBACK_NAME@ == fallback_name(),
{
    reveal_strlit("We");
    assert(FALLBACK_NAME@ =~= fallback_name());
}

/// Whatever `OUR_NAME` holds, the name it resolves to is one Discord accepts.
pub proof fn lemma_resolved_name_is_valid(raw: Option<Seq<char>>)
    ensures
        is_valid_nickname(resolved_name(raw)),
        resolved_name(raw).len() > 0,
{
    lemma_fallback_is_valid();
}

/// Resolving a resolved name changes nothing.
pub proof fn lemma_resolve_idempotent(raw: Option<Seq<char>>)
    ensures
        resolved_name(Some(resolved_name(raw))) == resolved_name(raw),
{
    lemma_fallback_is_valid();
}

/// Resolves `OUR_NAME`: unset or empty means the canonical `We`; a value that
/// Discord would reject as a nickname also falls back to `We`.
pub fn resolve_our_name(raw: Option<String>) -> (r: String)
    ensures
        r@ == resolved_name(raw.deep_view()),
        is_valid_nickname(r@),
{
    proof {
        lemma_fallback_literal();
        lemma_resolved_name_is_valid(raw.deep_view());
    }
    match raw {
        None => FALLBACK_NAME.to_owned(),
        Some(name) => {
            if name.as_str().is_empty() {
                return FALLBACK_NAME.to_owned();
            }
            match validate_nickname(name.as_str()) {
                Ok(()) => name,
                Err(_) => FALLBACK_NAME.to_owned(),
            }
        },
    }
}

/// The bot's configuration.
#[derive(Debug, Clone)]
pub struct Config {
    /// The bot token. Never logged.
    pub token: String,
    /// The only guild the bot enforces; never zero.
    pub guild_id: u64,
    /// The nickname enforced on every manageable member: `We`, unless
    /// overridden through the `OUR_NAME` environment variable.
    pub our_name: String,
    /// Optional low-frequency periodic full-guild sweep, in seconds; `None`
    /// disables it, and it is never zero.
    pub reconcile_interval_secs: Option<u64>,
}

/// A configuration as plain values.
pub struct ConfigView {
    pub token: Seq<char>,
    pub guild_id: u64,
    pub our_name: Seq<char>,
    pub reconcile_interval_secs: Option<u64>,
}

impl View for Config {
    type V = ConfigView;

    open spec fn view(&self) -> ConfigView {
        ConfigView {
            token: self.token@,
            guild_id: self.guild_id,
            our_name: self.our_name@,
            reconcile_interval_secs: self.reconcile_interval_secs,
        }
    }
}

/// Why the environment does not make a usable configuration.
#[derive(Debug, Clone, Copy, PartialEq, Eq, Structural)]
pub enum ConfigError {
    /// `DISCORD_TOKEN` is not set.
    TokenMissing,
    /// `DISCORD_TOKEN` holds only whitespace.
    TokenEmpty,
    /// `TARGET_GUILD_ID` is not set.
    GuildIdMissing,
    /// `TARGET_GUILD_ID` is not a numeric guild ID (snowflake).
    GuildIdNotNumeric,
    /// `TARGET_GUILD_ID` is zero.
    GuildIdZero,
    /// `RECONCILE_INTERVAL_SECONDS` is not an integer number of seconds.
    IntervalNotNumeric,
}

/// What `RECONCILE_INTERVAL_SECONDS` means: unset or blank disables the
/// sweep, and so does `0`; anything else must be a number of seconds.
pub open spec fn interval_from_var(raw: Option<Seq<char>>) -> Result<Option<u64>, ConfigError> {
    match raw {
        Some(text) => if trim(text).len() > 0 {
            match parse_u64_spec(trim(text)) {
                Some(seconds) => if seconds > 0 {
                    Ok(Some(seconds))
                } else {
                    Ok(None)
                },
                None => Err(ConfigError::IntervalNotNumeric),
            }
        } else {
            Ok(None)
        },
        None => Ok(None),
    }
}

/// The configuration that the environment variables `DISCORD_TOKEN`,
/// `TARGET_GUILD_ID`, `OUR_NAME` and `RECONCILE_INTERVAL_SECONDS` make,
/// checked in that order.
pub open spec fn config_from_vars(
    token: Option<Seq<char>>,
    guild_id: Option<Seq<char>>,
    our_name: Option<Seq<char>>,
    interval: Option<Seq<char>>,
) -> Result<ConfigView, ConfigError> {
    match token {
        None => Err(ConfigError::TokenMissing),
        Some(token) => if trim(token).len() == 0 {
            Err(ConfigError::TokenEmpty)
        } else {
            match guild_id {
                None => Err(ConfigError::GuildIdMissing),
                Some(guild_text) => match parse_u64_spec(trim(guild_text)) {
                    None => Err(ConfigError::GuildIdNotNumeric),
                    Some(id) => if id == 0 {
                        Err(ConfigError::GuildIdZero)
                    } else {
                        match interval_from_var(interval) {
                            Err(e) => Err(e),
                            Ok(seconds) => Ok(
                                ConfigView {
                                    token,
                                    guild_id: id,
                                    our_name: resolved_name(our_name),
                                    reconcile_interval_secs: seconds,
                                },
                            ),
                        }
                    },
                },
            }
        },
    }
}

/// The environment makes a configuration exactly when the token is set and
/// not blank, the guild ID is a non-zero number, and the interval, where it
/// is set and not blank, is a number. The configuration keeps the token as
/// given, the parsed guild ID, the resolved name, and the interval only when
/// it is a positive number of seconds. A missing token is reported before
/// anything else, and a blank one before any guild ID problem.
pub proof fn lemma_config_rules(
    token: Option<Seq<char>>,
    guild_id: Option<Seq<char>>,
    our_name: Option<Seq<char>>,
    interval: Option<Seq<char>>,
)
    ensures
        config_from_vars(token, guild_id, our_name, interval) is Ok <==> (token is Some && trim(
            token->0,
        ).len() > 0 && guild_id is Some && parse_u64_spec(trim(guild_id->0)) is Some
            && parse_u64_spec(trim(guild_id->0))->0 != 0 && (interval is Some && trim(
            interval->0,
        ).len() > 0 ==> parse_u64_spec(trim(interval->0)) is Some)),
        config_from_vars(token, guild_id, our_name, interval) matches Ok(c) ==> {
            &&& c.token == token->0
            &&& Some(c.guild_id) == parse_u64_spec(trim(guild_id->0))
            &&& c.guild_id != 0
            &&& c.our_name == resolved_name(our_name)
            &&& c.reconcile_interval_secs != Some(0u64)
            &&& (c.reconcile_interval_secs matches Some(k) ==> interval is Some
                && parse_u64_spec(trim(interval->0)) == Some(k))
            &&& (c.reconcile_interval_secs is None ==> (interval is None || trim(interval->0).len()
                == 0 || parse_u64_spec(trim(interval->0)) == Some(0u64)))
        },
        (config_from_vars(token, guild_id, our_name, interval) == Err::<ConfigView, ConfigError>(
            ConfigError::TokenMissing,
        )) <==> token is None,
        token is Some && trim(token->0).len() == 0 ==> config_from_vars(
            token,
            guild_id,
            our_name,
            interval,
        ) == Err::<ConfigView, ConfigError>(ConfigError::TokenEmpty),
{
}

impl Config {
    /// Builds the configuration from the values of the environment
    /// variables `DISCORD_TOKEN`, `TARGET_GUILD_ID`, `OUR_NAME` and
    /// `RECONCILE_INTERVAL_SECONDS`, each `None` where it is unset.
    pub fn from_env_values(
        token: Option<String>,
        guild_id: Option<String>,
        our_name: Option<String>,
        reconcile_interval: Option<String>,
    ) -> (r: Result<Config, ConfigError>)
        ensures
            match r {
                Ok(cfg) => config_from_vars(
                    token.deep_view(),
                    guild_id.deep_view(),
                    our_name.deep_view(),
                    reconcile_interval.deep_view(),
                ) == Ok::<ConfigView, ConfigError>(cfg@),
                Err(e) => config_from_vars(
                    token.deep_view(),
                    guild_id.deep_view(),
                    our_name.deep_view(),
                    reconcile_interval.deep_view(),
                ) == Err::<ConfigView, ConfigError>(e),
            },
            r matches Ok(cfg) ==> cfg.guild_id != 0 && is_valid_nickname(cfg.our_name@) && cfg.reconcile_interval_secs != Some(0u64),
    {
        let token = match token {
            None => return Err(ConfigError::TokenMissing),
            Some(t) => t,
        };
        if trimmed(token.as_str()).len() == 0 {
            return Err(ConfigError::TokenEmpty);
        }
        let guild_text = match guild_id {
            None => return Err(ConfigError::GuildIdMissing),
            Some(g) => g,
        };
        let id = match parse_u64(&trimmed(guild_text.as_str())) {
            None => return Err(ConfigError::GuildIdNotNumeric),
            Some(id) => id,
        };
        if id == 0 {
            return Err(ConfigError::GuildIdZero);
        }
        let our_name = resolve_our_name(our_name);
        let reconcile_interval_secs = match reconcile_interval {
            None => None,
            Some(text) => {
                let t = trimmed(text.as_str());
                if t.len() == 0 {
                    None
                } else {
                    match parse_u64(&t) {
                        None => return Err(ConfigError::IntervalNotNumeric),
                        Some(seconds) => if seconds > 0 {
                            Some(seconds)
                        } else {
                            None
                        },
                    }
                }
            },
        };
        Ok(Config { token, guild_id: id, our_name, reconcile_interval_secs })
    }
}

} // verus!
