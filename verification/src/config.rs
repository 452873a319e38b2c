//! The settings of the gateway, from the environment.

use crate::secrets::random_secret;
use crate::text::lower_is;
use vstd::prelude::*;
use vstd::string::*;

verus! {

pub const TOKEN_VARIABLE: &'static str = "EUTHERGATE_TOKEN";

pub const BIND_VARIABLE: &'static str = "EUTHERGATE_BIND";

pub const SECURE_COOKIE_VARIABLE: &'static str = "EUTHERGATE_SECURE_COOKIE";

pub const PROXY_TOKEN_VARIABLE: &'static str = "EUTHERGATE_PROXY_TOKEN";

pub const SHELL_VARIABLE: &'static str = "EUTHERGATE_SHELL";

pub const LOGIN_SHELL_VARIABLE: &'static str = "SHELL";

pub const WORKDIR_VARIABLE: &'static str = "EUTHERGATE_WORKDIR";

pub const WEB_ROOT_VARIABLE: &'static str = "EUTHERGATE_WEB_ROOT";

pub const DESKTOP_OUTPUT_VARIABLE: &'static str = "EUTHERGATE_DESKTOP_OUTPUT";

pub const DESKTOP_MODE_VARIABLE: &'static str = "EUTHERGATE_DESKTOP_MODE";

pub const DESKTOP_HELPER_VARIABLE: &'static str = "EUTHERGATE_DESKTOP_HELPER";

/// How many random bytes make a token where none is set.
pub const TOKEN_BYTES: usize = 24;

/// A variable of the environment.
#[derive(Debug)]
pub enum EnvVar {
    /// It is set to this text.
    Present(String),
    /// It is not set.
    Missing,
    /// It is set, but not to text; a message says so.
    NotUnicode(String),
}

/// The text that a variable is set to.
pub open spec fn text_of(variable: EnvVar) -> Option<Seq<char>> {
    match variable {
        EnvVar::Present(text) => Some(text@),
        _ => None,
    }
}

/// Why the settings cannot be used.
#[derive(Debug)]
pub enum ConfigError {
    /// The address to listen on is none.
    Bind,
    /// The variable of this name is neither true nor false.
    Flag(String),
    /// A variable is set, but not to text; the message says so.
    NotUnicode(String),
    /// There is no current directory.
    CurrentDir,
}

/// What an error holds.
pub enum ConfigErrorView {
    Bind,
    Flag(Seq<char>),
    NotUnicode(Seq<char>),
    CurrentDir,
}

impl View for ConfigError {
    type V = ConfigErrorView;

    open spec fn view(&self) -> ConfigErrorView {
        match self {
            ConfigError::Bind => ConfigErrorView::Bind,
            ConfigError::Flag(name) => ConfigErrorView::Flag(name@),
            ConfigError::NotUnicode(message) => ConfigErrorView::NotUnicode(message@),
            ConfigError::CurrentDir => ConfigErrorView::CurrentDir,
        }
    }
}

impl ConfigError {
    /// The text of the error.
    pub fn message(&self) -> (text: String)
        ensures
            text@ == (match self@ {
                ConfigErrorView::Bind => "EUTHERGATE_BIND must be an IP address and port"@,
                ConfigErrorView::Flag(name) => name + " must be true or false"@,
                ConfigErrorView::NotUnicode(message) => message,
                ConfigErrorView::CurrentDir => "could not determine current directory"@,
            }),
    {
        match self {
            ConfigError::Bind => "EUTHERGATE_BIND must be an IP address and port".to_owned(),
            ConfigError::Flag(name) => {
                let mut text = name.clone();
                text.append(" must be true or false");
                text
            },
            ConfigError::NotUnicode(message) => message.clone(),
            ConfigError::CurrentDir => "could not determine current directory".to_owned(),
        }
    }
}

/// The flag that a text sets, whatever the case of its letters.
pub open spec fn flag_text(text: Seq<char>) -> Option<bool> {
    let low = crate::text::ascii_lower(text);
    if low == "1"@ || low == "true"@ || low == "yes"@ {
        Some(true)
    } else if low == "0"@ || low == "false"@ || low == "no"@ {
        Some(false)
    } else {
        None
    }
}

/// The flag that a variable sets, or the default where it is not set.
pub open spec fn flag_spec(name: Seq<char>, variable: EnvVar, default: bool) -> Result<
    bool,
    ConfigErrorView,
> {
    match variable {
        EnvVar::Present(text) => match flag_text(text@) {
            Some(flag) => Ok(flag),
            None => Err(ConfigErrorView::Flag(name)),
        },
        EnvVar::Missing => Ok(default),
        EnvVar::NotUnicode(message) => Err(ConfigErrorView::NotUnicode(message@)),
    }
}

/// Reads a flag from a variable.
pub fn env_bool(name: &str, variable: &EnvVar, default: bool) -> (flag: Result<bool, ConfigError>)
    ensures
        match (flag, flag_spec(name@, *variable, default)) {
            (Ok(flag), Ok(expected)) => flag == expected,
            (Err(error), Err(expected)) => error@ == expected,
            _ => false,
        },
{
    match variable {
        EnvVar::Present(text) => {
            let text = text.as_str();
            if lower_is(text, "1") || lower_is(text, "true") || lower_is(text, "yes") {
                Ok(true)
            } else if lower_is(text, "0") || lower_is(text, "false") || lower_is(text, "no") {
                Ok(false)
            } else {
                Err(ConfigError::Flag(name.to_owned()))
            }
        },
        EnvVar::Missing => Ok(default),
        EnvVar::NotUnicode(message) => Err(ConfigError::NotUnicode(message.clone())),
    }
}

/// The text of a variable that is set and not empty.
pub open spec fn filled(variable: EnvVar) -> Option<Seq<char>> {
    match text_of(variable) {
        Some(text) => if text.len() > 0 {
            Some(text)
        } else {
            None
        },
        None => None,
    }
}

/// The view of an optional text.
pub open spec fn optional_text(text: Option<String>) -> Option<Seq<char>> {
    match text {
        Some(text) => Some(text@),
        None => None,
    }
}

fn filled_text(variable: EnvVar) -> (text: Option<String>)
    ensures
        optional_text(text) == filled(variable),
{
    match variable {
        EnvVar::Present(text) => if text.as_str().is_empty() {
            None
        } else {
            Some(text)
        },
        _ => None,
    }
}

/// The text of a variable, or a default.
pub open spec fn text_or(variable: EnvVar, default: Seq<char>) -> Seq<char> {
    match text_of(variable) {
        Some(text) => text,
        None => default,
    }
}

fn take_text(variable: EnvVar, default: &str) -> (text: String)
    ensures
        text@ == text_or(variable, default@),
{
    match variable {
        EnvVar::Present(text) => text,
        _ => default.to_owned(),
    }
}

/// The address to listen on, as text.
pub fn bind_address(variable: EnvVar) -> (address: String)
    ensures
        address@ == text_or(variable, "127.0.0.1:8787"@),
{
    take_text(variable, "127.0.0.1:8787")
}

/// A place in the file system: one that was set, or a default.
#[derive(Debug)]
pub enum Location<P> {
    Given(P),
    Default(&'static str),
}

/// Whether a place is the one that was set, or else the default.
pub open spec fn place_is<P>(place: Location<P>, given: Option<P>, default: Seq<char>) -> bool {
    match (place, given) {
        (Location::Given(path), Some(expected)) => path == expected,
        (Location::Default(path), None) => path@ == default,
        _ => false,
    }
}

fn place<P>(given: Option<P>, default: &'static str) -> (place: Location<P>)
    ensures
        place_is(place, given, default@),
{
    match given {
        Some(path) => Location::Given(path),
        None => Location::Default(default),
    }
}

/// The environment as far as the gateway looks at it; `P` is a path of the file system.
#[derive(Debug)]
pub struct Environment<P> {
    pub token: EnvVar,
    pub secure_cookie: EnvVar,
    pub proxy_token: EnvVar,
    pub shell: Option<P>,
    pub login_shell: Option<P>,
    pub workdir: Option<P>,
    pub web_root: Option<P>,
    pub desktop_output: EnvVar,
    pub desktop_mode: EnvVar,
    pub desktop_helper: Option<P>,
}

/// The settings; `P` is a path of the file system and `A` an address to listen on.
#[derive(Debug)]
pub struct Config<P, A> {
    pub bind: A,
    pub token: String,
    /// The token, where it was not set but drawn.
    pub generated_token: Option<String>,
    pub secure_cookie: bool,
    pub proxy_token: Option<String>,
    pub shell: Location<P>,
    pub workdir: P,
    pub web_root: Location<P>,
    pub desktop_output: String,
    pub desktop_mode: String,
    pub desktop_helper: Location<P>,
}

/// The first thing that is wrong with the settings.
pub open spec fn config_error<P, A>(
    environment: Environment<P>,
    bind: Option<A>,
    current_dir: Option<P>,
) -> Option<ConfigErrorView> {
    if bind is None {
        Some(ConfigErrorView::Bind)
    } else {
        match flag_spec(SECURE_COOKIE_VARIABLE@, environment.secure_cookie, false) {
            Err(error) => Some(error),
            Ok(_) => if current_dir is None {
                Some(ConfigErrorView::CurrentDir)
            } else {
                None
            },
        }
    }
}

/// The first of two paths that is there.
pub open spec fn first_path<P>(first: Option<P>, second: Option<P>) -> Option<P> {
    match first {
        Some(path) => Some(path),
        None => second,
    }
}

/// Whether the settings, but for the token, are those of the environment.
pub open spec fn settings_match<P, A>(
    config: Config<P, A>,
    environment: Environment<P>,
    bind: Option<A>,
    current_dir: Option<P>,
) -> bool {
    &&& bind == Some(config.bind)
    &&& flag_spec(SECURE_COOKIE_VARIABLE@, environment.secure_cookie, false) == Ok::<
        bool,
        ConfigErrorView,
    >(config.secure_cookie)
    &&& optional_text(config.proxy_token) == filled(environment.proxy_token)
    &&& place_is(
        config.shell,
        first_path(environment.shell, environment.login_shell),
        "/bin/sh"@,
    )
    &&& Some(config.workdir) == first_path(environment.workdir, current_dir)
    &&& place_is(config.web_root, environment.web_root, "web/dist"@)
    &&& config.desktop_output@ == text_or(environment.desktop_output, "EUTHERGATE-1"@)
    &&& config.desktop_mode@ == text_or(environment.desktop_mode, "1280x720@30"@)
    &&& place_is(config.desktop_helper, environment.desktop_helper, "scripts/webrtc_desktop.py"@)
}

/// Whether the token is the one that is set, or else one that was drawn.
pub open spec fn token_matches<P, A>(config: Config<P, A>, environment: Environment<P>) -> bool {
    match filled(environment.token) {
        Some(token) => config.token@ == token && config.generated_token is None,
        None => {
            &&& config.generated_token == Some(config.token)
            &&& crate::secrets::is_secret(config.token@, TOKEN_BYTES as nat)
        },
    }
}

impl<P, A> Config<P, A> {
    /// Makes the settings, with a token to use where none is set.
    pub fn assemble(
        environment: Environment<P>,
        bind: Option<A>,
        current_dir: Option<P>,
        fresh_token: String,
    ) -> (config: Result<Config<P, A>, ConfigError>)
        ensures
            match config {
                Ok(config) => {
                    &&& config_error(environment, bind, current_dir) is None
                    &&& settings_match(config, environment, bind, current_dir)
                    &&& match filled(environment.token) {
                        Some(token) => config.token@ == token && config.generated_token is None,
                        None => {
                            &&& config.token == fresh_token
                            &&& config.generated_token == Some(fresh_token)
                        },
                    }
                },
                Err(error) => config_error(environment, bind, current_dir) == Some(error@),
            },
    {
        let bind = match bind {
            Some(bind) => bind,
            None => return Err(ConfigError::Bind),
        };
        let secure_cookie: bool = match env_bool(
            SECURE_COOKIE_VARIABLE,
            &environment.secure_cookie,
            false,
        ) {
            Ok(flag) => flag,
            Err(error) => return Err(error),
        };
        let current_dir = match current_dir {
            Some(path) => path,
            None => return Err(ConfigError::CurrentDir),
        };
        let (token, generated_token) = match filled_text(environment.token) {
            Some(token) => (token, None),
            None => (fresh_token.clone(), Some(fresh_token)),
        };
        let shell = match environment.shell {
            Some(path) => Some(path),
            None => environment.login_shell,
        };
        let workdir = match environment.workdir {
            Some(path) => path,
            None => current_dir,
        };
        Ok(
            Config {
                bind,
                token,
                generated_token,
                secure_cookie,
                proxy_token: filled_text(environment.proxy_token),
                shell: place(shell, "/bin/sh"),
                workdir,
                web_root: place(environment.web_root, "web/dist"),
                desktop_output: take_text(environment.desktop_output, "EUTHERGATE-1"),
                desktop_mode: take_text(environment.desktop_mode, "1280x720@30"),
                desktop_helper: place(environment.desktop_helper, "scripts/webrtc_desktop.py"),
            },
        )
    }

    /// Makes the settings. Where no token is set, one is drawn.
    pub fn load(environment: Environment<P>, bind: Option<A>, current_dir: Option<P>) -> (config:
        Result<Config<P, A>, ConfigError>)
        ensures
            match config {
                Ok(config) => {
                    &&& config_error(environment, bind, current_dir) is None
                    &&& settings_match(config, environment, bind, current_dir)
                    &&& token_matches(config, environment)
                },
                Err(error) => config_error(environment, bind, current_dir) == Some(error@),
            },
    {
        let set: bool = match &environment.token {
            EnvVar::Present(text) => !text.as_str().is_empty(),
            _ => false,
        };
        let fresh_token = if set { String::new() } else { random_secret(TOKEN_BYTES) };
        Config::assemble(environment, bind, current_dir, fresh_token)
    }
}

/// The gateway never runs without a login token: the token that is used is not empty, set or
/// drawn.
pub proof fn law_token_is_never_empty<P, A>(config: Config<P, A>, environment: Environment<P>)
    requires
        token_matches(config, environment),
    ensures
        config.token@.len() > 0,
{
    if filled(environment.token) is None {
        crate::secrets::law_secret_is_url_safe(config.token@, TOKEN_BYTES as nat);
    }
}

/// An empty variable counts as none where a token is looked for: an empty proxy token trusts no
/// proxy.
pub proof fn law_empty_proxy_token_is_none<P, A>(
    config: Config<P, A>,
    environment: Environment<P>,
    bind: Option<A>,
    current_dir: Option<P>,
)
    requires
        settings_match(config, environment, bind, current_dir),
        text_of(environment.proxy_token) == Some(Seq::<char>::empty()) || text_of(
            environment.proxy_token,
        ) is None,
    ensures
        config.proxy_token is None,
{
}

/// A flag is read whatever the case of its letters, from six words and from nothing else: `1`,
/// `true` and `yes` set it, `0`, `false` and `no` clear it.
pub proof fn law_flags_are_six_words(text: Seq<char>, other: Seq<char>)
    ensures
        crate::text::ascii_lower(text) == crate::text::ascii_lower(other) ==> flag_text(text)
            == flag_text(other),
        flag_text(text) == Some(true) <==> {
            ||| crate::text::ascii_lower(text) == "1"@
            ||| crate::text::ascii_lower(text) == "true"@
            ||| crate::text::ascii_lower(text) == "yes"@
        },
        flag_text(text) == Some(false) <==> {
            ||| crate::text::ascii_lower(text) == "0"@
            ||| crate::text::ascii_lower(text) == "false"@
            ||| crate::text::ascii_lower(text) == "no"@
        },
{
    reveal_strlit("1");
    reveal_strlit("true");
    reveal_strlit("yes");
    reveal_strlit("0");
    reveal_strlit("false");
    reveal_strlit("no");
    assert("1"@[0] != "0"@[0]);
    assert("1"@.len() == 1 && "true"@.len() == 4 && "yes"@.len() == 3);
    assert("0"@.len() == 1 && "false"@.len() == 5 && "no"@.len() == 2);
}

/// A flag that is not set has its default; one that is set to anything else than a flag is an error
/// that names the variable, and one that is no text is an error that says so.
pub proof fn law_flags_are_read_from_variables(
    name: Seq<char>,
    text: String,
    message: String,
    default: bool,
)
    ensures
        flag_spec(name, EnvVar::Missing, default) == Ok::<bool, ConfigErrorView>(default),
        match flag_text(text@) {
            Some(flag) => flag_spec(name, EnvVar::Present(text), default) == Ok::<
                bool,
                ConfigErrorView,
            >(flag),
            None => flag_spec(name, EnvVar::Present(text), default) == Err::<
                bool,
                ConfigErrorView,
            >(ConfigErrorView::Flag(name)),
        },
        flag_spec(name, EnvVar::NotUnicode(message), default) == Err::<bool, ConfigErrorView>(
            ConfigErrorView::NotUnicode(message@),
        ),
{
}

/// Every setting is the one that is set, as it is, and its default only where none is set: the
/// address, the paths, the name and mode of the virtual output, and the proxy's token, which has no
/// default.
pub proof fn law_settings_come_from_the_environment<P, A>(
    config: Config<P, A>,
    environment: Environment<P>,
    bind: Option<A>,
    current_dir: Option<P>,
)
    requires
        settings_match(config, environment, bind, current_dir),
    ensures
        bind == Some(config.bind),
        match environment.desktop_output {
            EnvVar::Present(text) => config.desktop_output@ == text@,
            _ => config.desktop_output@ == "EUTHERGATE-1"@,
        },
        match environment.desktop_mode {
            EnvVar::Present(text) => config.desktop_mode@ == text@,
            _ => config.desktop_mode@ == "1280x720@30"@,
        },
        match (environment.shell, environment.login_shell) {
            (Some(path), _) => config.shell == Location::Given(path),
            (None, Some(path)) => config.shell == Location::Given(path),
            (None, None) => config.shell matches Location::Default(path) && path@ == "/bin/sh"@,
        },
        match environment.workdir {
            Some(path) => config.workdir == path,
            None => Some(config.workdir) == current_dir,
        },
        match environment.web_root {
            Some(path) => config.web_root == Location::Given(path),
            None => config.web_root matches Location::Default(path) && path@ == "web/dist"@,
        },
        match environment.desktop_helper {
            Some(path) => config.desktop_helper == Location::Given(path),
            None => config.desktop_helper matches Location::Default(path) && path@
                == "scripts/webrtc_desktop.py"@,
        },
        match environment.proxy_token {
            EnvVar::Present(text) => if text@.len() > 0 {
                config.proxy_token matches Some(token) && token@ == text@
            } else {
                config.proxy_token is None
            },
            _ => config.proxy_token is None,
        },
{
}

/// The cookie is secure exactly if the variable for it sets the flag.
pub proof fn law_cookie_is_secure_if_asked<P, A>(
    config: Config<P, A>,
    environment: Environment<P>,
    bind: Option<A>,
    current_dir: Option<P>,
)
    requires
        settings_match(config, environment, bind, current_dir),
    ensures
        config.secure_cookie <==> (environment.secure_cookie matches EnvVar::Present(text)
            && flag_text(text@) == Some(true)),
{
}

/// A login token that is set is used as it is, and is not told as one that was drawn; where none is
/// set, or an empty one, the token that was drawn is used, and is told.
pub proof fn law_set_token_is_used<P, A>(config: Config<P, A>, environment: Environment<P>)
    requires
        token_matches(config, environment),
    ensures
        match environment.token {
            EnvVar::Present(text) => if text@.len() > 0 {
                config.token@ == text@ && config.generated_token is None
            } else {
                config.generated_token == Some(config.token)
            },
            _ => config.generated_token == Some(config.token),
        },
        config.generated_token is Some ==> crate::secrets::is_secret(config.token@, 24),
{
}

/// The settings can be used exactly if there is an address, the flag for the cookie is one or is not
/// set, and there is a current directory; the first of these that fails is the error.
pub proof fn law_settings_fail_only_for_cause<P, A>(
    environment: Environment<P>,
    bind: Option<A>,
    current_dir: Option<P>,
)
    ensures
        bind is None ==> config_error(environment, bind, current_dir) == Some(
            ConfigErrorView::Bind,
        ),
        bind is Some ==> match environment.secure_cookie {
            EnvVar::NotUnicode(message) => config_error(environment, bind, current_dir) == Some(
                ConfigErrorView::NotUnicode(message@),
            ),
            EnvVar::Present(text) => flag_text(text@) is None ==> config_error(
                environment,
                bind,
                current_dir,
            ) == Some(ConfigErrorView::Flag("EUTHERGATE_SECURE_COOKIE"@)),
            EnvVar::Missing => true,
        },
        bind is Some && (environment.secure_cookie is Missing || (
        environment.secure_cookie matches EnvVar::Present(text) && flag_text(text@) is Some))
            ==> config_error(environment, bind, current_dir) == match current_dir {
            Some(_) => None,
            None => Some(ConfigErrorView::CurrentDir),
        },
{
}

/// What an error holds is what its variant holds.
pub proof fn law_config_error_views_show_every_field(text: String)
    ensures
        ConfigError::Bind@ is Bind,
        ConfigError::Flag(text)@ == ConfigErrorView::Flag(text@),
        ConfigError::NotUnicode(text)@ == ConfigErrorView::NotUnicode(text@),
        ConfigError::CurrentDir@ is CurrentDir,
{
}

} // verus!
