//! Runtime configuration, parsed once from command-line arguments.
//!
//! Explicit flags over a packed URI: clearer to read, and each bad value fails
//! loudly with a specific message rather than silently defaulting.

use vstd::prelude::*;

use crate::discovery::{TopicParts, DEFAULT_PREFIX};
use crate::error::Error;
use crate::text::{parse_number16, same_text};

verus! {

/// What `--help` prints.
pub const USAGE: &'static str = "\
boss — a Matter bridge for Home Assistant MQTT-discovery devices

Usage: boss [options]
  --mqtt-host <host>        MQTT broker host (default: localhost)
  --mqtt-port <port>        MQTT broker port (default: 1883)
  --mqtt-user <user>        MQTT username (optional)
  --mqtt-pass <pass>        MQTT password (optional)
  --discovery-prefix <p>    HA discovery prefix (default: homeassistant)
  --state-dir <dir>         Matter state dir (default: <tmp>/rs-matter)
  --http-port <port>        Status page port (default: 80)
  -h, --help                Show this help";

#[derive(Debug, Clone)]
pub struct Config {
    pub mqtt_host: String,
    pub mqtt_port: u16,
    pub mqtt_username: Option<String>,
    pub mqtt_password: Option<String>,
    /// Discovery topic prefix (`homeassistant` by default).
    pub discovery_prefix: String,
    /// Directory for persisted Matter state (commissioning, fabrics). Must
    /// survive reboots for the device to stay paired. `None` is the default,
    /// `rs-matter` under the system's directory for temporary files.
    pub state_dir: Option<String>,
    /// Port of the embedded status page.
    pub http_port: u16,
}

/// A configuration, as text and numbers.
#[verifier::ext_equal]
pub struct ConfigView {
    pub mqtt_host: Seq<char>,
    pub mqtt_port: u16,
    pub mqtt_username: Option<Seq<char>>,
    pub mqtt_password: Option<Seq<char>>,
    pub discovery_prefix: Seq<char>,
    pub state_dir: Option<Seq<char>>,
    pub http_port: u16,
}

/// The text of an optional string.
pub open spec fn text_of(s: Option<String>) -> Option<Seq<char>> {
    match s {
        Some(t) => Some(t@),
        None => None,
    }
}

/// The texts of a list of strings.
pub open spec fn texts(list: Seq<String>) -> Seq<Seq<char>> {
    list.map_values(|s: String| s@)
}

impl View for Config {
    type V = ConfigView;

    open spec fn view(&self) -> ConfigView {
        ConfigView {
            mqtt_host: self.mqtt_host@,
            mqtt_port: self.mqtt_port,
            mqtt_username: text_of(self.mqtt_username),
            mqtt_password: text_of(self.mqtt_password),
            discovery_prefix: self.discovery_prefix@,
            state_dir: text_of(self.state_dir),
            http_port: self.http_port,
        }
    }
}

/// The configuration when no flag is given.
pub open spec fn default_config() -> ConfigView {
    ConfigView {
        mqtt_host: "localhost"@,
        mqtt_port: 1883,
        mqtt_username: None,
        mqtt_password: None,
        discovery_prefix: DEFAULT_PREFIX@,
        state_dir: None,
        http_port: 80,
    }
}

/// The flags that set a port.
pub open spec fn takes_port(flag: Seq<char>) -> bool {
    flag == "--mqtt-port"@ || flag == "--http-port"@
}

/// The flags that are followed by a value.
pub open spec fn takes_value(flag: Seq<char>) -> bool {
    ||| takes_port(flag)
    ||| flag == "--mqtt-host"@
    ||| flag == "--mqtt-user"@
    ||| flag == "--mqtt-pass"@
    ||| flag == "--discovery-prefix"@
    ||| flag == "--state-dir"@
}

/// The flags that ask for the usage text.
pub open spec fn asks_help(flag: Seq<char>) -> bool {
    flag == "-h"@ || flag == "--help"@
}

pub open spec fn missing_value(flag: Seq<char>) -> Seq<char> {
    "missing value for `"@ + flag + "`"@
}

pub open spec fn invalid_value(flag: Seq<char>, value: Seq<char>) -> Seq<char> {
    "invalid "@ + flag + " `"@ + value + "`"@
}

pub open spec fn unknown_flag(flag: Seq<char>) -> Seq<char> {
    "unknown flag `"@ + flag + "`\n"@ + USAGE@
}

/// The value of `flag` is one that the flag accepts.
pub open spec fn valid_value(flag: Seq<char>, value: Seq<char>) -> bool {
    takes_port(flag) ==> crate::text::number16(value) is Some
}

/// `config` with the setting of `flag` replaced by a valid `value`.
pub open spec fn with_setting(config: ConfigView, flag: Seq<char>, value: Seq<char>) -> ConfigView {
    if flag == "--mqtt-host"@ {
        ConfigView { mqtt_host: value, ..config }
    } else if flag == "--mqtt-port"@ {
        ConfigView { mqtt_port: crate::text::number16(value)->0, ..config }
    } else if flag == "--mqtt-user"@ {
        ConfigView { mqtt_username: Some(value), ..config }
    } else if flag == "--mqtt-pass"@ {
        ConfigView { mqtt_password: Some(value), ..config }
    } else if flag == "--discovery-prefix"@ {
        ConfigView { discovery_prefix: value, ..config }
    } else if flag == "--state-dir"@ {
        ConfigView { state_dir: Some(value), ..config }
    } else if flag == "--http-port"@ {
        ConfigView { http_port: crate::text::number16(value)->0, ..config }
    } else {
        config
    }
}

/// What the arguments make of `config`: flags are read from the left, and the
/// first one that cannot be taken gives the error.
pub open spec fn configured(args: Seq<Seq<char>>, config: ConfigView) -> Result<
    ConfigView,
    Seq<char>,
>
    decreases args.len(),
{
    if args.len() == 0 {
        Ok(config)
    } else if asks_help(args[0]) {
        Err(USAGE@)
    } else if !takes_value(args[0]) {
        Err(unknown_flag(args[0]))
    } else if args.len() == 1 {
        Err(missing_value(args[0]))
    } else if !valid_value(args[0], args[1]) {
        Err(invalid_value(args[0], args[1]))
    } else {
        configured(args.skip(2), with_setting(config, args[0], args[1]))
    }
}

impl Default for Config {
    fn default() -> (c: Self)
        ensures
            c@ == default_config(),
    {
        Config {
            mqtt_host: "localhost".to_owned(),
            mqtt_port: 1883,
            mqtt_username: None,
            mqtt_password: None,
            discovery_prefix: DEFAULT_PREFIX.to_owned(),
            state_dir: None,
            http_port: 80,
        }
    }
}

proof fn lemma_text_flags_take_no_port()
    ensures
        !takes_port("--mqtt-host"@),
        !takes_port("--mqtt-user"@),
        !takes_port("--mqtt-pass"@),
        !takes_port("--discovery-prefix"@),
        !takes_port("--state-dir"@),
{
    reveal_strlit("--mqtt-host");
    reveal_strlit("--mqtt-port");
    reveal_strlit("--mqtt-user");
    reveal_strlit("--mqtt-pass");
    reveal_strlit("--discovery-prefix");
    reveal_strlit("--state-dir");
    reveal_strlit("--http-port");
    assert("--mqtt-port"@[7] == 'p' && "--mqtt-port"@[8] == 'o' && "--mqtt-port"@.len() == 11);
    assert("--mqtt-host"@[7] == 'h' && "--mqtt-host"@[2] == 'm');
    assert("--mqtt-user"@[7] == 'u' && "--mqtt-user"@[2] == 'm');
    assert("--mqtt-pass"@[8] == 'a' && "--mqtt-pass"@[2] == 'm');
    assert("--http-port"@[2] == 'h' && "--http-port"@.len() == 11);
    assert("--state-dir"@[2] == 's');
    assert("--discovery-prefix"@.len() == 18);
}

fn is_value_flag(flag: &str) -> (r: bool)
    ensures
        r == takes_value(flag@),
{
    same_text(flag, "--mqtt-port") || same_text(flag, "--http-port") || same_text(
        flag,
        "--mqtt-host",
    ) || same_text(flag, "--mqtt-user")
        || same_text(flag, "--mqtt-pass") || same_text(flag, "--discovery-prefix") || same_text(
        flag,
        "--state-dir",
    )
}

impl Config {
    /// Applies one flag; reports whether the value is one it accepts.
    fn set(&mut self, flag: &str, value: &str) -> (ok: bool)
        requires
            takes_value(flag@),
        ensures
            ok == valid_value(flag@, value@),
            ok ==> final(self)@ == with_setting(old(self)@, flag@, value@),
            !ok ==> final(self)@ == old(self)@,
    {
        proof {
            lemma_text_flags_take_no_port();
        }
        if same_text(flag, "--mqtt-host") {
            self.mqtt_host = value.to_owned();
        } else if same_text(flag, "--mqtt-port") {
            match parse_number16(value) {
                Some(port) => self.mqtt_port = port,
                None => return false,
            }
        } else if same_text(flag, "--mqtt-user") {
            self.mqtt_username = Some(value.to_owned());
        } else if same_text(flag, "--mqtt-pass") {
            self.mqtt_password = Some(value.to_owned());
        } else if same_text(flag, "--discovery-prefix") {
            self.discovery_prefix = value.to_owned();
        } else if same_text(flag, "--state-dir") {
            self.state_dir = Some(value.to_owned());
        } else {
            match parse_number16(value) {
                Some(port) => self.http_port = port,
                None => return false,
            }
        }
        true
    }

    /// Parse the command-line arguments, without the program's name. Unknown
    /// flags and missing values are errors, not silently ignored.
    pub fn from_iter(args: Vec<String>) -> (r: Result<Config, Error>)
        ensures
            match configured(texts(args@), default_config()) {
                Ok(config) => r matches Ok(c) && c@ == config,
                Err(text) => r matches Err(Error::Config(message)) && message@ == text,
            },
    {
        let mut cfg = Config::default();
        let mut i: usize = 0;
        let ghost all = texts(args@);
        assert(all.skip(0) =~= all);
        while i < args.len()
            invariant
                i <= args@.len(),
                all == texts(args@),
                all.len() == args@.len(),
                configured(all, default_config()) == configured(all.skip(i as int), cfg@),
            decreases args@.len() - i,
        {
            let ghost rest = all.skip(i as int);
            let flag = args[i].as_str();
            assert(rest[0] == flag@);
            if same_text(flag, "-h") || same_text(flag, "--help") {
                return Err(Error::config(USAGE.to_owned()));
            }
            if !is_value_flag(flag) {
                let mut text = "unknown flag `".to_owned();
                text.append(flag);
                text.append("`\n");
                text.append(USAGE);
                return Err(Error::config(text));
            }
            if args.len() - i == 1 {
                let mut text = "missing value for `".to_owned();
                text.append(flag);
                text.append("`");
                return Err(Error::config(text));
            }
            let value = args[i + 1].as_str();
            assert(rest[1] == value@);
            if !cfg.set(flag, value) {
                let mut text = "invalid ".to_owned();
                text.append(flag);
                text.append(" `");
                text.append(value);
                text.append("`");
                return Err(Error::config(text));
            }
            i = i + 2;
            assert(rest.skip(2) =~= all.skip(i as int));
        }
        Ok(cfg)
    }

    /// The wildcard discovery topic to subscribe to for a given component,
    /// e.g. `homeassistant/switch/#`.
    pub fn discovery_filter(&self, component: &str) -> (r: String)
        ensures
            r@ == discovery_filter_text(self.discovery_prefix@, component@),
    {
        let mut filter = self.discovery_prefix.clone();
        filter.append("/");
        filter.append(component);
        filter.append("/#");
        filter
    }
}

pub open spec fn discovery_filter_text(prefix: Seq<char>, component: Seq<char>) -> Seq<char> {
    prefix + "/"@ + component + "/#"@
}

/// The `i`-th flag of a list of flags with values.
pub open spec fn flag_at(args: Seq<Seq<char>>, i: int) -> Seq<char> {
    args[2 * i]
}

/// The value that follows the `i`-th flag.
pub open spec fn value_at(args: Seq<Seq<char>>, i: int) -> Seq<char> {
    args[2 * i + 1]
}

/// Every argument list of flags with values, each value one that its flag
/// accepts.
pub open spec fn acceptable(args: Seq<Seq<char>>) -> bool {
    &&& args.len() % 2 == 0
    &&& forall|i: int|
        0 <= i && 2 * i < args.len() ==> takes_value(#[trigger] flag_at(args, i)) && valid_value(
            flag_at(args, i),
            value_at(args, i),
        )
}

/// The flag occurs in a flag's place.
pub open spec fn mentions(args: Seq<Seq<char>>, flag: Seq<char>) -> bool {
    exists|i: int| 0 <= i && 2 * i < args.len() && #[trigger] flag_at(args, i) == flag
}

proof fn lemma_help_takes_no_value()
    ensures
        forall|flag: Seq<char>| takes_value(flag) ==> !asks_help(flag),
{
    reveal_strlit("-h");
    reveal_strlit("--help");
    reveal_strlit("--mqtt-host");
    reveal_strlit("--mqtt-port");
    reveal_strlit("--mqtt-user");
    reveal_strlit("--mqtt-pass");
    reveal_strlit("--discovery-prefix");
    reveal_strlit("--state-dir");
    reveal_strlit("--http-port");
    assert("-h"@.len() == 2);
    assert("--help"@.len() == 6);
}

/// Reading one list of arguments and then another is reading the two as one.
pub proof fn law_arguments_compose(
    first: Seq<Seq<char>>,
    second: Seq<Seq<char>>,
    config: ConfigView,
)
    requires
        configured(first, config) is Ok,
    ensures
        configured(first + second, config) == configured(second, configured(first, config)->Ok_0),
    decreases first.len(),
{
    let all = first + second;
    if first.len() == 0 {
        assert(all =~= second);
    } else {
        assert(all[0] == first[0] && all[1] == first[1]);
        assert(all.skip(2) =~= first.skip(2) + second);
        law_arguments_compose(first.skip(2), second, with_setting(config, first[0], first[1]));
    }
}

/// Arguments are accepted exactly when they are known flags that each have a
/// value, with a number wherever a port is set: nothing is silently ignored.
pub proof fn law_accepted_arguments(args: Seq<Seq<char>>, config: ConfigView)
    ensures
        configured(args, config) is Ok <==> acceptable(args),
    decreases args.len(),
{
    lemma_help_takes_no_value();
    if args.len() == 0 {
    } else if args.len() == 1 {
    } else {
        let rest = args.skip(2);
        let head = takes_value(args[0]) && valid_value(args[0], args[1]);
        law_accepted_arguments(rest, with_setting(config, args[0], args[1]));
        assert(acceptable(args) <==> head && acceptable(rest)) by {
            if acceptable(args) {
                assert(takes_value(flag_at(args, 0)));
                assert forall|i: int| 0 <= i && 2 * i < rest.len() implies takes_value(
                    #[trigger] flag_at(rest, i),
                ) && valid_value(flag_at(rest, i), value_at(rest, i)) by {
                    assert(flag_at(rest, i) == flag_at(args, i + 1));
                    assert(value_at(rest, i) == value_at(args, i + 1));
                }
            }
            if head && acceptable(rest) {
                assert forall|i: int| 0 <= i && 2 * i < args.len() implies takes_value(
                    #[trigger] flag_at(args, i),
                ) && valid_value(flag_at(args, i), value_at(args, i)) by {
                    if i > 0 {
                        assert(flag_at(rest, i - 1) == flag_at(args, i));
                        assert(value_at(rest, i - 1) == value_at(args, i));
                    }
                }
            }
        }
    }
}

/// A flag given again overrides what the arguments before it said, and
/// nothing else of it.
pub proof fn law_last_value_wins(
    args: Seq<Seq<char>>,
    config: ConfigView,
    flag: Seq<char>,
    value: Seq<char>,
)
    requires
        configured(args, config) is Ok,
        takes_value(flag),
        valid_value(flag, value),
    ensures
        configured(args + seq![flag, value], config) == Ok::<ConfigView, Seq<char>>(
            with_setting(configured(args, config)->Ok_0, flag, value),
        ),
        forall|earlier: Seq<char>, c: ConfigView|
            #[trigger] with_setting(with_setting(c, flag, earlier), flag, value) == with_setting(
                c,
                flag,
                value,
            ),
{
    lemma_help_takes_no_value();
    let last = seq![flag, value];
    law_arguments_compose(args, last, config);
    reveal_with_fuel(configured, 2);
    assert(last.skip(2) =~= Seq::<Seq<char>>::empty());
    assert(last[0] == flag && last[1] == value);
}

/// A setting whose flag is not given keeps its value.
pub proof fn law_unmentioned_settings_stay(args: Seq<Seq<char>>, config: ConfigView)
    requires
        configured(args, config) is Ok,
    ensures
        ({
            let c = configured(args, config)->Ok_0;
            &&& !mentions(args, "--mqtt-host"@) ==> c.mqtt_host == config.mqtt_host
            &&& !mentions(args, "--mqtt-port"@) ==> c.mqtt_port == config.mqtt_port
            &&& !mentions(args, "--mqtt-user"@) ==> c.mqtt_username == config.mqtt_username
            &&& !mentions(args, "--mqtt-pass"@) ==> c.mqtt_password == config.mqtt_password
            &&& !mentions(args, "--discovery-prefix"@) ==> c.discovery_prefix
                == config.discovery_prefix
            &&& !mentions(args, "--state-dir"@) ==> c.state_dir == config.state_dir
            &&& !mentions(args, "--http-port"@) ==> c.http_port == config.http_port
        }),
    decreases args.len(),
{
    if args.len() > 0 {
        let rest = args.skip(2);
        let next = with_setting(config, args[0], args[1]);
        law_unmentioned_settings_stay(rest, next);
        assert forall|flag: Seq<char>| #[trigger] mentions(rest, flag) implies mentions(
            args,
            flag,
        ) by {
            let i = choose|i: int| 0 <= i && 2 * i < rest.len() && #[trigger] flag_at(rest, i) == flag;
            assert(flag_at(args, i + 1) == flag);
        }
        assert(flag_at(args, 0) == args[0]);
        assert(mentions(args, args[0]));
    }
}

/// After any accepted arguments, an unknown flag, a request for help and a
/// flag without its value are errors, whatever follows.
pub proof fn law_bad_flags_are_errors(
    args: Seq<Seq<char>>,
    flag: Seq<char>,
    rest: Seq<Seq<char>>,
    config: ConfigView,
)
    requires
        configured(args, config) is Ok,
    ensures
        asks_help(flag) ==> configured(args + (seq![flag] + rest), config) == Err::<
            ConfigView,
            Seq<char>,
        >(USAGE@),
        !asks_help(flag) && !takes_value(flag) ==> configured(args + (seq![flag] + rest), config)
            == Err::<ConfigView, Seq<char>>(unknown_flag(flag)),
        takes_value(flag) ==> configured(args + seq![flag], config) == Err::<ConfigView, Seq<char>>(
            missing_value(flag),
        ),
{
    lemma_help_takes_no_value();
    law_arguments_compose(args, seq![flag] + rest, config);
    law_arguments_compose(args, seq![flag], config);
    assert((seq![flag] + rest)[0] == flag);
}

/// An MQTT filter that ends in `#` covers a topic: the topic starts with what
/// stands before the `#`.
pub open spec fn filter_covers(filter: Seq<char>, topic: Seq<char>) -> bool {
    filter.len() > 0 && filter.last() == '#' && crate::text::starts(topic, filter.drop_last())
}

/// Subscribing to the discovery filter of a component receives every discovery
/// topic of that component.
pub proof fn law_discovery_filter_covers(prefix: Seq<char>, topic: Seq<char>, parts: TopicParts)
    requires
        crate::discovery::is_discovery_topic(prefix, topic, parts),
    ensures
        filter_covers(discovery_filter_text(prefix, parts.component), topic),
{
    reveal_strlit("/");
    reveal_strlit("/#");
    crate::discovery::law_discovery_topics_are_framed(prefix, topic, parts);
    let filter = discovery_filter_text(prefix, parts.component);
    assert(filter.drop_last() =~= prefix + seq!['/'] + parts.component + seq!['/']);
}

/// The flags are all different.
proof fn lemma_flags_differ()
    ensures
        "--mqtt-port"@ != "--mqtt-host"@,
        "--mqtt-user"@ != "--mqtt-host"@,
        "--mqtt-user"@ != "--mqtt-port"@,
        "--mqtt-pass"@ != "--mqtt-host"@,
        "--mqtt-pass"@ != "--mqtt-port"@,
        "--mqtt-pass"@ != "--mqtt-user"@,
        "--discovery-prefix"@.len() == 18,
        "--mqtt-host"@.len() == 11,
        "--mqtt-port"@.len() == 11,
        "--mqtt-user"@.len() == 11,
        "--mqtt-pass"@.len() == 11,
        "--state-dir"@.len() == 11,
        "--http-port"@.len() == 11,
        "--state-dir"@[2] == 's',
        "--http-port"@[2] == 'h',
        "--mqtt-host"@[2] == 'm',
        "--mqtt-port"@[2] == 'm',
        "--mqtt-user"@[2] == 'm',
        "--mqtt-pass"@[2] == 'm',
{
    reveal_strlit("--mqtt-host");
    reveal_strlit("--mqtt-port");
    reveal_strlit("--mqtt-user");
    reveal_strlit("--mqtt-pass");
    reveal_strlit("--discovery-prefix");
    reveal_strlit("--state-dir");
    reveal_strlit("--http-port");
    assert("--mqtt-host"@[7] == 'h');
    assert("--mqtt-port"@[7] == 'p' && "--mqtt-port"@[8] == 'o');
    assert("--mqtt-user"@[7] == 'u');
    assert("--mqtt-pass"@[7] == 'p' && "--mqtt-pass"@[8] == 'a');
}

/// A flag with a value makes its setting exactly that value, whole and
/// unchanged, whatever was accepted before it, and leaves every other setting
/// alone.
pub proof fn law_flags_set_their_settings(
    args: Seq<Seq<char>>,
    config: ConfigView,
    value: Seq<char>,
)
    requires
        configured(args, config) is Ok,
    ensures
        ({
            let c = configured(args, config)->Ok_0;
            &&& configured(args + seq!["--mqtt-host"@, value], config) == Ok::<_, Seq<char>>(
                ConfigView { mqtt_host: value, ..c },
            )
            &&& configured(args + seq!["--mqtt-user"@, value], config) == Ok::<_, Seq<char>>(
                ConfigView { mqtt_username: Some(value), ..c },
            )
            &&& configured(args + seq!["--mqtt-pass"@, value], config) == Ok::<_, Seq<char>>(
                ConfigView { mqtt_password: Some(value), ..c },
            )
            &&& configured(args + seq!["--discovery-prefix"@, value], config) == Ok::<
                _,
                Seq<char>,
            >(ConfigView { discovery_prefix: value, ..c })
            &&& configured(args + seq!["--state-dir"@, value], config) == Ok::<_, Seq<char>>(
                ConfigView { state_dir: Some(value), ..c },
            )
        }),
{
    lemma_flags_differ();
    lemma_text_flags_take_no_port();
    law_last_value_wins(args, config, "--mqtt-host"@, value);
    law_last_value_wins(args, config, "--mqtt-user"@, value);
    law_last_value_wins(args, config, "--mqtt-pass"@, value);
    law_last_value_wins(args, config, "--discovery-prefix"@, value);
    law_last_value_wins(args, config, "--state-dir"@, value);
}

/// A port flag with the decimal of a number sets its port to that number, and
/// leaves every other setting alone. With a value that is no 16-bit number it
/// is refused, and the value named.
pub proof fn law_ports_are_numbers(
    args: Seq<Seq<char>>,
    config: ConfigView,
    port: u16,
    value: Seq<char>,
)
    requires
        configured(args, config) is Ok,
    ensures
        ({
            let c = configured(args, config)->Ok_0;
            let text = crate::text::decimal(port as nat);
            &&& configured(args + seq!["--mqtt-port"@, text], config) == Ok::<_, Seq<char>>(
                ConfigView { mqtt_port: port, ..c },
            )
            &&& configured(args + seq!["--http-port"@, text], config) == Ok::<_, Seq<char>>(
                ConfigView { http_port: port, ..c },
            )
            &&& match crate::text::number16(value) {
                Some(number) => {
                    &&& configured(args + seq!["--mqtt-port"@, value], config) == Ok::<
                        _,
                        Seq<char>,
                    >(ConfigView { mqtt_port: number, ..c })
                    &&& configured(args + seq!["--http-port"@, value], config) == Ok::<
                        _,
                        Seq<char>,
                    >(ConfigView { http_port: number, ..c })
                },
                None => {
                    &&& configured(args + seq!["--mqtt-port"@, value], config) == Err::<
                        ConfigView,
                        _,
                    >("invalid "@ + "--mqtt-port"@ + " `"@ + value + "`"@)
                    &&& configured(args + seq!["--http-port"@, value], config) == Err::<
                        ConfigView,
                        _,
                    >("invalid "@ + "--http-port"@ + " `"@ + value + "`"@)
                },
            }
        }),
{
    lemma_flags_differ();
    lemma_help_takes_no_value();
    let text = crate::text::decimal(port as nat);
    crate::text::law_decimals_read_back(port as nat);
    law_last_value_wins(args, config, "--mqtt-port"@, text);
    law_last_value_wins(args, config, "--http-port"@, text);
    if crate::text::number16(value) is Some {
        law_last_value_wins(args, config, "--mqtt-port"@, value);
        law_last_value_wins(args, config, "--http-port"@, value);
    } else {
        law_arguments_compose(args, seq!["--mqtt-port"@, value], config);
        law_arguments_compose(args, seq!["--http-port"@, value], config);
    }
}

/// Without arguments nothing changes, and every setting has its documented
/// default.
pub proof fn law_documented_defaults(config: ConfigView)
    ensures
        configured(Seq::empty(), config) == Ok::<_, Seq<char>>(config),
        ({
            let r = configured(Seq::empty(), default_config());
            &&& r is Ok
            &&& r->Ok_0.mqtt_host == "localhost"@
            &&& r->Ok_0.mqtt_port == 1883
            &&& r->Ok_0.mqtt_username is None
            &&& r->Ok_0.mqtt_password is None
            &&& r->Ok_0.discovery_prefix == "homeassistant"@
            &&& r->Ok_0.state_dir is None
            &&& r->Ok_0.http_port == 80
        }),
{
}

/// After any accepted arguments, a word that is none of the documented flags is
/// refused and named, followed by the usage; `-h` and `--help` give the usage;
/// and a flag that ends the arguments is refused for want of its value.
pub proof fn law_other_words_are_refused(
    args: Seq<Seq<char>>,
    config: ConfigView,
    word: Seq<char>,
    rest: Seq<Seq<char>>,
)
    requires
        configured(args, config) is Ok,
    ensures
        ({
            let known = word == "--mqtt-host"@ || word == "--mqtt-port"@ || word == "--mqtt-user"@
                || word == "--mqtt-pass"@ || word == "--discovery-prefix"@ || word
                == "--state-dir"@ || word == "--http-port"@;
            let help = word == "-h"@ || word == "--help"@;
            &&& help ==> configured(args + (seq![word] + rest), config) == Err::<ConfigView, _>(
                USAGE@,
            )
            &&& !help && !known ==> configured(args + (seq![word] + rest), config) == Err::<
                ConfigView,
                _,
            >("unknown flag `"@ + word + "`\n"@ + USAGE@)
            &&& known ==> configured(args + seq![word], config) == Err::<ConfigView, _>(
                "missing value for `"@ + word + "`"@,
            )
        }),
{
    law_bad_flags_are_errors(args, word, rest, config);
}

/// A configuration is what its fields say, and arguments are the texts that
/// were given, in order.
pub proof fn law_configurations_are_shown(c: Config, list: Seq<String>, i: int)
    requires
        0 <= i < list.len(),
    ensures
        c@.mqtt_host == c.mqtt_host@,
        c@.mqtt_port == c.mqtt_port,
        c@.mqtt_username == (match c.mqtt_username {
            Some(t) => Some(t@),
            None => None,
        }),
        c@.mqtt_password == (match c.mqtt_password {
            Some(t) => Some(t@),
            None => None,
        }),
        c@.discovery_prefix == c.discovery_prefix@,
        c@.state_dir == (match c.state_dir {
            Some(t) => Some(t@),
            None => None,
        }),
        c@.http_port == c.http_port,
        texts(list).len() == list.len(),
        texts(list)[i] == list[i]@,
{
}

/// The filter of a component is the prefix, the component and the MQTT
/// wildcard for everything below, with slashes between.
pub proof fn law_filters_are_wildcards(prefix: Seq<char>, component: Seq<char>)
    ensures
        discovery_filter_text(prefix, component) == prefix + seq!['/'] + component + seq!['/', '#'],
{
    reveal_strlit("/");
    reveal_strlit("/#");
    assert("/"@ =~= seq!['/']);
    assert("/#"@ =~= seq!['/', '#']);
}

} // verus!
