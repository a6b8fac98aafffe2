//! The recognised options and their defaults, and how values from the
//! environment override them.

use vstd::prelude::*;
use crate::text::{chars_of, texts};

verus! {

/// Which transport dialect the model client speaks.
#[derive(Debug, Clone, Copy, PartialEq, Eq, Structural)]
pub enum Provider {
    /// A Gemini-style endpoint.
    Gemini,
    /// An OpenAI-style chat endpoint.
    OpenAI,
}

/// The options that the agent recognises.
#[derive(Debug, PartialEq, Eq)]
pub struct Config {
    /// Which transport dialect to speak.
    pub provider: Provider,
    /// The key sent with each request; empty where none is configured.
    pub api_key: String,
    /// An endpoint that replaces the transport's own.
    pub base_url: Option<String>,
    /// The model identifier.
    pub model: String,
    /// How many messages, system messages aside, a request may carry.
    pub max_history_messages: usize,
    /// The cap on the bytes kept of each captured stream.
    pub max_output_bytes: usize,
    /// The cap on the lines kept of each captured stream.
    pub max_output_lines: usize,
    /// Regular expressions that mark a command as dangerous.
    pub dangerous_patterns: Vec<String>,
    /// Whether actions are described instead of executed.
    pub safe_mode: bool,
}

/// The options as plain values.
pub struct ConfigView {
    pub provider: Provider,
    pub api_key: Seq<char>,
    pub base_url: Option<Seq<char>>,
    pub model: Seq<char>,
    pub max_history_messages: usize,
    pub max_output_bytes: usize,
    pub max_output_lines: usize,
    pub dangerous_patterns: Seq<Seq<char>>,
    pub safe_mode: bool,
}

impl View for Config {
    type V = ConfigView;

    open spec fn view(&self) -> ConfigView {
        ConfigView {
            provider: self.provider,
            api_key: self.api_key@,
            base_url: match self.base_url {
                Some(url) => Some(url@),
                None => None,
            },
            model: self.model@,
            max_history_messages: self.max_history_messages,
            max_output_bytes: self.max_output_bytes,
            max_output_lines: self.max_output_lines,
            dangerous_patterns: texts(self.dangerous_patterns@),
            safe_mode: self.safe_mode,
        }
    }
}

/// A copy of a list of strings.
pub fn clone_strings(list: &Vec<String>) -> (copy: Vec<String>)
    ensures
        copy@ == list@,
{
    let mut copy: Vec<String> = Vec::new();
    let mut i: usize = 0;
    while i < list.len()
        invariant
            i <= list.len(),
            copy@ == list@.take(i as int),
        decreases list.len() - i,
    {
        copy.push(list[i].clone());
        i += 1;
    }
    copy
}

impl Clone for Config {
    fn clone(&self) -> (copy: Self)
        ensures
            copy@ == self@,
    {
        Config {
            provider: self.provider,
            api_key: self.api_key.clone(),
            base_url: match &self.base_url {
                Some(url) => Some(url.clone()),
                None => None,
            },
            model: self.model.clone(),
            max_history_messages: self.max_history_messages,
            max_output_bytes: self.max_output_bytes,
            max_output_lines: self.max_output_lines,
            dangerous_patterns: clone_strings(&self.dangerous_patterns),
            safe_mode: self.safe_mode,
        }
    }
}

/// The default set of dangerous patterns: removal of the root tree, making
/// a file system, raw copies with `dd`, fork bombs, and writes to a disk
/// device.
pub open spec fn default_patterns_spec() -> Seq<Seq<char>> {
    seq![
        "rm\\s+-rf\\s+/"@,
        "mkfs"@,
        "dd\\s+if="@,
        ":\\(\\)\\s*\\{"@,
        ">\\s*/dev/sd"@,
    ]
}

/// The default model identifier.
pub fn default_model() -> (model: String)
    ensures
        model@ == "gemini-2.5-flash"@,
{
    "gemini-2.5-flash".to_owned()
}

/// The default window: 20 messages.
pub fn default_max_history() -> (n: usize)
    ensures
        n == 20,
{
    20
}

/// The default byte cap: 50 KiB.
pub fn default_max_output_bytes() -> (n: usize)
    ensures
        n == 51200,
{
    51200
}

/// The default line cap: 500 lines.
pub fn default_max_output_lines() -> (n: usize)
    ensures
        n == 500,
{
    500
}

/// The default set of dangerous patterns.
pub fn default_dangerous_patterns() -> (patterns: Vec<String>)
    ensures
        texts(patterns@) == default_patterns_spec(),
{
    let mut patterns: Vec<String> = Vec::new();
    patterns.push("rm\\s+-rf\\s+/".to_owned());
    patterns.push("mkfs".to_owned());
    patterns.push("dd\\s+if=".to_owned());
    patterns.push(":\\(\\)\\s*\\{".to_owned());
    patterns.push(">\\s*/dev/sd".to_owned());
    assert(texts(patterns@) == default_patterns_spec());
    patterns
}

/// The options when nothing is configured.
pub open spec fn default_config_spec() -> ConfigView {
    ConfigView {
        provider: Provider::Gemini,
        api_key: Seq::empty(),
        base_url: None,
        model: "gemini-2.5-flash"@,
        max_history_messages: 20,
        max_output_bytes: 51200,
        max_output_lines: 500,
        dangerous_patterns: default_patterns_spec(),
        safe_mode: false,
    }
}

impl Default for Config {
    fn default() -> (config: Self)
        ensures
            config@ == default_config_spec(),
    {
        Config {
            provider: Provider::Gemini,
            api_key: String::new(),
            base_url: None,
            model: default_model(),
            max_history_messages: default_max_history(),
            max_output_bytes: default_max_output_bytes(),
            max_output_lines: default_max_output_lines(),
            dangerous_patterns: default_dangerous_patterns(),
            safe_mode: false,
        }
    }
}

/// The value of a text of decimal digits, read from the left onto `acc`.
pub open spec fn digits_value(digits: Seq<char>, acc: nat) -> nat
    decreases digits.len(),
{
    if digits.len() == 0 {
        acc
    } else {
        digits_value(digits.drop_first(), acc * 10 + ((digits[0] as u32) - 48) as nat)
    }
}

/// Whether every character is a decimal digit.
pub open spec fn all_digits(s: Seq<char>) -> bool {
    forall|i: int| 0 <= i < s.len() ==> '0' <= #[trigger] s[i] <= '9'
}

/// The digits of an unsigned number text: the text itself, without one
/// leading plus sign.
pub open spec fn unsigned_digits(s: Seq<char>) -> Seq<char> {
    if s.len() > 0 && s[0] == '+' {
        s.drop_first()
    } else {
        s
    }
}

/// The number that a text denotes as a `usize`: decimal digits after an
/// optional plus sign, at least one digit, and a value that fits.
pub open spec fn parse_usize_spec(s: Seq<char>) -> Option<usize> {
    let digits = unsigned_digits(s);
    if digits.len() > 0 && all_digits(digits) && digits_value(digits, 0) <= usize::MAX {
        Some(digits_value(digits, 0) as usize)
    } else {
        None
    }
}

/// Reading more digits never lowers the value.
pub proof fn lemma_digits_value_grows(digits: Seq<char>, acc: nat)
    requires
        all_digits(digits),
    ensures
        digits_value(digits, acc) >= acc,
    decreases digits.len(),
{
    if digits.len() > 0 {
        let rest = digits.drop_first();
        assert forall|i: int| 0 <= i < rest.len() implies '0' <= #[trigger] rest[i] <= '9' by {
            assert(rest[i] == digits[i + 1]);
        }
        assert('0' <= digits[0] <= '9');
        lemma_digits_value_grows(rest, acc * 10 + ((digits[0] as u32) - 48) as nat);
    }
}

/// The number that `text` denotes, as `parse_usize_spec` defines it.
pub fn parse_usize(text: &str) -> (value: Option<usize>)
    ensures
        value == parse_usize_spec(text@),
{
    let chars = chars_of(text);
    let start: usize = if chars.len() > 0 && chars[0] == '+' {
        1
    } else {
        0
    };
    let ghost digits = unsigned_digits(text@);
    proof {
        assert(digits == chars@.skip(start as int));
    }
    if start == chars.len() {
        return None;
    }
    let mut acc: usize = 0;
    let mut i: usize = start;
    proof {
        assert(digits.skip(0) == digits);
        assert(digits.take(0) == Seq::<char>::empty());
    }
    while i < chars.len()
        invariant
            start <= i <= chars.len(),
            digits == chars@.skip(start as int),
            digits == unsigned_digits(text@),
            digits.len() > 0,
            all_digits(digits.take(i - start)),
            digits_value(digits, 0) == digits_value(digits.skip(i - start), acc as nat),
        decreases chars.len() - i,
    {
        let c = chars[i];
        let ghost rest = digits.skip(i - start);
        proof {
            assert(rest[0] == c);
            assert(rest.drop_first() == digits.skip(i - start + 1));
        }
        if c < '0' || c > '9' {
            assert(digits[i - start] == c);
            return None;
        }
        let d: usize = (c as u32 - 48) as usize;
        proof {
            assert forall|k: int| 0 <= k < i - start + 1 implies '0' <= #[trigger] digits.take(
                i - start + 1,
            )[k] <= '9' by {
                if k < i - start {
                    assert(digits.take(i - start + 1)[k] == digits.take(i - start)[k]);
                }
            }
        }
        if acc > (usize::MAX - d) / 10 {
            proof {
                assert(digits[i - start] == c);
                lemma_overflow_means_none(digits, i - start, acc as nat);
            }
            return None;
        }
        acc = acc * 10 + d;
        i += 1;
    }
    proof {
        assert(digits.skip(digits.len() as int) == Seq::<char>::empty());
        assert(digits.take(digits.len() as int) == digits);
    }
    Some(acc)
}

/// Once the value read so far, with the next digit, no longer fits, the
/// text denotes no `usize`, whatever follows.
pub proof fn lemma_overflow_means_none(digits: Seq<char>, at: int, acc: nat)
    requires
        0 <= at < digits.len(),
        '0' <= digits[at] <= '9',
        all_digits(digits.take(at)),
        digits_value(digits, 0) == digits_value(digits.skip(at), acc),
        acc * 10 + ((digits[at] as u32) - 48) > usize::MAX,
    ensures
        !(all_digits(digits) && digits_value(digits, 0) <= usize::MAX),
{
    if all_digits(digits) {
        let rest = digits.skip(at);
        let next = rest.drop_first();
        assert(rest[0] == digits[at]);
        assert forall|k: int| 0 <= k < next.len() implies '0' <= #[trigger] next[k] <= '9' by {
            assert(next[k] == digits[at + 1 + k]);
        }
        lemma_digits_value_grows(next, acc * 10 + ((digits[at] as u32) - 48) as nat);
    }
}

/// Values found in the environment, each absent where its variable is not
/// set.
#[derive(Debug, PartialEq, Eq)]
pub struct EnvOverrides {
    /// Replaces the key.
    pub api_key: Option<String>,
    /// Replaces the model identifier.
    pub model: Option<String>,
    /// Replaces the window size, if it denotes a number.
    pub max_history: Option<String>,
    /// Replaces the byte cap, if it denotes a number.
    pub max_output_bytes: Option<String>,
    /// Replaces the line cap, if it denotes a number.
    pub max_output_lines: Option<String>,
}

/// The text of an optional string.
pub open spec fn option_text(value: Option<String>) -> Option<Seq<char>> {
    match value {
        Some(text) => Some(text@),
        None => None,
    }
}

/// A text option after an override: the override where there is one.
pub open spec fn overridden_text(current: Seq<char>, value: Option<Seq<char>>) -> Seq<char> {
    match value {
        Some(text) => text,
        None => current,
    }
}

/// A number option after an override: the override where there is one and
/// it denotes a number that fits.
pub open spec fn overridden_number(current: usize, value: Option<Seq<char>>) -> usize {
    match value {
        Some(text) => match parse_usize_spec(text) {
            Some(n) => n,
            None => current,
        },
        None => current,
    }
}

fn override_number(current: usize, value: &Option<String>) -> (n: usize)
    ensures
        n == overridden_number(current, option_text(*value)),
{
    match value {
        Some(text) => match parse_usize(text.as_str()) {
            Some(n) => n,
            None => current,
        },
        None => current,
    }
}

impl Config {
    /// The configuration in force: what the file holds, or the defaults
    /// where there is no file, with what the environment overrides. So the
    /// environment goes before the file, and the file before the defaults.
    pub fn load(from_file: Option<Config>, env: &EnvOverrides) -> (config: Self)
        ensures
            config@ == ({
                let base = match from_file {
                    Some(file) => file@,
                    None => default_config_spec(),
                };
                ConfigView {
                    api_key: overridden_text(base.api_key, option_text(env.api_key)),
                    model: overridden_text(base.model, option_text(env.model)),
                    max_history_messages: overridden_number(
                        base.max_history_messages,
                        option_text(env.max_history),
                    ),
                    max_output_bytes: overridden_number(
                        base.max_output_bytes,
                        option_text(env.max_output_bytes),
                    ),
                    max_output_lines: overridden_number(
                        base.max_output_lines,
                        option_text(env.max_output_lines),
                    ),
                    ..base
                }
            }),
    {
        let mut config = match from_file {
            Some(file) => file,
            None => Config::default(),
        };
        config.apply_env_overrides(env);
        config
    }

    /// Whether a key is configured.
    pub fn has_api_key(&self) -> (b: bool)
        ensures
            b == (self@.api_key.len() > 0),
    {
        !self.api_key.as_str().is_empty()
    }

    /// Lets values from the environment take precedence: the key and the
    /// model are replaced where a value is present; each of the three
    /// numbers is replaced where a value is present and denotes a number.
    /// Everything else stays.
    pub fn apply_env_overrides(&mut self, env: &EnvOverrides)
        ensures
            final(self)@ == (ConfigView {
                api_key: overridden_text(old(self)@.api_key, option_text(env.api_key)),
                model: overridden_text(old(self)@.model, option_text(env.model)),
                max_history_messages: overridden_number(
                    old(self)@.max_history_messages,
                    option_text(env.max_history),
                ),
                max_output_bytes: overridden_number(
                    old(self)@.max_output_bytes,
                    option_text(env.max_output_bytes),
                ),
                max_output_lines: overridden_number(
                    old(self)@.max_output_lines,
                    option_text(env.max_output_lines),
                ),
                ..old(self)@
            }),
    {
        if let Some(key) = &env.api_key {
            self.api_key = key.clone();
        }
        if let Some(model) = &env.model {
            self.model = model.clone();
        }
        self.max_history_messages = override_number(self.max_history_messages, &env.max_history);
        self.max_output_bytes = override_number(self.max_output_bytes, &env.max_output_bytes);
        self.max_output_lines = override_number(self.max_output_lines, &env.max_output_lines);
    }
}

/// What the first-run setup proposes for a choice of provider.
#[derive(Debug, PartialEq, Eq)]
pub struct ProviderChoice {
    /// The provider.
    pub provider: Provider,
    /// Whether the endpoint and the model are to be asked for.
    pub custom_endpoint: bool,
    /// The model that is proposed.
    pub default_model: String,
}

/// The proposal for an answer to "which provider": `2` is the OpenAI
/// endpoint, `3` an endpoint of the user's own that speaks the same
/// dialect, and anything else is Gemini.
pub fn provider_choice(choice: &str) -> (proposal: ProviderChoice)
    ensures
        proposal.provider == (if choice@ == "2"@ || choice@ == "3"@ {
            Provider::OpenAI
        } else {
            Provider::Gemini
        }),
        proposal.custom_endpoint == (choice@ == "3"@),
        proposal.default_model@ == (if choice@ == "2"@ {
            "gpt-4o-mini"@
        } else if choice@ == "3"@ {
            Seq::empty()
        } else {
            "gemini-2.5-flash"@
        }),
{
    proof {
        reveal_strlit("2");
        reveal_strlit("3");
        assert("2"@[0] != "3"@[0]);
    }
    if crate::text::same_text(choice, "2") {
        ProviderChoice {
            provider: Provider::OpenAI,
            custom_endpoint: false,
            default_model: "gpt-4o-mini".to_owned(),
        }
    } else if crate::text::same_text(choice, "3") {
        ProviderChoice { provider: Provider::OpenAI, custom_endpoint: true, default_model: String::new() }
    } else {
        ProviderChoice {
            provider: Provider::Gemini,
            custom_endpoint: false,
            default_model: "gemini-2.5-flash".to_owned(),
        }
    }
}

/// How the first-run setup asks for the key.
pub fn api_key_prompt(provider: Provider, custom_endpoint: bool) -> (prompt: &'static str)
    ensures
        prompt@ == (match provider {
            Provider::Gemini => "Gemini API key (https://aistudio.google.com/apikey): "@,
            Provider::OpenAI => if custom_endpoint {
                "API key (leave empty if not required): "@
            } else {
                "OpenAI API key: "@
            },
        }),
{
    match provider {
        Provider::Gemini => "Gemini API key (https://aistudio.google.com/apikey): ",
        Provider::OpenAI => if custom_endpoint {
            "API key (leave empty if not required): "
        } else {
            "OpenAI API key: "
        },
    }
}

/// The model of the first-run setup: what the user typed, or the
/// proposal where that is empty.
pub fn chosen_model(typed: &str, default_model: String) -> (model: String)
    ensures
        model@ == (if typed@.len() == 0 {
            default_model@
        } else {
            typed@
        }),
{
    if typed.is_empty() {
        default_model
    } else {
        typed.to_owned()
    }
}

} // verus!
