//! Chain selection and configuration of the `base` node: the built-in chains, the keys of
//! environment overrides, the resolved chain settings and the datadir layout.

use vstd::prelude::*;

use vstd::string::{StrSliceExecFns, StringExecFns};

verus! {

/// A built-in chain of the `base` binary.
#[derive(Clone, Copy, Debug, PartialEq, Eq, Structural)]
pub enum BuiltInChain {
    /// Base mainnet.
    Mainnet,
    /// Base sepolia.
    Sepolia,
    /// Base zeronet.
    Zeronet,
}

/// The canonical CLI name of a built-in chain.
pub open spec fn spec_chain_name(chain: BuiltInChain) -> Seq<char> {
    match chain {
        BuiltInChain::Mainnet => "mainnet"@,
        BuiltInChain::Sepolia => "sepolia"@,
        BuiltInChain::Zeronet => "zeronet"@,
    }
}

/// The execution chain selector of a built-in chain.
pub open spec fn spec_execution_chain(chain: BuiltInChain) -> Seq<char> {
    match chain {
        BuiltInChain::Mainnet => "base"@,
        BuiltInChain::Sepolia => "base-sepolia"@,
        BuiltInChain::Zeronet => "base-zeronet"@,
    }
}

/// The built-in chain of an L2 chain ID.
pub open spec fn spec_chain_of_id(l2_chain_id: u64) -> Option<BuiltInChain> {
    if l2_chain_id == 8453 {
        Some(BuiltInChain::Mainnet)
    } else if l2_chain_id == 84532 {
        Some(BuiltInChain::Sepolia)
    } else if l2_chain_id == 763360 {
        Some(BuiltInChain::Zeronet)
    } else {
        None
    }
}

/// The L2 chain ID of a built-in chain.
pub open spec fn spec_l2_chain_id(chain: BuiltInChain) -> u64 {
    match chain {
        BuiltInChain::Mainnet => 8453,
        BuiltInChain::Sepolia => 84532,
        BuiltInChain::Zeronet => 763360,
    }
}

/// The L1 chain ID of a built-in chain, where this library records it: Ethereum mainnet
/// under Base mainnet, Ethereum Sepolia under Base Sepolia; none is recorded for zeronet.
pub open spec fn spec_l1_chain_id(chain: BuiltInChain) -> Option<u64> {
    match chain {
        BuiltInChain::Mainnet => Some(1),
        BuiltInChain::Sepolia => Some(11155111),
        BuiltInChain::Zeronet => None,
    }
}

/// A built-in chain and its L2 chain ID determine each other: the chain of a built-in
/// chain's L2 chain ID is that chain, and an L2 chain ID that names a built-in chain is
/// that chain's L2 chain ID.
pub proof fn lemma_chain_id_round_trip(chain: BuiltInChain, l2_chain_id: u64)
    ensures
        spec_chain_of_id(spec_l2_chain_id(chain)) == Some(chain),
        spec_chain_of_id(l2_chain_id) == Some(chain) ==> spec_l2_chain_id(chain) == l2_chain_id,
{
}

/// `c` with an ASCII upper-case letter turned lower-case.
pub open spec fn ascii_lower(c: char) -> char {
    if 'A' <= c && c <= 'Z' {
        ((c as u32) + 32) as char
    } else {
        c
    }
}

/// `s` with its ASCII letters lower-cased, as `str::to_ascii_lowercase` does.
pub open spec fn lower_ascii(s: Seq<char>) -> Seq<char> {
    s.map_values(|c: char| ascii_lower(c))
}

/// The built-in chain named `s`, ignoring ASCII case.
pub open spec fn spec_parse_chain(s: Seq<char>) -> Option<BuiltInChain> {
    if lower_ascii(s) == "mainnet"@ {
        Some(BuiltInChain::Mainnet)
    } else if lower_ascii(s) == "sepolia"@ {
        Some(BuiltInChain::Sepolia)
    } else if lower_ascii(s) == "zeronet"@ {
        Some(BuiltInChain::Zeronet)
    } else {
        None
    }
}

/// Whether two strings hold the same characters.
fn chars_eq(a: &str, b: &str) -> (r: bool)
    ensures
        r == (a@ == b@),
{
    let n = a.unicode_len();
    if n != b.unicode_len() {
        return false;
    }
    let mut i: usize = 0;
    while i < n
        invariant
            n == a@.len(),
            n == b@.len(),
            i <= n,
            forall|j: int| 0 <= j < i ==> a@[j] == b@[j],
        decreases n - i,
    {
        if a.get_char(i) != b.get_char(i) {
            return false;
        }
        i = i + 1;
    }
    assert(a@ =~= b@);
    true
}

/// Whether `a`, with its ASCII letters lower-cased, holds the characters of `b`.
fn lower_eq(a: &str, b: &str) -> (r: bool)
    ensures
        r == (lower_ascii(a@) == b@),
{
    let n = a.unicode_len();
    if n != b.unicode_len() {
        assert(lower_ascii(a@).len() != b@.len());
        return false;
    }
    let mut i: usize = 0;
    while i < n
        invariant
            n == a@.len(),
            n == b@.len(),
            i <= n,
            forall|j: int| 0 <= j < i ==> lower_ascii(a@)[j] == b@[j],
        decreases n - i,
    {
        let c = a.get_char(i);
        let lc = if 'A' <= c && c <= 'Z' {
            char_plus_32(c)
        } else {
            c
        };
        if lc != b.get_char(i) {
            assert(lower_ascii(a@)[i as int] != b@[i as int]);
            return false;
        }
        i = i + 1;
    }
    assert(lower_ascii(a@) =~= b@);
    true
}

/// The lower-case letter of the ASCII upper-case letter `c`.
fn char_plus_32(c: char) -> (r: char)
    requires
        'A' <= c <= 'Z',
    ensures
        r == ((c as u32) + 32) as char,
{
    let code: u32 = c as u32;
    proof {
        assert(65 <= code <= 90);
    }
    let lower: u8 = (code + 32) as u8;
    lower as char
}

/// Whether `p` is a prefix of `s`.
fn starts_with(s: &str, p: &str) -> (r: bool)
    ensures
        r == (p@.len() <= s@.len() && s@.subrange(0, p@.len() as int) == p@),
{
    let n = p.unicode_len();
    if n > s.unicode_len() {
        return false;
    }
    let mut i: usize = 0;
    while i < n
        invariant
            n == p@.len(),
            n <= s@.len(),
            i <= n,
            forall|j: int| 0 <= j < i ==> s@[j] == p@[j],
        decreases n - i,
    {
        if s.get_char(i) != p.get_char(i) {
            assert(s@.subrange(0, n as int)[i as int] != p@[i as int]);
            return false;
        }
        i = i + 1;
    }
    assert(s@.subrange(0, n as int) =~= p@);
    true
}

/// The message of an unknown chain name.
///
/// Calls `format!`, which renders the name verbatim between the fixed parts.
#[verifier::external_body]
fn unsupported_chain_message(value: &str) -> (r: String)
    ensures
        r@ == "unsupported built-in chain `"@ + value@
            + "`; expected one of mainnet, sepolia, zeronet"@,
{
    format!("unsupported built-in chain `{value}`; expected one of mainnet, sepolia, zeronet")
}

impl BuiltInChain {
    /// The canonical CLI name of this chain.
    pub fn as_str(self) -> (r: &'static str)
        ensures
            r@ == spec_chain_name(self),
    {
        match self {
            BuiltInChain::Mainnet => "mainnet",
            BuiltInChain::Sepolia => "sepolia",
            BuiltInChain::Zeronet => "zeronet",
        }
    }

    /// The execution chain selector of this chain.
    pub fn execution_chain(self) -> (r: &'static str)
        ensures
            r@ == spec_execution_chain(self),
    {
        match self {
            BuiltInChain::Mainnet => "base",
            BuiltInChain::Sepolia => "base-sepolia",
            BuiltInChain::Zeronet => "base-zeronet",
        }
    }

    /// The built-in chain of a known L2 chain ID.
    pub fn from_l2_chain_id(l2_chain_id: u64) -> (r: Option<BuiltInChain>)
        ensures
            r == spec_chain_of_id(l2_chain_id),
    {
        match l2_chain_id {
            8453 => Some(BuiltInChain::Mainnet),
            84532 => Some(BuiltInChain::Sepolia),
            763360 => Some(BuiltInChain::Zeronet),
            _ => None,
        }
    }

    /// The L2 chain ID of this chain.
    pub fn l2_chain_id(self) -> (r: u64)
        ensures
            r == spec_l2_chain_id(self),
    {
        match self {
            BuiltInChain::Mainnet => 8453,
            BuiltInChain::Sepolia => 84532,
            BuiltInChain::Zeronet => 763360,
        }
    }

    /// The L1 chain ID of this chain, where this library records it.
    pub fn l1_chain_id(self) -> (r: Option<u64>)
        ensures
            r == spec_l1_chain_id(self),
    {
        match self {
            BuiltInChain::Mainnet => Some(1),
            BuiltInChain::Sepolia => Some(11155111),
            BuiltInChain::Zeronet => None,
        }
    }

    /// The built-in chain named `value`, ignoring ASCII case; an unknown name fails with a
    /// message that lists the supported ones.
    pub fn parse(value: &str) -> (r: Result<BuiltInChain, String>)
        ensures
            r is Ok <==> spec_parse_chain(value@) is Some,
            r matches Ok(c) ==> spec_parse_chain(value@) == Some(c),
            r matches Err(m) ==> m@ == "unsupported built-in chain `"@ + value@
                + "`; expected one of mainnet, sepolia, zeronet"@,
    {
        if lower_eq(value, "mainnet") {
            Ok(BuiltInChain::Mainnet)
        } else if lower_eq(value, "sepolia") {
            Ok(BuiltInChain::Sepolia)
        } else if lower_eq(value, "zeronet") {
            Ok(BuiltInChain::Zeronet)
        } else {
            Err(unsupported_chain_message(value))
        }
    }
}

impl std::str::FromStr for BuiltInChain {
    type Err = String;

    fn from_str(value: &str) -> (r: Result<BuiltInChain, String>)
        ensures
            r is Ok <==> spec_parse_chain(value@) is Some,
            r matches Ok(c) ==> spec_parse_chain(value@) == Some(c),
            r matches Err(m) ==> m@ == "unsupported built-in chain `"@ + value@
                + "`; expected one of mainnet, sepolia, zeronet"@,
    {
        BuiltInChain::parse(value)
    }
}

/// The `--chain` selection: a built-in chain, or the path of a chain TOML file.
#[derive(Clone, Debug)]
pub enum ChainArg {
    /// One of the built-in chains.
    BuiltIn(BuiltInChain),
    /// A chain TOML file.
    File(String),
}

impl ChainArg {
    /// The selection named by `value`: a built-in chain when it names one (ignoring ASCII
    /// case), otherwise a file path.
    pub fn parse(value: &str) -> (r: ChainArg)
        ensures
            spec_parse_chain(value@) matches Some(c) ==> r == ChainArg::BuiltIn(c),
            spec_parse_chain(value@) is None ==> (r matches ChainArg::File(p) && p@ == value@),
    {
        match BuiltInChain::parse(value) {
            Ok(c) => ChainArg::BuiltIn(c),
            Err(_) => ChainArg::File(value.to_owned()),
        }
    }
}

impl Default for ChainArg {
    fn default() -> (r: ChainArg)
        ensures
            r == ChainArg::BuiltIn(BuiltInChain::Mainnet),
    {
        ChainArg::BuiltIn(BuiltInChain::Mainnet)
    }
}

/// Where a resolved chain config came from.
#[derive(Clone, Debug)]
pub enum ResolvedChainSource {
    /// A built-in chain.
    BuiltIn(BuiltInChain),
    /// A chain TOML file.
    File(String),
}

/// Execution-layer chain settings.
#[derive(Clone, Debug)]
pub struct ExecutionChainConfig {
    /// Path of an execution genesis JSON file.
    pub genesis_path: Option<String>,
    /// Sequencer HTTP URL for validator-side pending state and txpool forwarding.
    pub sequencer_url: Option<String>,
    /// Flashblocks websocket URL.
    pub flashblocks_url: Option<String>,
}

/// Consensus-layer chain settings.
#[derive(Clone, Debug)]
pub struct ConsensusChainConfig {
    /// Rollup config JSON path.
    pub rollup_config_path: Option<String>,
    /// L1 chain config JSON path.
    pub l1_config_path: Option<String>,
    /// Fixed L1 slot duration override.
    pub l1_slot_duration_override: Option<u64>,
}

/// Errors of chain configuration.
#[derive(Clone, Debug)]
pub enum ConfigError {
    /// The chain name is empty or blank.
    MissingName,
    /// The L2 chain ID is zero.
    MissingL2ChainId,
    /// The L1 chain ID is zero.
    MissingL1ChainId,
    /// No execution chain is set and none is known for the L2 chain ID.
    MissingExecutionChain { l2_chain_id: u64 },
    /// The flashblocks URL does not parse as a URL.
    InvalidFlashblocksUrl { raw: String },
    /// The home directory of the user cannot be found.
    MissingHomeDirectory,
}

/// The decimal digit `d` (below ten) as a character.
pub open spec fn digit_char(d: nat) -> char {
    if d == 0 {
        '0'
    } else if d == 1 {
        '1'
    } else if d == 2 {
        '2'
    } else if d == 3 {
        '3'
    } else if d == 4 {
        '4'
    } else if d == 5 {
        '5'
    } else if d == 6 {
        '6'
    } else if d == 7 {
        '7'
    } else if d == 8 {
        '8'
    } else {
        '9'
    }
}

/// The decimal notation of `n`, without leading zeros.
pub open spec fn spec_decimal(n: nat) -> Seq<char>
    decreases n,
{
    if n < 10 {
        seq![digit_char(n)]
    } else {
        spec_decimal(n / 10).push(digit_char(n % 10))
    }
}

/// The decimal digit `d` as a string.
fn digit_str(d: u64) -> (r: &'static str)
    requires
        d < 10,
    ensures
        r@ == seq![digit_char(d as nat)],
{
    proof {
        reveal_strlit("0");
        reveal_strlit("1");
        reveal_strlit("2");
        reveal_strlit("3");
        reveal_strlit("4");
        reveal_strlit("5");
        reveal_strlit("6");
        reveal_strlit("7");
        reveal_strlit("8");
        reveal_strlit("9");
    }
    match d {
        0 => "0",
        1 => "1",
        2 => "2",
        3 => "3",
        4 => "4",
        5 => "5",
        6 => "6",
        7 => "7",
        8 => "8",
        _ => "9",
    }
}

/// The decimal notation of `n`.
fn decimal(n: u64) -> (r: String)
    ensures
        r@ == spec_decimal(n as nat),
    decreases n,
{
    let mut s = if n < 10 {
        proof {
            reveal_strlit("");
        }
        String::from_str("")
    } else {
        decimal(n / 10)
    };
    s.append(digit_str(n % 10));
    proof {
        if n < 10 {
            assert(s@ =~= seq![digit_char(n as nat)]);
        } else {
            assert(s@ =~= spec_decimal((n / 10) as nat).push(digit_char((n % 10) as nat)));
        }
    }
    s
}

/// The message of a configuration error.
pub open spec fn spec_config_message(e: ConfigError) -> Seq<char> {
    match e {
        ConfigError::MissingName => "chain config is missing a non-empty `name`"@,
        ConfigError::MissingL2ChainId => "chain config is missing a non-zero `l2_chain_id`"@,
        ConfigError::MissingL1ChainId => "chain config is missing a non-zero `l1_chain_id`"@,
        ConfigError::MissingExecutionChain { l2_chain_id } => "missing execution chain for L2 chain ID "@
            + spec_decimal(l2_chain_id as nat)
            + "; set `execution_chain` or `execution.genesis_path` in the chain TOML"@,
        ConfigError::InvalidFlashblocksUrl { raw } => "failed to parse `execution.flashblocks_url` URL `"@
            + raw@ + "`"@,
        ConfigError::MissingHomeDirectory => "failed to resolve home directory"@,
    }
}

impl ConfigError {
    /// The message of this error.
    pub fn message(&self) -> (r: String)
        ensures
            r@ == spec_config_message(*self),
    {
        match self {
            ConfigError::MissingName => String::from_str("chain config is missing a non-empty `name`"),
            ConfigError::MissingL2ChainId => String::from_str(
                "chain config is missing a non-zero `l2_chain_id`",
            ),
            ConfigError::MissingL1ChainId => String::from_str(
                "chain config is missing a non-zero `l1_chain_id`",
            ),
            ConfigError::MissingExecutionChain { l2_chain_id } => {
                let mut m = String::from_str("missing execution chain for L2 chain ID ");
                let d = decimal(*l2_chain_id);
                m.append(d.as_str());
                m.append("; set `execution_chain` or `execution.genesis_path` in the chain TOML");
                m
            },
            ConfigError::InvalidFlashblocksUrl { raw } => {
                let mut m = String::from_str("failed to parse `execution.flashblocks_url` URL `");
                m.append(raw.as_str());
                m.append("`");
                m
            },
            ConfigError::MissingHomeDirectory => String::from_str("failed to resolve home directory"),
        }
    }
}

/// The serialization of the URL that `raw` parses to, or `None` when `raw` is not a valid URL.
pub uninterp spec fn url_serialization(raw: Seq<char>) -> Option<Seq<char>>;

/// Parses `raw` as a URL and gives its serialization.
///
/// Calls `url::Url::parse`, then `to_string` on the parsed URL; the contract names that
/// serialization and states nothing more of it.
#[verifier::external_body]
fn parse_url(raw: &str) -> (r: Option<String>)
    ensures
        opt_view(r) == url_serialization(raw@),
{
    match url::Url::parse(raw) {
        Ok(url) => Some(url.to_string()),
        Err(_) => None,
    }
}

/// The flashblocks URL of the configured value `raw`, given what `raw` parsed to: the URL's
/// serialization, or an error naming `raw` when it did not parse.
pub fn flashblocks_url_from(raw: &str, parsed: Option<String>) -> (r: Result<String, ConfigError>)
    ensures
        match parsed {
            Some(u) => r matches Ok(v) && v@ == u@,
            None => r matches Err(ConfigError::InvalidFlashblocksUrl { raw: x }) && x@ == raw@,
        },
{
    match parsed {
        Some(u) => Ok(u),
        None => Err(ConfigError::InvalidFlashblocksUrl { raw: raw.to_owned() }),
    }
}

/// The home directory of the user, if it can be found.
///
/// Calls `dirs::home_dir`, which reads the environment and the user database; nothing is
/// stated of what it returns. A path that is not UTF-8 is converted lossily.
#[verifier::external_body]
fn home_dir() -> (r: Option<String>) {
    dirs::home_dir().map(|path| path.to_string_lossy().into_owned())
}

/// The chain settings merged from built-ins, the chain TOML and the environment.
#[derive(Clone, Debug)]
pub struct ResolvedChainValues {
    /// Human-readable chain name.
    pub name: String,
    /// L2 chain ID.
    pub l2_chain_id: u64,
    /// L1 chain ID.
    pub l1_chain_id: u64,
    /// Execution chain selector or genesis path.
    pub execution_chain: Option<String>,
    /// Rollup config JSON path.
    pub rollup_config_path: Option<String>,
    /// L1 chain config JSON path.
    pub l1_config_path: Option<String>,
    /// Fixed L1 slot duration override.
    pub l1_slot_duration_override: Option<u64>,
    /// Execution-layer settings.
    pub execution: ExecutionChainConfig,
    /// Consensus-layer settings.
    pub consensus: ConsensusChainConfig,
}

/// Whether `c` has the Unicode `White_Space` property, as `char::is_whitespace` says.
pub open spec fn spec_is_whitespace(c: char) -> bool {
    ||| ('\u{9}' <= c && c <= '\u{d}')
    ||| c == ' '
    ||| c == '\u{85}'
    ||| c == '\u{a0}'
    ||| c == '\u{1680}'
    ||| ('\u{2000}' <= c && c <= '\u{200a}')
    ||| c == '\u{2028}'
    ||| c == '\u{2029}'
    ||| c == '\u{202f}'
    ||| c == '\u{205f}'
    ||| c == '\u{3000}'
}

/// Whether `c` is white space.
///
/// Calls `char::is_whitespace`, documented as the Unicode `White_Space` property.
#[verifier::external_body]
fn is_whitespace(c: char) -> (r: bool)
    ensures
        r == spec_is_whitespace(c),
{
    c.is_whitespace()
}

/// Whether every character of `s` is white space (so that trimming leaves nothing).
fn is_blank(s: &str) -> (r: bool)
    ensures
        r == (forall|i: int| 0 <= i < s@.len() ==> spec_is_whitespace(#[trigger] s@[i])),
{
    let n = s.unicode_len();
    let mut i: usize = 0;
    while i < n
        invariant
            n == s@.len(),
            i <= n,
            forall|j: int| 0 <= j < i ==> spec_is_whitespace(#[trigger] s@[j]),
        decreases n - i,
    {
        if !is_whitespace(s.get_char(i)) {
            return false;
        }
        i = i + 1;
    }
    true
}

impl ResolvedChainValues {
    /// The values of the built-in chain `chain`, whose chain config has the chain IDs
    /// `l2_chain_id` and `l1_chain_id`: its canonical name, those IDs and its execution chain
    /// selector; nothing else is set.
    pub fn from_builtin(chain: BuiltInChain, l2_chain_id: u64, l1_chain_id: u64) -> (r: ResolvedChainValues)
        ensures
            r.name@ == spec_chain_name(chain),
            r.l2_chain_id == l2_chain_id,
            r.l1_chain_id == l1_chain_id,
            r.execution_chain matches Some(c) && c@ == spec_execution_chain(chain),
            r.rollup_config_path is None,
            r.l1_config_path is None,
            r.l1_slot_duration_override is None,
            r.execution.genesis_path is None,
            r.execution.sequencer_url is None,
            r.execution.flashblocks_url is None,
            r.consensus.rollup_config_path is None,
            r.consensus.l1_config_path is None,
            r.consensus.l1_slot_duration_override is None,
    {
        ResolvedChainValues {
            name: chain.as_str().to_owned(),
            l2_chain_id,
            l1_chain_id,
            execution_chain: Some(chain.execution_chain().to_owned()),
            rollup_config_path: None,
            l1_config_path: None,
            l1_slot_duration_override: None,
            execution: ExecutionChainConfig {
                genesis_path: None,
                sequencer_url: None,
                flashblocks_url: None,
            },
            consensus: ConsensusChainConfig {
                rollup_config_path: None,
                l1_config_path: None,
                l1_slot_duration_override: None,
            },
        }
    }

    /// Validates the chain identity: a name that is not blank, and nonzero chain IDs.
    pub fn validate(&self) -> (r: Result<(), ConfigError>)
        ensures
            (forall|i: int| 0 <= i < self.name@.len() ==> spec_is_whitespace(#[trigger] self.name@[i]))
                ==> (r matches Err(ConfigError::MissingName)),
            !(forall|i: int| 0 <= i < self.name@.len() ==> spec_is_whitespace(#[trigger] self.name@[i])) ==> {
                &&& self.l2_chain_id == 0 ==> (r matches Err(ConfigError::MissingL2ChainId))
                &&& self.l2_chain_id != 0 && self.l1_chain_id == 0 ==> (r matches Err(
                    ConfigError::MissingL1ChainId,
                ))
                &&& self.l2_chain_id != 0 && self.l1_chain_id != 0 ==> r is Ok
            },
    {
        if is_blank(self.name.as_str()) {
            return Err(ConfigError::MissingName);
        }
        if self.l2_chain_id == 0 {
            return Err(ConfigError::MissingL2ChainId);
        }
        if self.l1_chain_id == 0 {
            return Err(ConfigError::MissingL1ChainId);
        }
        Ok(())
    }
}

/// The resolved chain config of the `base` binary.
#[derive(Clone, Debug)]
pub struct ResolvedChainConfig {
    /// Human-readable chain name.
    pub name: String,
    /// L2 chain ID.
    pub l2_chain_id: u64,
    /// L1 chain ID.
    pub l1_chain_id: u64,
    /// Execution chain selector or genesis path.
    pub execution_chain: Option<String>,
    /// Rollup config JSON path.
    pub rollup_config_path: Option<String>,
    /// L1 chain config JSON path.
    pub l1_config_path: Option<String>,
    /// Fixed L1 slot duration override.
    pub l1_slot_duration_override: Option<u64>,
    /// Execution-layer settings.
    pub execution: ExecutionChainConfig,
    /// Consensus-layer settings.
    pub consensus: ConsensusChainConfig,
    /// Where this config came from.
    pub source: ResolvedChainSource,
}

/// The string held by an optional string, if any.
pub open spec fn opt_view(o: Option<String>) -> Option<Seq<char>> {
    match o {
        Some(s) => Some(s@),
        None => None,
    }
}

impl ResolvedChainConfig {
    /// A resolved config of merged values and their source.
    pub fn new(values: ResolvedChainValues, source: ResolvedChainSource) -> (r: ResolvedChainConfig)
        ensures
            r.name == values.name,
            r.l2_chain_id == values.l2_chain_id,
            r.l1_chain_id == values.l1_chain_id,
            r.execution_chain == values.execution_chain,
            r.rollup_config_path == values.rollup_config_path,
            r.l1_config_path == values.l1_config_path,
            r.l1_slot_duration_override == values.l1_slot_duration_override,
            r.execution == values.execution,
            r.consensus == values.consensus,
            r.source == source,
    {
        ResolvedChainConfig {
            name: values.name,
            l2_chain_id: values.l2_chain_id,
            l1_chain_id: values.l1_chain_id,
            execution_chain: values.execution_chain,
            rollup_config_path: values.rollup_config_path,
            l1_config_path: values.l1_config_path,
            l1_slot_duration_override: values.l1_slot_duration_override,
            execution: values.execution,
            consensus: values.consensus,
            source,
        }
    }

    /// The execution chain input of this config: the explicit selector, else the execution
    /// genesis path, else the selector of the built-in chain with this L2 chain ID.
    pub open spec fn spec_execution_chain_input(&self) -> Result<Seq<char>, ConfigError> {
        match self.execution_chain {
            Some(c) => Ok(c@),
            None => match self.execution.genesis_path {
                Some(p) => Ok(p@),
                None => match spec_chain_of_id(self.l2_chain_id) {
                    Some(c) => Ok(spec_execution_chain(c)),
                    None => Err(ConfigError::MissingExecutionChain { l2_chain_id: self.l2_chain_id }),
                },
            },
        }
    }

    /// The execution chain selector or genesis path that launches the execution layer.
    pub fn execution_chain_input(&self) -> (r: Result<String, ConfigError>)
        ensures
            match self.spec_execution_chain_input() {
                Ok(s) => r matches Ok(v) && v@ == s,
                Err(e) => r matches Err(x) && x == e,
            },
    {
        if let Some(chain) = &self.execution_chain {
            return Ok(chain.clone());
        }
        if let Some(path) = &self.execution.genesis_path {
            return Ok(path.clone());
        }
        match ResolvedChainConfig::infer_execution_chain(self.l2_chain_id) {
            Some(s) => Ok(s.to_owned()),
            None => Err(ConfigError::MissingExecutionChain { l2_chain_id: self.l2_chain_id }),
        }
    }

    /// The L1 slot duration override: the top-level one, else the consensus one.
    pub fn l1_slot_duration_override(&self) -> (r: Option<u64>)
        ensures
            r == match self.l1_slot_duration_override {
                Some(v) => Some(v),
                None => self.consensus.l1_slot_duration_override,
            },
    {
        match self.l1_slot_duration_override {
            Some(value) => Some(value),
            None => self.consensus.l1_slot_duration_override,
        }
    }

    /// The configured sequencer URL.
    pub fn sequencer_url(&self) -> (r: Option<&str>)
        ensures
            match self.execution.sequencer_url {
                Some(s) => r matches Some(v) && v@ == s@,
                None => r is None,
            },
    {
        match &self.execution.sequencer_url {
            Some(s) => Some(s.as_str()),
            None => None,
        }
    }

    /// The configured flashblocks websocket URL, parsed: `None` when none is set, else the
    /// serialization of the parsed URL, or an error when it does not parse.
    pub fn flashblocks_url(&self) -> (r: Result<Option<String>, ConfigError>)
        ensures
            match self.execution.flashblocks_url {
                None => r matches Ok(None),
                Some(raw) => match url_serialization(raw@) {
                    Some(u) => r matches Ok(Some(v)) && v@ == u,
                    None => r matches Err(ConfigError::InvalidFlashblocksUrl { raw: x }) && x@
                        == raw@,
                },
            },
    {
        match &self.execution.flashblocks_url {
            None => Ok(None),
            Some(raw) => {
                let parsed = parse_url(raw.as_str());
                let url = flashblocks_url_from(raw.as_str(), parsed)?;
                Ok(Some(url))
            },
        }
    }

    /// The execution chain selector of the built-in chain with this L2 chain ID.
    fn infer_execution_chain(l2_chain_id: u64) -> (r: Option<&'static str>)
        ensures
            match spec_chain_of_id(l2_chain_id) {
                Some(c) => r matches Some(s) && s@ == spec_execution_chain(c),
                None => r is None,
            },
    {
        match BuiltInChain::from_l2_chain_id(l2_chain_id) {
            Some(c) => Some(c.execution_chain()),
            None => None,
        }
    }
}

/// The config key that an environment override (its name after `BASE_CONFIG_`, lower-cased)
/// sets: `execution_chain` and `execution_genesis` stay top-level keys; another
/// `execution_` or `consensus_` name addresses the field of that table.
pub open spec fn spec_env_override_key(name: Seq<char>) -> Seq<char> {
    let exec = "execution_"@;
    let cons = "consensus_"@;
    if name == "execution_chain"@ || name == "execution_genesis"@ {
        name
    } else if exec.len() <= name.len() && name.subrange(0, exec.len() as int) == exec {
        "execution."@ + name.skip(exec.len() as int)
    } else if cons.len() <= name.len() && name.subrange(0, cons.len() as int) == cons {
        "consensus."@ + name.skip(cons.len() as int)
    } else {
        name
    }
}

/// Resolves a chain selection into a concrete config.
#[derive(Clone, Debug)]
pub struct ChainResolver {
    /// The requested chain.
    pub chain: ChainArg,
}

impl ChainResolver {
    /// A resolver of `chain`.
    pub fn new(chain: ChainArg) -> (r: ChainResolver)
        ensures
            r.chain == chain,
    {
        ChainResolver { chain }
    }

    /// The config key that the environment override `name` sets (see
    /// [`spec_env_override_key`]).
    pub fn env_override_key(name: &str) -> (r: String)
        ensures
            r@ == spec_env_override_key(name@),
    {
        if chars_eq(name, "execution_chain") || chars_eq(name, "execution_genesis") {
            return name.to_owned();
        }
        let exec = "execution_";
        if starts_with(name, exec) {
            let rest = name.substring_char(exec.unicode_len(), name.unicode_len());
            let mut key = String::from_str("execution.");
            key.append(rest);
            proof {
                assert(rest@ =~= name@.skip(exec@.len() as int));
            }
            return key;
        }
        let cons = "consensus_";
        if starts_with(name, cons) {
            let rest = name.substring_char(cons.unicode_len(), name.unicode_len());
            let mut key = String::from_str("consensus.");
            key.append(rest);
            proof {
                assert(rest@ =~= name@.skip(cons@.len() as int));
            }
            return key;
        }
        name.to_owned()
    }
}

/// `base` joined with the relative path `name`, as `Path::join` does on Unix: a separator is
/// added unless `base` is empty or already ends in one.
pub open spec fn joined(base: Seq<char>, name: Seq<char>) -> Seq<char> {
    if base.len() == 0 {
        name
    } else if base.last() == '/' {
        base + name
    } else {
        base + seq!['/'] + name
    }
}

/// `base` joined with the path `name`, as `Path::join` does on Unix: an absolute `name`
/// replaces `base`, a relative one is appended after a separator.
pub open spec fn path_join(base: Seq<char>, name: Seq<char>) -> Seq<char> {
    if name.len() > 0 && name[0] == '/' {
        name
    } else {
        joined(base, name)
    }
}

/// `base` joined with the path `name`.
fn join_path(base: &str, name: &str) -> (r: String)
    ensures
        r@ == path_join(base@, name@),
{
    let m = name.unicode_len();
    if m > 0 && name.get_char(0) == '/' {
        return name.to_owned();
    }
    let n = base.unicode_len();
    let mut p = base.to_owned();
    if n > 0 && base.get_char(n - 1) != '/' {
        p.append("/");
        proof {
            reveal_strlit("/");
        }
    }
    p.append(name);
    proof {
        if n > 0 {
            assert(base@.last() == base@[n - 1]);
        }
    }
    p
}

/// The datadir layout of the unified node.
#[derive(Clone, Debug)]
pub struct BaseDatadir {
    /// Root datadir path.
    pub path: String,
}

impl BaseDatadir {
    /// A datadir rooted at `path`.
    pub fn new(path: String) -> (r: BaseDatadir)
        ensures
            r.path@ == path@,
    {
        BaseDatadir { path }
    }

    /// The datadir of the chain `name` under the home directory `home`: `<home>/.base/<name>`,
    /// or an error when there is no home directory.
    pub fn under_home(home: Option<String>, name: &str) -> (r: Result<BaseDatadir, ConfigError>)
        ensures
            match home {
                None => r matches Err(ConfigError::MissingHomeDirectory),
                Some(h) => r matches Ok(d) && d.path@ == path_join(path_join(h@, ".base"@), name@),
            },
    {
        match home {
            None => Err(ConfigError::MissingHomeDirectory),
            Some(h) => {
                let base = join_path(h.as_str(), ".base");
                Ok(BaseDatadir::new(join_path(base.as_str(), name)))
            },
        }
    }

    /// The default datadir of the chain `name`: `.base/<name>` under the home directory of
    /// the user, or an error when the home directory cannot be found.
    pub fn default_for_chain(name: &str) -> (r: Result<BaseDatadir, ConfigError>)
        ensures
            r matches Ok(d) ==> exists|h: Seq<char>|
                d.path@ == path_join(path_join(h, ".base"@), name@),
            r matches Err(e) ==> e is MissingHomeDirectory,
    {
        let home = home_dir();
        let ghost hv = opt_view(home);
        let r = BaseDatadir::under_home(home, name);
        proof {
            if r is Ok {
                let h = hv->Some_0;
                assert(r->Ok_0.path@ == path_join(path_join(h, ".base"@), name@));
            }
        }
        r
    }

    /// The root joined with `name`.
    fn join(&self, name: &str) -> (r: String)
        ensures
            r@ == joined(self.path@, name@),
    {
        let base = self.path.as_str();
        let n = base.unicode_len();
        let mut p = self.path.clone();
        if n > 0 && base.get_char(n - 1) != '/' {
            p.append("/");
            proof {
                reveal_strlit("/");
            }
        }
        p.append(name);
        proof {
            if n > 0 {
                assert(base@.last() == base@[n - 1]);
            }
        }
        p
    }

    /// The MDBX database path, `<datadir>/db`.
    pub fn db_path(&self) -> (r: String)
        ensures
            r@ == joined(self.path@, "db"@),
    {
        self.join("db")
    }

    /// The materialized execution genesis path, `<datadir>/base-genesis.json`.
    pub fn execution_genesis_path(&self) -> (r: String)
        ensures
            r@ == joined(self.path@, "base-genesis.json"@),
    {
        self.join("base-genesis.json")
    }

    /// The persistent consensus peer key path, `<datadir>/base-p2p-key.txt`.
    pub fn p2p_key_path(&self) -> (r: String)
        ensures
            r@ == joined(self.path@, "base-p2p-key.txt"@),
    {
        self.join("base-p2p-key.txt")
    }

    /// The persistent safe head database path, `<datadir>/base-safedb.redb`.
    pub fn safedb_path(&self) -> (r: String)
        ensures
            r@ == joined(self.path@, "base-safedb.redb"@),
    {
        self.join("base-safedb.redb")
    }

    /// The execution-layer JWT secret path, `<datadir>/jwt.hex`.
    pub fn jwt_secret_path(&self) -> (r: String)
        ensures
            r@ == joined(self.path@, "jwt.hex"@),
    {
        self.join("jwt.hex")
    }
}


/// Parsing a built-in chain's canonical name gives back the chain.
pub proof fn lemma_parse_chain_name(chain: BuiltInChain)
    ensures
        spec_parse_chain(spec_chain_name(chain)) == Some(chain),
{
    reveal_strlit("mainnet");
    reveal_strlit("sepolia");
    reveal_strlit("zeronet");
    assert(lower_ascii("mainnet"@) =~= "mainnet"@);
    assert(lower_ascii("sepolia"@) =~= "sepolia"@);
    assert(lower_ascii("zeronet"@) =~= "zeronet"@);
    assert("sepolia"@[0] != "mainnet"@[0]);
    assert("zeronet"@[0] != "mainnet"@[0]);
    assert("zeronet"@[0] != "sepolia"@[0]);
}

/// A built-in chain's L2 chain ID infers its execution chain: a config without an explicit
/// execution chain or genesis path, on the mainnet, sepolia or zeronet chain ID, launches the
/// built-in execution chain.
pub proof fn lemma_known_chain_id_infers_execution_chain(cfg: &ResolvedChainConfig, chain: BuiltInChain)
    requires
        cfg.execution_chain is None,
        cfg.execution.genesis_path is None,
        spec_chain_of_id(cfg.l2_chain_id) == Some(chain),
    ensures
        cfg.spec_execution_chain_input() == Ok::<Seq<char>, ConfigError>(spec_execution_chain(chain)),
{
}

} // verus!
