//! The settings of a run: where results are stored, the two JSON-RPC endpoints with their
//! latency budgets, and the API keys.

use vstd::prelude::*;

verus! {

/// Database url and the directory in which downloaded files are created.
#[derive(Debug, Clone, PartialEq, Eq)]
pub struct Storage {
    pub db_url: String,
    pub file_path: String,
}

/// The two JSON-RPC endpoints. Each has a latency budget in milliseconds: the spacing that
/// the endpoint expects between two requests, 1000 divided by its rate limit per second.
#[derive(Debug, Clone, PartialEq, Eq)]
pub struct JsonRpc {
    pub url_1: String,
    pub url_2: String,
    pub latency_1: u32,
    pub latency_2: u32,
}

/// The API key of the block explorer of the chain.
#[derive(Debug, Clone, PartialEq, Eq)]
pub struct Scan {
    pub key: String,
}

/// The API key of the vulnerability scanner.
#[derive(Debug, Clone, PartialEq, Eq)]
pub struct MythX {
    pub key: String,
}

/// The settings as the settings file holds them.
#[derive(Debug, Clone, PartialEq, Eq)]
pub struct Settings {
    pub storage: Storage,
    pub jsonrpc: JsonRpc,
    pub scan: Scan,
    pub mythx: MythX,
}

/// Which of the two endpoints a request goes to.
#[derive(Debug, Clone, Copy, PartialEq, Eq, Structural)]
pub enum Endpoint {
    Primary,
    Secondary,
}

/// What the contracts say of a pair of endpoints.
pub struct JsonRpcView {
    pub url_1: Seq<char>,
    pub url_2: Seq<char>,
    pub latency_1: nat,
    pub latency_2: nat,
}

impl JsonRpcView {
    /// The url of one of the two endpoints.
    pub open spec fn url(self, endpoint: Endpoint) -> Seq<char> {
        match endpoint {
            Endpoint::Primary => self.url_1,
            Endpoint::Secondary => self.url_2,
        }
    }

    /// The latency budget of one of the two endpoints, in milliseconds.
    pub open spec fn latency(self, endpoint: Endpoint) -> nat {
        match endpoint {
            Endpoint::Primary => self.latency_1,
            Endpoint::Secondary => self.latency_2,
        }
    }
}

impl View for JsonRpc {
    type V = JsonRpcView;

    open spec fn view(&self) -> JsonRpcView {
        JsonRpcView {
            url_1: self.url_1@,
            url_2: self.url_2@,
            latency_1: self.latency_1 as nat,
            latency_2: self.latency_2 as nat,
        }
    }
}

impl JsonRpc {
    /// The url of one of the two endpoints.
    pub fn url(&self, endpoint: Endpoint) -> (url: &String)
        ensures
            url@ == self@.url(endpoint),
    {
        match endpoint {
            Endpoint::Primary => &self.url_1,
            Endpoint::Secondary => &self.url_2,
        }
    }

    /// The latency budget of one of the two endpoints, in milliseconds.
    pub fn latency(&self, endpoint: Endpoint) -> (latency: u32)
        ensures
            latency == self@.latency(endpoint),
    {
        match endpoint {
            Endpoint::Primary => self.latency_1,
            Endpoint::Secondary => self.latency_2,
        }
    }
}

impl Settings {
    /// Whether every text of the settings is empty and both latency budgets are zero.
    pub open spec fn is_blank(&self) -> bool {
        &&& self.storage.db_url@.len() == 0
        &&& self.storage.file_path@.len() == 0
        &&& self.jsonrpc.url_1@.len() == 0
        &&& self.jsonrpc.url_2@.len() == 0
        &&& self.jsonrpc.latency_1 == 0
        &&& self.jsonrpc.latency_2 == 0
        &&& self.scan.key@.len() == 0
        &&& self.mythx.key@.len() == 0
    }

    /// Settings in which nothing is filled in yet.
    pub fn default() -> (settings: Settings)
        ensures
            settings.is_blank(),
    {
        Settings {
            storage: Storage { db_url: String::new(), file_path: String::new() },
            jsonrpc: JsonRpc {
                url_1: String::new(),
                url_2: String::new(),
                latency_1: 0,
                latency_2: 0,
            },
            scan: Scan { key: String::new() },
            mythx: MythX { key: String::new() },
        }
    }
}

/// Whether `text` begins with `prefix`.
pub fn starts_with(text: &str, prefix: &str) -> (b: bool)
    ensures
        b == prefix@.is_prefix_of(text@),
{
    let text_len = text.unicode_len();
    let prefix_len = prefix.unicode_len();
    if prefix_len > text_len {
        return false;
    }
    let mut i: usize = 0;
    while i < prefix_len
        invariant
            i <= prefix_len <= text_len,
            prefix_len == prefix@.len(),
            text_len == text@.len(),
            forall|j: int| 0 <= j < i ==> prefix@[j] == text@[j],
        decreases prefix_len - i,
    {
        if text.get_char(i) != prefix.get_char(i) {
            return false;
        }
        i = i + 1;
    }
    true
}

/// Whether `url` is written as a web address that the wizard accepts.
pub open spec fn is_valid_url(url: Seq<char>) -> bool {
    "https://"@.is_prefix_of(url) || "http://"@.is_prefix_of(url)
}

/// Whether `url` starts with `https://` or `http://`.
pub fn valid_url(url: &str) -> (valid: bool)
    ensures
        valid == is_valid_url(url@),
{
    starts_with(url, "https://") || starts_with(url, "http://")
}

/// Whether `left` and `right` are the same text.
pub fn same_text(left: &str, right: &str) -> (same: bool)
    ensures
        same == (left@ == right@),
{
    let same = left.unicode_len() == right.unicode_len() && starts_with(left, right);
    proof {
        if same {
            assert(left@ =~= right@);
        }
    }
    same
}

/// The name, before its extension, of the settings file of `chain`: one for `eth` and one
/// for `bsc`. No other chain has a settings file of its own.
pub open spec fn conf_name_of(chain: Seq<char>) -> Option<Seq<char>> {
    if chain == "eth"@ {
        Some(".ethconf"@)
    } else if chain == "bsc"@ {
        Some(".bscconf"@)
    } else {
        None
    }
}

/// The name, before its extension, of the settings file of `chain`.
pub fn conf_name(chain: &str) -> (name: Option<&'static str>)
    ensures
        match name {
            Some(name) => conf_name_of(chain@) == Some(name@),
            None => conf_name_of(chain@).is_none(),
        },
{
    if same_text(chain, "eth") {
        Some(".ethconf")
    } else if same_text(chain, "bsc") {
        Some(".bscconf")
    } else {
        None
    }
}

} // verus!
