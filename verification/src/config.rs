//! What the driver is configured with, and what a run is asked for.

use vstd::prelude::*;

use crate::json::Json;
use crate::text;

verus! {

/// The whole configuration.
#[derive(Debug)]
pub struct DriverConfig {
    pub server: ServerConfig,
    pub mcp_servers: Vec<McpServerConfig>,
    pub models: Vec<ModelConfig>,
}

/// Where the driver listens and where it keeps its state.
#[derive(Debug, Clone, PartialEq, Eq)]
pub struct ServerConfig {
    pub http_port: u16,
    pub log_dir: String,
}

/// How a server of tools is started. The environment is a list of names and values.
#[derive(Debug, Clone, PartialEq, Eq)]
pub struct McpServerConfig {
    pub name: String,
    pub command: String,
    pub args: Vec<String>,
    pub env: Vec<(String, String)>,
}

/// A model, where it is reached and how it is asked. The temperature is a JSON number.
#[derive(Debug)]
pub struct ModelConfig {
    pub name: String,
    pub base_url: String,
    pub model_id: String,
    pub api_key_env: Option<String>,
    pub strip_thinking_tags: bool,
    pub system_prompt_strategy: String,
    pub max_tokens: u32,
    pub temperature: Json,
    pub mcp_servers: Vec<String>,
    pub tool_filter: Vec<String>,
    pub tool_call_parser: Option<String>,
    pub reasoning_parser: Option<String>,
    pub auto_tool_choice: bool,
    pub system_prompt_files: Vec<String>,
}

/// What a run is asked for.
#[derive(Debug, Clone, PartialEq, Eq)]
pub struct RunRequest {
    pub name: Option<String>,
    pub model: String,
    pub mcp_servers: Option<Vec<String>>,
    pub system_prompt: Option<String>,
    pub user_prompt: String,
    pub max_iterations: u32,
    pub tool_filter: Option<Vec<String>>,
}

/// How long answers of tools are made short by another model, and which.
#[derive(Debug, Clone, PartialEq, Eq)]
pub struct RerankerConfig {
    pub enabled: bool,
    pub base_url: String,
    pub model_id: String,
    pub min_tool_result_bytes: usize,
    pub max_summary_tokens: u32,
}

impl Default for ServerConfig {
    /// The port and the directory that hold where none is configured.
    fn default() -> (r: Self)
        ensures
            r.http_port == 8009,
            r.log_dir@ == "/opt/cpc/state"@,
    {
        ServerConfig { http_port: default_http_port(), log_dir: default_log_dir() }
    }
}

/// The port that holds where none is configured.
pub fn default_http_port() -> (r: u16)
    ensures
        r == 8009,
{
    8009
}

/// The state directory that holds where none is configured.
pub fn default_log_dir() -> (r: String)
    ensures
        r@ == "/opt/cpc/state"@,
{
    text::copy("/opt/cpc/state")
}

/// Where the system prompt goes, where nothing is configured.
pub fn default_system_prompt_strategy() -> (r: String)
    ensures
        r@ == "system_role"@,
{
    text::copy("system_role")
}

/// How many tokens an answer may take, where nothing is configured.
pub fn default_max_tokens() -> (r: u32)
    ensures
        r == 4096,
{
    4096
}

/// Whether the model chooses tools itself, where nothing is configured.
pub fn default_auto_tool_choice() -> (r: bool)
    ensures
        r,
{
    true
}

/// How many iterations a run may take, where the request does not say.
pub fn default_max_iterations() -> (r: u32)
    ensures
        r == 30,
{
    30
}

/// The position of the first name that is `name`; the number of names, where none is.
pub open spec fn name_at(names: Seq<Seq<char>>, name: Seq<char>) -> nat
    decreases names.len(),
{
    if names.len() == 0 || names[0] == name {
        0
    } else {
        1 + name_at(names.drop_first(), name)
    }
}

/// The position of the first name is the one with no such name in front of it.
pub proof fn lemma_name_at(names: Seq<Seq<char>>, name: Seq<char>, i: int)
    requires
        0 <= i <= names.len(),
        i < names.len() ==> names[i] == name,
        forall|j: int| 0 <= j < i ==> names[j] != name,
    ensures
        name_at(names, name) == i,
    decreases names.len(),
{
    if i > 0 {
        assert forall|j: int| 0 <= j < i - 1 implies names.drop_first()[j] != name by {
            assert(names.drop_first()[j] == names[j + 1]);
        }
        lemma_name_at(names.drop_first(), name, i - 1);
    }
}

impl DriverConfig {
    /// The names of the models.
    pub open spec fn model_names(&self) -> Seq<Seq<char>> {
        Seq::new(self.models@.len(), |i: int| self.models@[i].name@)
    }

    /// The names of the servers.
    pub open spec fn server_names(&self) -> Seq<Seq<char>> {
        Seq::new(self.mcp_servers@.len(), |i: int| self.mcp_servers@[i].name@)
    }

    /// The first model with a name.
    pub fn find_model(&self, name: &str) -> (r: Result<&ModelConfig, String>)
        ensures
            match r {
                Ok(m) => {
                    &&& name_at(self.model_names(), name@) < self.models@.len()
                    &&& *m == self.models@[name_at(self.model_names(), name@) as int]
                    &&& m.name@ == name@
                },
                Err(e) => {
                    &&& name_at(self.model_names(), name@) == self.models@.len()
                    &&& e@ == "model '"@ + name@ + "' not found in config"@
                },
            },
    {
        let mut i: usize = 0;
        while i < self.models.len()
            invariant
                i <= self.models@.len(),
                forall|j: int| 0 <= j < i ==> (#[trigger] self.model_names()[j]) != name@,
            decreases self.models@.len() - i,
        {
            if text::str_eq(self.models[i].name.as_str(), name) {
                proof {
                    lemma_name_at(self.model_names(), name@, i as int);
                }
                return Ok(&self.models[i]);
            }
            i += 1;
        }
        proof {
            lemma_name_at(self.model_names(), name@, i as int);
        }
        Err(text::cat3("model '", name, "' not found in config"))
    }

    /// The first server with a name.
    pub fn find_server(&self, name: &str) -> (r: Result<&McpServerConfig, String>)
        ensures
            match r {
                Ok(s) => {
                    &&& name_at(self.server_names(), name@) < self.mcp_servers@.len()
                    &&& *s == self.mcp_servers@[name_at(self.server_names(), name@) as int]
                    &&& s.name@ == name@
                },
                Err(e) => {
                    &&& name_at(self.server_names(), name@) == self.mcp_servers@.len()
                    &&& e@ == "mcp_server '"@ + name@ + "' not found in config"@
                },
            },
    {
        let mut i: usize = 0;
        while i < self.mcp_servers.len()
            invariant
                i <= self.mcp_servers@.len(),
                forall|j: int| 0 <= j < i ==> (#[trigger] self.server_names()[j]) != name@,
            decreases self.mcp_servers@.len() - i,
        {
            if text::str_eq(self.mcp_servers[i].name.as_str(), name) {
                proof {
                    lemma_name_at(self.server_names(), name@, i as int);
                }
                return Ok(&self.mcp_servers[i]);
            }
            i += 1;
        }
        proof {
            lemma_name_at(self.server_names(), name@, i as int);
        }
        Err(text::cat3("mcp_server '", name, "' not found in config"))
    }
}

/// The place of a name is the first at which it stands; where it stands nowhere, it is behind the
/// last.
pub proof fn law_first_of_a_name_is_found(
    names: Seq<Seq<char>>,
    name: Seq<char>,
)
    ensures
        name_at(names, name) <= names.len(),
        name_at(names, name) < names.len() ==> names[name_at(names, name) as int] == name,
        forall|i: int| 0 <= i < name_at(names, name) ==> #[trigger] names[i] != name,
    decreases names.len(),
{
    if names.len() > 0 && names[0] != name {
        let rest = names.drop_first();
        law_first_of_a_name_is_found(rest, name);
        assert forall|i: int| 0 <= i < name_at(names, name) implies #[trigger] names[i] != name by {
            if i > 0 {
                assert(rest[i - 1] == names[i]);
            }
        }
    }
}

} // verus!
