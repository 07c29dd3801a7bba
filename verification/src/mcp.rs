//! The Model Context Protocol: servers' configurations, the client of a
//! server, and the adapter that offers a server's tools to an agent.
use crate::error::{HarnessError, ToolError};
use crate::models::base::opt_view;
use crate::sandbox::tools::ToolSchema;
use crate::strmap::StrMap;
use crate::text::{concat2, concat3, decimal, fmt_u64, join, join_strings, owned, str_eq, views};
use vstd::prelude::*;

verus! {

/// How a server is reached.
#[derive(Debug, Clone, Copy, PartialEq, Eq, Structural)]
pub enum McpServerType {
    /// A process, over standard input and output.
    Stdio,
    /// Server-sent events.
    Sse,
    /// Plain HTTP.
    Http,
}

/// OAuth settings of a server.
#[derive(Debug)]
pub struct McpOAuthConfig {
    /// The token endpoint.
    pub token_endpoint: String,
    /// The client's id.
    pub client_id: String,
    /// The client's secret.
    pub client_secret: String,
    /// The grant type.
    pub grant_type: String,
    /// A refresh token.
    pub refresh_token: Option<String>,
}

/// The configuration of a server.
#[derive(Debug)]
pub struct McpClientConfig {
    /// The server's name.
    pub name: String,
    /// How it is reached.
    pub server_type: McpServerType,
    /// The command that starts it.
    pub command: Option<String>,
    /// The command's arguments.
    pub args: Option<Vec<String>>,
    /// The command's environment.
    pub env: Option<StrMap<String>>,
    /// The server's URL.
    pub url: Option<String>,
    /// Headers of requests.
    pub headers: Option<StrMap<String>>,
    /// OAuth settings.
    pub oauth: Option<McpOAuthConfig>,
}

/// A tool a server offers.
#[derive(Debug)]
pub struct McpToolDefinition {
    /// Its name.
    pub name: String,
    /// What it does.
    pub description: String,
    /// Its input's JSON schema, as text.
    pub input_schema: String,
    /// The server.
    pub server_name: String,
}

impl Clone for McpToolDefinition {
    fn clone(&self) -> (r: Self)
        ensures
            r.name@ == self.name@,
            r.description@ == self.description@,
            r.input_schema@ == self.input_schema@,
            r.server_name@ == self.server_name@,
    {
        McpToolDefinition {
            name: self.name.clone(),
            description: self.description.clone(),
            input_schema: self.input_schema.clone(),
            server_name: self.server_name.clone(),
        }
    }
}

/// A piece of a tool's result.
#[derive(Debug)]
pub enum McpContent {
    /// Text.
    Text {
        /// The text.
        text: String,
    },
    /// An image.
    Image {
        /// Its base64 data.
        data: String,
        /// Its MIME type.
        mime_type: String,
    },
    /// A resource.
    Resource {
        /// Its URI.
        uri: String,
        /// Its MIME type.
        mime_type: Option<String>,
        /// Its text, if textual.
        text: Option<String>,
        /// Its binary data, if not.
        blob: Option<String>,
    },
}

/// A tool's result.
#[derive(Debug)]
pub struct McpToolResult {
    /// Its pieces.
    pub content: Vec<McpContent>,
    /// Whether the tool failed.
    pub is_error: bool,
}

/// The client of a server.
#[derive(Debug)]
pub struct McpClient {
    config: McpClientConfig,
    tools: Vec<McpToolDefinition>,
    oauth_token: Option<String>,
}

/// Whether a server offers a tool of that name.
pub open spec fn offers(tools: Seq<McpToolDefinition>, name: Seq<char>) -> bool {
    exists|i: int| 0 <= i < tools.len() && tools[i].name@ == name
}

/// What calling a tool of the server gives: the message of the error,
/// since no transport is implemented.
pub open spec fn call_error(t: McpServerType) -> Seq<char> {
    match t {
        McpServerType::Stdio => "Stdio MCP not yet implemented"@,
        McpServerType::Sse => "SSE MCP not yet implemented"@,
        McpServerType::Http => "HTTP MCP not yet implemented"@,
    }
}

impl McpClient {
    /// The tools known of the server.
    pub closed spec fn known_tools(&self) -> Seq<McpToolDefinition> {
        self.tools@
    }

    /// The token got by OAuth.
    pub closed spec fn token(&self) -> Option<Seq<char>> {
        opt_view(self.oauth_token)
    }

    /// The configuration.
    pub closed spec fn configuration(&self) -> McpClientConfig {
        self.config
    }

    /// A client of the configured server, knowing no tool yet.
    pub fn new(config: McpClientConfig) -> (c: Self)
        ensures
            c.configuration() == config,
            c.known_tools().len() == 0,
            c.token() is None,
    {
        McpClient { config, tools: Vec::new(), oauth_token: None }
    }

    /// The configuration.
    pub fn config(&self) -> (r: &McpClientConfig)
        ensures
            *r == self.configuration(),
    {
        &self.config
    }

    /// The tools known of the server, copied.
    pub fn list_tools(&self) -> (r: Result<Vec<McpToolDefinition>, HarnessError>)
        ensures
            r matches Ok(v) && v@.len() == self.known_tools().len() && forall|i: int|
                0 <= i < v@.len() ==> (#[trigger] v@[i]).name@ == self.known_tools()[i].name@
                    && v@[i].description@ == self.known_tools()[i].description@
                    && v@[i].input_schema@ == self.known_tools()[i].input_schema@
                    && v@[i].server_name@ == self.known_tools()[i].server_name@,
    {
        let mut v: Vec<McpToolDefinition> = Vec::new();
        let mut i: usize = 0;
        while i < self.tools.len()
            invariant
                i <= self.tools@.len(),
                v@.len() == i,
                forall|k: int|
                    0 <= k < i ==> (#[trigger] v@[k]).name@ == self.tools@[k].name@
                        && v@[k].description@ == self.tools@[k].description@
                        && v@[k].input_schema@ == self.tools@[k].input_schema@
                        && v@[k].server_name@ == self.tools@[k].server_name@,
            decreases self.tools.len() - i,
        {
            v.push(self.tools[i].clone());
            i += 1;
        }
        Ok(v)
    }

    /// Calls a tool of the server.  It fails with `MCP tool not found:
    /// <name>` for a tool the server does not offer, and otherwise with
    /// the message that no transport to the server is implemented.
    pub fn call_tool(&self, tool_name: &str, arguments: &str) -> (r: Result<
        McpToolResult,
        HarnessError,
    >)
        ensures
            !offers(self.known_tools(), tool_name@) ==> (r matches Err(e) && e matches HarnessError::Other(m)
                && m@ == "MCP tool not found: "@ + tool_name@),
            offers(self.known_tools(), tool_name@) ==> (r matches Err(e) && e matches HarnessError::Other(m)
                && m@ == call_error(self.configuration().server_type)),
    {
        let mut i: usize = 0;
        while i < self.tools.len() && !str_eq(self.tools[i].name.as_str(), tool_name)
            invariant
                i <= self.tools@.len(),
                forall|k: int| 0 <= k < i ==> self.tools@[k].name@ != tool_name@,
            decreases self.tools.len() - i,
        {
            i += 1;
        }
        if i == self.tools.len() {
            return Err(HarnessError::Other(concat2("MCP tool not found: ", tool_name)));
        }
        match self.config.server_type {
            McpServerType::Stdio => Err(HarnessError::Other(owned("Stdio MCP not yet implemented"))),
            McpServerType::Sse => Err(HarnessError::Other(owned("SSE MCP not yet implemented"))),
            McpServerType::Http => Err(HarnessError::Other(owned("HTTP MCP not yet implemented"))),
        }
    }

    /// Refreshes the OAuth token: fails with `No OAuth configuration
    /// found` without OAuth settings, else keeps a placeholder token.
    pub fn refresh_token(&mut self) -> (r: Result<(), HarnessError>)
        ensures
            final(self).configuration() == old(self).configuration(),
            final(self).known_tools() == old(self).known_tools(),
            old(self).configuration().oauth is None ==> (r matches Err(e) && e matches HarnessError::Other(m)
                && m@ == "No OAuth configuration found"@ && final(self).token() == old(self).token()),
            old(self).configuration().oauth is Some ==> r is Ok && final(self).token() == Some(
                "placeholder_token"@,
            ),
    {
        if self.config.oauth.is_none() {
            return Err(HarnessError::Other(owned("No OAuth configuration found")));
        }
        self.oauth_token = Some(owned("placeholder_token"));
        Ok(())
    }
}

/// What a tool gives back: its text, and whether it is an error.
#[derive(Debug)]
pub struct ToolOutput {
    /// The text.
    pub content: String,
    /// Whether it reports an error.
    pub is_error: bool,
}

/// The text of a piece of a result.
pub open spec fn piece_text(c: McpContent) -> Seq<char> {
    match c {
        McpContent::Text { text } => text@,
        McpContent::Image { data, .. } => "[Image: "@ + decimal(
            vstd::utf8::encode_utf8(data@).len() as usize as nat,
        ) + " bytes]"@,
        McpContent::Resource { uri, text, blob, .. } => match text {
            Some(t) => t@,
            None => match blob {
                Some(b) => "[Binary resource: "@ + decimal(
                    vstd::utf8::encode_utf8(b@).len() as usize as nat,
                ) + " bytes]"@,
                None => uri@,
            },
        },
    }
}

/// The texts of the text pieces, in order.
pub open spec fn text_pieces(cs: Seq<McpContent>) -> Seq<Seq<char>>
    decreases cs.len(),
{
    if cs.len() == 0 {
        Seq::empty()
    } else {
        match cs.last() {
            McpContent::Text { text } => text_pieces(cs.drop_last()).push(text@),
            _ => text_pieces(cs.drop_last()),
        }
    }
}

/// A server's tool, offered to an agent.
#[derive(Debug)]
pub struct McpToolAdapter {
    /// The tool's definition.
    pub definition: McpToolDefinition,
    /// Its description for the model.
    pub schema: ToolSchema,
}

impl McpToolAdapter {
    /// The adapter of a tool: its schema has the tool's name,
    /// description and input schema, in group `mcp:<server>`.
    pub fn new(definition: McpToolDefinition) -> (a: Self)
        ensures
            a.schema.name@ == definition.name@,
            a.schema.description@ == definition.description@,
            a.schema.parameters@ == definition.input_schema@,
            a.schema.group matches Some(g) && g@ == "mcp:"@ + definition.server_name@,
            a.definition == definition,
    {
        let schema = ToolSchema {
            name: definition.name.clone(),
            description: definition.description.clone(),
            parameters: definition.input_schema.clone(),
            group: Some(concat2("mcp:", definition.server_name.as_str())),
        };
        McpToolAdapter { definition, schema }
    }

    /// An adapter for each tool known of the server, in order.
    pub fn from_client(client: &McpClient) -> (r: Result<Vec<McpToolAdapter>, HarnessError>)
        ensures
            r matches Ok(v) && v@.len() == client.known_tools().len() && forall|i: int|
                0 <= i < v@.len() ==> (#[trigger] v@[i]).definition.name@ == client.known_tools()[i].name@,
    {
        let tools = match client.list_tools() {
            Ok(t) => t,
            Err(e) => {
                return Err(e);
            },
        };
        let mut v: Vec<McpToolAdapter> = Vec::new();
        let mut i: usize = 0;
        while i < tools.len()
            invariant
                i <= tools@.len(),
                tools@.len() == client.known_tools().len(),
                forall|k: int| 0 <= k < tools@.len() ==> (#[trigger] tools@[k]).name@ == client.known_tools()[k].name@,
                v@.len() == i,
                forall|k: int| 0 <= k < i ==> (#[trigger] v@[k]).definition.name@ == tools@[k].name@,
            decreases tools.len() - i,
        {
            v.push(McpToolAdapter::new(tools[i].clone()));
            i += 1;
        }
        Ok(v)
    }

    /// The output of a result: for an error, its text pieces joined by
    /// newlines, as an error; else each piece as text (an image and a
    /// binary resource by their size) joined by newlines.
    pub fn render(result: &McpToolResult) -> (r: ToolOutput)
        ensures
            r.is_error == result.is_error,
            result.is_error ==> r.content@ == join(text_pieces(result.content@), "\n"@),
            !result.is_error ==> r.content@ == join(
                result.content@.map_values(|c: McpContent| piece_text(c)),
                "\n"@,
            ),
    {
        let mut parts: Vec<String> = Vec::new();
        let mut i: usize = 0;
        while i < result.content.len()
            invariant
                i <= result.content@.len(),
                result.is_error ==> views(parts@) == text_pieces(result.content@.take(i as int)),
                !result.is_error ==> views(parts@) == result.content@.take(i as int).map_values(
                    |c: McpContent| piece_text(c),
                ),
            decreases result.content.len() - i,
        {
            assert(result.content@.take(i + 1).drop_last() == result.content@.take(i as int));
            assert(result.content@.take(i + 1).last() == result.content@[i as int]);
            let ghost before = views(parts@);
            let c = &result.content[i];
            if result.is_error {
                match c {
                    McpContent::Text { text } => {
                        parts.push(text.clone());
                        assert(views(parts@) =~= before.push(text@));
                    },
                    _ => {},
                }
            } else {
                let t = match c {
                    McpContent::Text { text } => text.clone(),
                    McpContent::Image { data, .. } => {
                        let n = fmt_u64(data.as_str().len() as u64);
                        concat3("[Image: ", n.as_str(), " bytes]")
                    },
                    McpContent::Resource { uri, text, blob, .. } => match text {
                        Some(t) => t.clone(),
                        None => match blob {
                            Some(b) => {
                                let n = fmt_u64(b.as_str().len() as u64);
                                concat3("[Binary resource: ", n.as_str(), " bytes]")
                            },
                            None => uri.clone(),
                        },
                    },
                };
                assert(t@ == piece_text(*c));
                parts.push(t);
                assert(views(parts@) =~= before.push(piece_text(*c)));
                assert(result.content@.take(i + 1).map_values(|c: McpContent| piece_text(c))
                    =~= result.content@.take(i as int).map_values(|c: McpContent| piece_text(c)).push(
                    piece_text(*c),
                ));
            }
            i += 1;
        }
        assert(result.content@.take(result.content@.len() as int) == result.content@);
        let content = join_strings(&parts, "\n");
        ToolOutput { content, is_error: result.is_error }
    }

    /// Calls the tool through the client and renders its result; a
    /// failed call fails with `MCP tool call failed: <error>`.  Since the
    /// client reaches no server, every call fails: with `MCP tool not
    /// found` for a tool the server does not offer, else with the
    /// transport's message.
    pub fn execute(&self, client: &McpClient, arguments: &str) -> (r: Result<ToolOutput, ToolError>)
        ensures
            r matches Err(e) && e matches ToolError::ExecutionFailed(m) && m@ == "MCP tool call failed: "@
                + (if offers(client.known_tools(), self.definition.name@) {
                call_error(client.configuration().server_type)
            } else {
                "MCP tool not found: "@ + self.definition.name@
            }),
    {
        match client.call_tool(self.definition.name.as_str(), arguments) {
            Ok(result) => Ok(Self::render(&result)),
            Err(e) => {
                let detail = e.to_string();
                let m = concat2("MCP tool call failed: ", detail.as_str());
                Err(ToolError::ExecutionFailed(m))
            },
        }
    }
}

} // verus!
