//! Where Home Assistant is and the token it is accessed with.

use crate::text;
use vstd::prelude::*;

verus! {

/// What the config file says.
#[derive(Debug, PartialEq)]
pub struct FileConfig {
    pub url: Option<String>,
    pub token: Option<String>,
    pub token_command: Option<String>,
}

impl Default for FileConfig {
    fn default() -> (r: Self)
        ensures
            r.url is None,
            r.token is None,
            r.token_command is None,
    {
        FileConfig { url: None, token: None, token_command: None }
    }
}

#[derive(Debug, PartialEq)]
pub struct Config {
    /// Base URL of the Home Assistant instance, e.g. `http://homeassistant.local:8123`.
    pub url: String,
    pub token: String,
}

/// Where the token comes from.
#[derive(Debug, PartialEq)]
pub enum TokenSource {
    /// It is given.
    Given(String),
    /// It is what this command prints.
    Command(String),
}

/// Where the URL and the token come from.
#[derive(Debug, PartialEq)]
pub struct Sources {
    pub url: String,
    pub token: TokenSource,
}

/// What a [`TokenSource`] stands for.
pub enum TokenModel {
    Given(Seq<char>),
    Command(Seq<char>),
}

impl View for TokenSource {
    type V = TokenModel;

    open spec fn view(&self) -> TokenModel {
        match self {
            TokenSource::Given(t) => TokenModel::Given(t@),
            TokenSource::Command(c) => TokenModel::Command(c@),
        }
    }
}

/// The path of the config file, for a message.
pub open spec fn shown_path(path: Option<Seq<char>>) -> Seq<char> {
    match path {
        Some(p) => p,
        None => "the config file"@,
    }
}

/// The URL: the override, else the file's.
pub open spec fn chosen_url(url_override: Option<Seq<char>>, file: Option<Seq<char>>) -> Option<Seq<char>> {
    match url_override {
        Some(u) => Some(u),
        None => file,
    }
}

/// The token: the override, else the file's, else what the file's command prints.
pub open spec fn chosen_token(
    token_override: Option<Seq<char>>,
    token: Option<Seq<char>>,
    command: Option<Seq<char>>,
) -> Option<TokenModel> {
    match (token_override, token, command) {
        (Some(t), _, _) => Some(TokenModel::Given(t)),
        (None, Some(t), _) => Some(TokenModel::Given(t)),
        (None, None, Some(c)) => Some(TokenModel::Command(c)),
        (None, None, None) => None,
    }
}

/// The message where no URL is configured.
pub open spec fn no_url(path: Option<Seq<char>>) -> Seq<char> {
    "no Home Assistant URL configured; set HA_URL or `url` in "@ + shown_path(path)
}

/// The message where no token is configured.
pub open spec fn no_token(path: Option<Seq<char>>) -> Seq<char> {
    "no access token configured; set HA_TOKEN, or `token` / `token_command` in "@ + shown_path(path)
}

/// Resolve where the URL and the token come from (highest precedence first): CLI/env overrides, then
/// the config file.
pub fn resolve(path: Option<&str>, url_override: Option<String>, token_override: Option<String>, file: FileConfig) -> (r: Result<Sources, String>)
    ensures
        ({
            let url = chosen_url(url_override.deep_view(), file.url.deep_view());
            let token = chosen_token(token_override.deep_view(), file.token.deep_view(), file.token_command.deep_view());
            match r {
                Ok(s) => url == Some(s.url@) && token == Some(s.token@),
                Err(e) => if url is None {
                    e@ == no_url(path.deep_view())
                } else {
                    token is None && e@ == no_token(path.deep_view())
                },
            }
        }),
{
    let shown = match path {
        Some(p) => p,
        None => "the config file",
    };
    let url = match url_override {
        Some(u) => u,
        None => match file.url {
            Some(u) => u,
            None => return Err(text::cat2("no Home Assistant URL configured; set HA_URL or `url` in ", shown)),
        },
    };
    let token = match (token_override, file.token, file.token_command) {
        (Some(t), _, _) => TokenSource::Given(t),
        (None, Some(t), _) => TokenSource::Given(t),
        (None, None, Some(c)) => TokenSource::Command(c),
        (None, None, None) => return Err(
            text::cat2("no access token configured; set HA_TOKEN, or `token` / `token_command` in ", shown),
        ),
    };
    Ok(Sources { url, token })
}

/// What a command left behind.
#[derive(Debug, PartialEq)]
pub struct CommandOutput {
    pub success: bool,
    /// How it ended, for a message.
    pub status: String,
    pub stdout: String,
    pub stderr: String,
}

/// The message where a token command gave no token.
pub open spec fn no_command_token(cmd: Seq<char>, status: Seq<char>, stderr: Seq<char>) -> Seq<char> {
    "token_command `"@ + cmd + "` returned no token ("@ + status + (if stderr.len() == 0 {
        Seq::empty()
    } else {
        ": "@ + stderr
    })
        + ").\nIs the token stored? e.g. secret-tool store --label=\"homeassistant-tui Home Assistant token\" service homeassistant-tui"@
}

/// The token in what a command printed, where it succeeded and printed one.
pub open spec fn printed(success: bool, stdout: Seq<char>) -> Option<Seq<char>> {
    if success && text::trimmed(stdout).len() > 0 {
        Some(text::trimmed(stdout))
    } else {
        None
    }
}

/// The token that a token command printed.
pub fn command_token(cmd: &str, out: &CommandOutput) -> (r: Result<String, String>)
    ensures
        match r {
            Ok(t) => printed(out.success, out.stdout@) == Some(t@),
            Err(_) => printed(out.success, out.stdout@) is None,
        },
        ({
            let token = text::trimmed(out.stdout@);
            match r {
                Ok(t) => out.success && token.len() > 0 && t@ == token,
                Err(e) => (!out.success || token.len() == 0) && e@ == no_command_token(cmd@, out.status@, text::trimmed(out.stderr@)),
            }
        }),
{
    let token = text::trim(out.stdout.as_str());
    if out.success && !token.is_empty() {
        return Ok(token.to_owned());
    }
    let stderr = text::trim(out.stderr.as_str());
    let mut tail = String::new();
    if !stderr.is_empty() {
        tail = text::cat2(": ", stderr);
    } else {
        assert(tail@ =~= Seq::empty());
    }
    let head = text::cat5("token_command `", cmd, "` returned no token (", out.status.as_str(), tail.as_str());
    Err(
        text::cat2(
            head.as_str(),
            ").\nIs the token stored? e.g. secret-tool store --label=\"homeassistant-tui Home Assistant token\" service homeassistant-tui",
        ),
    )
}

/// Whether permissions give anything to anyone but the owner.
pub open spec fn exposed(mode: u32) -> bool {
    mode & 0o077 != 0
}

/// Whether a file with these permissions can be read by anyone but its owner.
pub fn world_readable(mode: u32) -> (r: bool)
    ensures
        r == exposed(mode),
        r == (mode & 0o077 != 0),
{
    mode & 0o077 != 0
}

/// A URL and a token without what does not belong to them.
pub open spec fn tidied(url: Seq<char>, token: Seq<char>) -> (Seq<char>, Seq<char>) {
    (text::trim_end_of(url, '/'), text::trimmed(token))
}

impl Config {
    /// The configuration with the given URL and token, without the slashes and the white space
    /// around them.
    pub fn load(url: &str, token: &str) -> (r: Self)
        ensures
            (r.url@, r.token@) == tidied(url@, token@),
            r.url@ == text::trim_end_of(url@, '/'),
            r.token@ == text::trimmed(token@),
    {
        Config { url: text::trim_end(url, '/').to_owned(), token: text::trim(token).to_owned() }
    }

    /// WebSocket endpoint derived from the base URL.
    pub fn ws_url(&self) -> (r: String)
        ensures
            r@ == endpoint(self.url@),
    {
        ws_url(self.url.as_str())
    }
}

/// A base URL with the scheme of a WebSocket.
pub open spec fn as_ws(base: Seq<char>) -> Seq<char> {
    if text::begins(base, "https://"@) {
        "wss://"@ + base.skip("https://"@.len() as int)
    } else if text::begins(base, "http://"@) {
        "ws://"@ + base.skip("http://"@.len() as int)
    } else if text::begins(base, "ws://"@) || text::begins(base, "wss://"@) {
        base
    } else {
        "ws://"@ + base
    }
}

/// The WebSocket endpoint of the Home Assistant at a base URL.
pub open spec fn endpoint(base: Seq<char>) -> Seq<char> {
    let rest = as_ws(text::trim_end_of(base, '/'));
    if text::ends(rest, "/api/websocket"@) {
        rest
    } else {
        rest + "/api/websocket"@
    }
}

pub fn ws_url(base: &str) -> (r: String)
    ensures
        r@ == endpoint(base@),
{
    let base = text::trim_end(base, '/');
    let rest = if let Some(r) = text::strip_prefix(base, "https://") {
        text::cat2("wss://", r)
    } else if let Some(r) = text::strip_prefix(base, "http://") {
        text::cat2("ws://", r)
    } else if text::starts_with(base, "ws://") || text::starts_with(base, "wss://") {
        base.to_owned()
    } else {
        text::cat2("ws://", base)
    };
    if text::ends_with(rest.as_str(), "/api/websocket") {
        rest
    } else {
        text::cat2(rest.as_str(), "/api/websocket")
    }
}

/// An endpoint is a WebSocket URL that ends in the API's path. It is a secure one exactly where the base
/// URL, without slashes at its end, is one or one over https.
pub proof fn law_endpoints(base: Seq<char>)
    ensures
        text::begins(endpoint(base), "ws://"@) || text::begins(endpoint(base), "wss://"@),
        text::ends(endpoint(base), "/api/websocket"@),
        text::begins(endpoint(base), "wss://"@) <==> text::begins(text::trim_end_of(base, '/'), "https://"@) || text::begins(
            text::trim_end_of(base, '/'),
            "wss://"@,
        ),
        text::begins(endpoint(base), "ws://"@) <==> !text::begins(endpoint(base), "wss://"@),
{
    let b = text::trim_end_of(base, '/');
    let rest = as_ws(b);
    let path = "/api/websocket"@;
    reveal_strlit("ws://");
    reveal_strlit("wss://");
    reveal_strlit("/api/websocket");
    assert(text::begins(rest, "ws://"@) || text::begins(rest, "wss://"@)) by {
        if text::begins(b, "https://"@) {
            let tail = b.skip("https://"@.len() as int);
            assert(("wss://"@ + tail).take(6) =~= "wss://"@);
        } else if text::begins(b, "http://"@) {
            let tail = b.skip("http://"@.len() as int);
            assert(("ws://"@ + tail).take(5) =~= "ws://"@);
        } else if !text::begins(b, "ws://"@) && !text::begins(b, "wss://"@) {
            assert(("ws://"@ + b).take(5) =~= "ws://"@);
        }
    }
    if text::begins(b, "https://"@) {
        let tail = b.skip("https://"@.len() as int);
        assert(("wss://"@ + tail).take(6) =~= "wss://"@);
    } else if text::begins(b, "http://"@) {
        let tail = b.skip("http://"@.len() as int);
        assert(("ws://"@ + tail).take(5) =~= "ws://"@);
        lemma_schemes(b);
    } else if !text::begins(b, "ws://"@) && !text::begins(b, "wss://"@) {
        assert(("ws://"@ + b).take(5) =~= "ws://"@);
    }
    if !text::ends(rest, path) {
        assert((rest + path).skip(rest.len() as int) =~= path);
        if text::begins(rest, "ws://"@) {
            assert((rest + path).take(5) =~= rest.take(5));
        }
        if text::begins(rest, "wss://"@) {
            assert((rest + path).take(6) =~= rest.take(6));
        }
    }
    lemma_schemes(rest);
    lemma_schemes(endpoint(base));
}

/// A text begins with one scheme at most.
proof fn lemma_schemes(s: Seq<char>)
    ensures
        !(text::begins(s, "ws://"@) && text::begins(s, "wss://"@)),
        !(text::begins(s, "http://"@) && text::begins(s, "wss://"@)),
{
    reveal_strlit("ws://");
    reveal_strlit("wss://");
    reveal_strlit("http://");
    if text::begins(s, "wss://"@) {
        assert(s.take(6)[0] == 'w' && s.take(6)[1] == 's' && s.take(6)[2] == 's');
        if text::begins(s, "ws://"@) {
            assert(s.take(5)[2] == ':');
        }
        if text::begins(s, "http://"@) {
            assert(s.take(7)[0] == 'h');
        }
    }
}

/// An endpoint is its own endpoint.
pub proof fn law_endpoints_are_fixed(base: Seq<char>)
    ensures
        endpoint(endpoint(base)) == endpoint(base),
{
    let r = endpoint(base);
    let path = "/api/websocket"@;
    law_endpoints(base);
    reveal_strlit("ws://");
    reveal_strlit("wss://");
    reveal_strlit("http://");
    reveal_strlit("https://");
    reveal_strlit("/api/websocket");
    assert(r.last() == path.last()) by {
        assert(r.skip(r.len() - path.len())[path.len() - 1] == path[path.len() - 1]);
    }
    assert(text::trim_end_of(r, '/') == r);
    assert(r[0] == 'w') by {
        if text::begins(r, "ws://"@) {
            assert(r.take(5)[0] == 'w');
        } else {
            assert(r.take(6)[0] == 'w');
        }
    }
    assert(!text::begins(r, "http://"@)) by {
        if text::begins(r, "http://"@) {
            assert(r.take(7)[0] == 'h');
        }
    }
    assert(!text::begins(r, "https://"@)) by {
        if text::begins(r, "https://"@) {
            assert(r.take(8)[0] == 'h');
        }
    }
}

/// What is given on the command line or by the environment counts before the file; of the file's token and its
/// command the token counts. Where nothing is given, nothing is chosen.
pub proof fn law_what_counts(given: Option<Seq<char>>, file: Option<Seq<char>>, command: Option<Seq<char>>)
    ensures
        given matches Some(g) ==> chosen_url(given, file) == Some(g) && chosen_token(given, file, command) == Some(TokenModel::Given(g)),
        given is None ==> chosen_url(given, file) == file,
        given is None && file is Some ==> chosen_token(given, file, command) == Some(TokenModel::Given(file->0)),
        given is None && file is None && command is Some ==> chosen_token(given, file, command) == Some(TokenModel::Command(command->0)),
        given is None && file is None && command is None ==> chosen_token(given, file, command) is None && chosen_url(given, file) is None,
{
}

/// What is missing is told, with where it could be given.
pub proof fn law_what_is_missing_is_told(path: Option<Seq<char>>)
    ensures
        ({
            let place = match path {
                Some(p) => p,
                None => "the config file"@,
            };
            &&& no_url(path) == "no Home Assistant URL configured; set HA_URL or `url` in "@ + place
            &&& no_token(path) == "no access token configured; set HA_TOKEN, or `token` / `token_command` in "@ + place
        }),
{
}

/// An endpoint is at the host that the base URL names: without schemes and the API's path, and the slashes at
/// its end, the two are the same.
pub proof fn law_endpoints_keep_the_host(host: Seq<char>)
    requires
        host.len() > 0,
        host.last() != '/',
        !text::ends(host, "/api/websocket"@),
        !text::ends("ws://"@ + host, "/api/websocket"@) && !text::ends("wss://"@ + host, "/api/websocket"@),
    ensures
        endpoint("http://"@ + host) == "ws://"@ + host + "/api/websocket"@,
        endpoint("https://"@ + host) == "wss://"@ + host + "/api/websocket"@,
        endpoint("ws://"@ + host) == "ws://"@ + host + "/api/websocket"@,
        endpoint("wss://"@ + host) == "wss://"@ + host + "/api/websocket"@,
{
    reveal_strlit("http://");
    reveal_strlit("https://");
    reveal_strlit("ws://");
    reveal_strlit("wss://");
    let a = "http://"@ + host;
    let b = "https://"@ + host;
    let c = "ws://"@ + host;
    let d = "wss://"@ + host;
    assert(a.last() == host.last() && b.last() == host.last() && c.last() == host.last() && d.last() == host.last());
    assert(a.take(7) =~= "http://"@ && a.skip(7) =~= host);
    assert(b.take(8) =~= "https://"@ && b.skip(8) =~= host);
    assert(c.take(5) =~= "ws://"@);
    assert(d.take(6) =~= "wss://"@);
    assert(!text::begins(a, "https://"@)) by {
        if text::begins(a, "https://"@) {
            assert(a.take(8)[4] == 's');
            assert(a[4] == ':');
        }
    }
    assert(!text::begins(c, "https://"@) && !text::begins(c, "http://"@)) by {
        assert(c[0] == 'w');
        if text::begins(c, "https://"@) {
            assert(c.take(8)[0] == 'h');
        }
        if text::begins(c, "http://"@) {
            assert(c.take(7)[0] == 'h');
        }
    }
    assert(!text::begins(d, "https://"@) && !text::begins(d, "http://"@)) by {
        assert(d[0] == 'w');
        if text::begins(d, "https://"@) {
            assert(d.take(8)[0] == 'h');
        }
        if text::begins(d, "http://"@) {
            assert(d.take(7)[0] == 'h');
        }
    }
}

/// A command that fails, or prints nothing but white space, prints no token; of any other the token is what it
/// prints, without the white space at its ends.
pub proof fn law_printed_tokens(success: bool, stdout: Seq<char>)
    ensures
        !success ==> printed(success, stdout) is None,
        printed(success, stdout) matches Some(t) ==> t.len() > 0 && !text::white(t[0]) && !text::white(t.last()) && exists|i: int, j: int|
            0 <= i <= j <= stdout.len() && #[trigger] stdout.subrange(i, j) == t && (forall|k: int| 0 <= k < i ==> text::white(#[trigger] stdout[k])) && (
            forall|k: int| j <= k < stdout.len() ==> text::white(#[trigger] stdout[k])),
        success && (exists|k: int| 0 <= k < stdout.len() && !text::white(#[trigger] stdout[k])) ==> printed(success, stdout) is Some,
{
    text::law_trimming(stdout);
    if exists|k: int| 0 <= k < stdout.len() && !text::white(#[trigger] stdout[k]) {
        let k = choose|k: int| 0 <= k < stdout.len() && !text::white(#[trigger] stdout[k]);
        let t = text::trimmed(stdout);
        let (i, j) = choose|i: int, j: int|
            0 <= i <= j <= stdout.len() && #[trigger] stdout.subrange(i, j) == t && (forall|k: int| 0 <= k < i ==> text::white(#[trigger] stdout[k])) && (
            forall|k: int| j <= k < stdout.len() ==> text::white(#[trigger] stdout[k]));
        assert(i <= k < j);
        assert(stdout.subrange(i, j).len() == j - i);
    }
}

/// A configuration keeps the URL but for the slashes at its end and the token but for white space at its ends.
pub proof fn law_configurations_are_tidy(url: Seq<char>, token: Seq<char>)
    ensures
        text::begins(url, tidied(url, token).0),
        tidied(url, token).0.len() > 0 ==> tidied(url, token).0.last() != '/',
        forall|k: int| tidied(url, token).0.len() <= k < url.len() ==> #[trigger] url[k] == '/',
        tidied(url, token).1.len() > 0 ==> !text::white(tidied(url, token).1[0]) && !text::white(tidied(url, token).1.last()),
{
    text::law_trimming_ends(url, '/');
    text::law_trimming(token);
}

/// Permissions are the owner's alone exactly where the six bits of the group and of the others are not set.
pub proof fn law_exposed_files(mode: u32)
    ensures
        exposed(mode) <==> mode % 64 != 0,
{
    assert(mode & 0o077 == mode % 64) by (bit_vector);
}

} // verus!
