//! Request-line parsing and routing: one request line is reduced to a path,
//! the path and the child process's lifecycle phase pick an action, and the
//! fixed response frames are built here. Reading sockets and asset files is
//! the embedding program's job.
use vstd::prelude::*;

verus! {

use crate::shared_data::MinecraftServerState;
use crate::text::{find_char, find_sub, first_match_of, first_of, has_prefix, starts_with, str_eq};

/// What the dispatcher must do for one request, at the specification level.
pub enum SpecRoute {
    RootPage,
    Players,
    Console,
    SendCommand(Seq<char>),
    Shutdown,
    Restart,
    AcceptEula,
    Asset(Seq<char>),
}

/// What the dispatcher must do for one request: serve the configured root
/// asset, read the roster or the console, enqueue a command (the payload is
/// the query from its leading `?` on), run the shutdown or restart protocol,
/// accept the EULA, or look up a static asset by path.
pub enum RouteAction {
    RootPage,
    Players,
    Console,
    SendCommand(String),
    Shutdown,
    Restart,
    AcceptEula,
    Asset(String),
}

impl View for RouteAction {
    type V = SpecRoute;

    open spec fn view(&self) -> SpecRoute {
        match self {
            RouteAction::RootPage => SpecRoute::RootPage,
            RouteAction::Players => SpecRoute::Players,
            RouteAction::Console => SpecRoute::Console,
            RouteAction::SendCommand(q) => SpecRoute::SendCommand(q@),
            RouteAction::Shutdown => SpecRoute::Shutdown,
            RouteAction::Restart => SpecRoute::Restart,
            RouteAction::AcceptEula => SpecRoute::AcceptEula,
            RouteAction::Asset(p) => SpecRoute::Asset(p@),
        }
    }
}

/// The path carried by a request line: the substring from the first `/` up
/// to (one character before) the literal `HTTP`. A line without both tokens,
/// or without room between them, is not a request.
pub open spec fn spec_parse_request(line: Seq<char>) -> Option<Seq<char>> {
    match first_of(line, '/') {
        Some(start) => match first_match_of(line, "HTTP"@) {
            Some(h) => if h >= start + 1 {
                Some(line.subrange(start, h - 1))
            } else {
                None
            },
            None => None,
        },
        None => None,
    }
}

/// Extracts the request path from one request line, totally.
pub fn parse_request_line(line: &str) -> (r: Option<String>)
    ensures
        match r {
            Some(path) => spec_parse_request(line@) == Some(path@),
            None => spec_parse_request(line@) == None::<Seq<char>>,
        },
{
    match find_char(line, '/') {
        Some(start) => match find_sub(line, "HTTP") {
            Some(h) => {
                if h > start {
                    let path = line.substring_char(start, h - 1);
                    Some(String::from_str(path))
                } else {
                    None
                }
            },
            None => None,
        },
        None => None,
    }
}

/// The routing table, with the lifecycle overrides: in the `Eula` phase only
/// the accept and restart endpoints and the EULA assets are reachable and
/// every other path serves the EULA page; in the `Starting` phase everything
/// serves the starting page.
pub open spec fn spec_route(path: Seq<char>, state: MinecraftServerState) -> SpecRoute {
    if state == MinecraftServerState::Eula {
        if path == "/api/accept"@ {
            SpecRoute::AcceptEula
        } else if path == "/api/restart"@ {
            SpecRoute::Restart
        } else if path == "/eula.css"@ {
            SpecRoute::Asset("/eula.css"@)
        } else if path == "/eula.js"@ {
            SpecRoute::Asset("/eula.js"@)
        } else {
            SpecRoute::Asset("/eula.html"@)
        }
    } else if state == MinecraftServerState::Starting {
        SpecRoute::Asset("/starting.html"@)
    } else if path == "/"@ {
        SpecRoute::RootPage
    } else if path == "/api/players"@ {
        SpecRoute::Players
    } else if path == "/api/console"@ {
        SpecRoute::Console
    } else if path == "/api/shutdown"@ {
        SpecRoute::Shutdown
    } else if path == "/api/restart"@ {
        SpecRoute::Restart
    } else if starts_with(path, "/api/send?"@) {
        SpecRoute::SendCommand(path.skip(9))
    } else {
        SpecRoute::Asset(path)
    }
}

/// Routes one request path against the table in [`spec_route`].
pub fn route_request(path: &str, state: MinecraftServerState) -> (r: RouteAction)
    ensures
        r@ == spec_route(path@, state),
{
    match state {
        MinecraftServerState::Eula => {
            if str_eq(path, "/api/accept") {
                RouteAction::AcceptEula
            } else if str_eq(path, "/api/restart") {
                RouteAction::Restart
            } else if str_eq(path, "/eula.css") {
                RouteAction::Asset(String::from_str("/eula.css"))
            } else if str_eq(path, "/eula.js") {
                RouteAction::Asset(String::from_str("/eula.js"))
            } else {
                RouteAction::Asset(String::from_str("/eula.html"))
            }
        },
        MinecraftServerState::Starting => RouteAction::Asset(String::from_str("/starting.html")),
        _ => {
            if str_eq(path, "/") {
                RouteAction::RootPage
            } else if str_eq(path, "/api/players") {
                RouteAction::Players
            } else if str_eq(path, "/api/console") {
                RouteAction::Console
            } else if str_eq(path, "/api/shutdown") {
                RouteAction::Shutdown
            } else if str_eq(path, "/api/restart") {
                RouteAction::Restart
            } else if has_prefix(path, "/api/send?") {
                proof {
                    reveal_strlit("/api/send?");
                }
                let n = path.unicode_len();
                let query = path.substring_char(9, n);
                proof {
                    assert(query@ =~= path@.skip(9));
                }
                RouteAction::SendCommand(String::from_str(query))
            } else {
                RouteAction::Asset(String::from_str(path))
            }
        },
    }
}

/// The content type for a static asset, chosen by the extension that starts
/// at the path's first dot; anything unrecognized (or an extensionless path)
/// is plain text.
pub open spec fn spec_file_type(path: Seq<char>) -> Seq<char> {
    match first_of(path, '.') {
        Some(d) => {
            let ext = path.skip(d);
            if ext == ".html"@ {
                "text/html"@
            } else if ext == ".css"@ {
                "text/css"@
            } else if ext == ".js"@ {
                "text/javascript"@
            } else if ext == ".png"@ {
                "image/png"@
            } else if ext == ".jpg"@ || ext == ".jpeg"@ {
                "image/jpeg"@
            } else if ext == ".gif"@ {
                "image/gif"@
            } else if ext == ".ico"@ {
                "image/x-icon"@
            } else {
                "text/plain"@
            }
        },
        None => "text/plain"@,
    }
}

/// See [`spec_file_type`].
pub fn get_file_type(path: &str) -> (r: &'static str)
    ensures
        r@ == spec_file_type(path@),
{
    let n = path.unicode_len();
    match find_char(path, '.') {
        Some(d) => {
            let ext = path.substring_char(d, n);
            proof {
                assert(ext@ =~= path@.skip(d as int));
            }
            if str_eq(ext, ".html") {
                "text/html"
            } else if str_eq(ext, ".css") {
                "text/css"
            } else if str_eq(ext, ".js") {
                "text/javascript"
            } else if str_eq(ext, ".png") {
                "image/png"
            } else if str_eq(ext, ".jpg") || str_eq(ext, ".jpeg") {
                "image/jpeg"
            } else if str_eq(ext, ".gif") {
                "image/gif"
            } else if str_eq(ext, ".ico") {
                "image/x-icon"
            } else {
                "text/plain"
            }
        },
        None => "text/plain",
    }
}

/// The directory a static asset lives under, by the same extension rule.
pub open spec fn spec_file_folder(path: Seq<char>) -> Seq<char> {
    match first_of(path, '.') {
        Some(d) => {
            let ext = path.skip(d);
            if ext == ".html"@ {
                "html"@
            } else if ext == ".css"@ {
                "css"@
            } else if ext == ".js"@ {
                "javascript"@
            } else {
                "images"@
            }
        },
        None => "images"@,
    }
}

/// See [`spec_file_folder`].
pub fn get_file_folder(path: &str) -> (r: &'static str)
    ensures
        r@ == spec_file_folder(path@),
{
    let n = path.unicode_len();
    match find_char(path, '.') {
        Some(d) => {
            let ext = path.substring_char(d, n);
            proof {
                assert(ext@ =~= path@.skip(d as int));
            }
            if str_eq(ext, ".html") {
                "html"
            } else if str_eq(ext, ".css") {
                "css"
            } else if str_eq(ext, ".js") {
                "javascript"
            } else {
                "images"
            }
        },
        None => "images",
    }
}

/// The on-disk location of a static asset: the web root, the extension's
/// folder, and the path without its leading slash.
pub open spec fn spec_asset_disk_path(path: Seq<char>) -> Seq<char> {
    "../public/"@ + spec_file_folder(path) + "/"@ + (if path.len() >= 1 {
        path.skip(1)
    } else {
        path
    })
}

/// See [`spec_asset_disk_path`].
pub fn asset_disk_path(path: &str) -> (r: String)
    ensures
        r@ == spec_asset_disk_path(path@),
{
    let n = path.unicode_len();
    let mut out = String::from_str("../public/");
    out.append(get_file_folder(path));
    out.append("/");
    if n >= 1 {
        let rest = path.substring_char(1, n);
        proof {
            assert(rest@ =~= path@.skip(1));
        }
        out.append(rest);
    } else {
        out.append(path);
    }
    proof {
        assert(out@ =~= spec_asset_disk_path(path@));
    }
    out
}

/// The head of a successful asset response; the asset's bytes follow it.
pub fn asset_response_head(content_type: &str) -> (r: String)
    ensures
        r@ == "HTTP/1.1 200 OK\r\nConnection: Close\r\nContent-Type: "@ + content_type@
            + "\r\n\r\n"@,
{
    let mut out = String::from_str("HTTP/1.1 200 OK\r\nConnection: Close\r\nContent-Type: ");
    out.append(content_type);
    out.append("\r\n\r\n");
    out
}

/// The response for an unknown static path.
pub fn not_found_response() -> (r: String)
    ensures
        r@ == "HTTP/1.1 404 Not Found\r\nContent-Type: text/plain\r\nConnection: Close"@,
{
    String::from_str("HTTP/1.1 404 Not Found\r\nContent-Type: text/plain\r\nConnection: Close")
}

/// The acknowledgement for an accepted action (shutdown, restart, accept).
pub fn created_response() -> (r: String)
    ensures
        r@ == "HTTP/1.1 201 Created\r\nContent-Type: text/plain\r\nConnection: Close"@,
{
    String::from_str("HTTP/1.1 201 Created\r\nContent-Type: text/plain\r\nConnection: Close")
}

} // verus!
