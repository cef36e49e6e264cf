//! Names shared by the programs of the workspace.
use vstd::prelude::*;

verus! {

/// The programs of the workspace: the client, the daemon and the MCP
/// server.
pub const BINARIES: [&'static str; 3] = ["rarag", "raragd", "rarag-mcp"];

/// The daemon's socket file name.
pub fn default_socket_name() -> (r: &'static str)
    ensures
        r@ == "raragd.sock"@,
{
    "raragd.sock"
}

/// The MCP server's socket file name, the companion of the daemon's.
pub fn default_mcp_socket_name() -> (r: &'static str)
    ensures
        r@ == "raragd-mcp.sock"@,
{
    "raragd-mcp.sock"
}

} // verus!
