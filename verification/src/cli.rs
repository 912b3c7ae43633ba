use vstd::prelude::*;

use crate::post::entity::PostId;

verus! {

/// The command-line surface: one subcommand per task. Argument parsing
/// itself is the binary's concern; these types only carry what was parsed.
#[derive(Debug)]
pub struct Cli {
    pub command: Commands,
}

/// The subcommands: run the server, initialize a project directory, create
/// a post, or delete one. Absent options fall back to defaults downstream.
#[derive(Debug)]
pub enum Commands {
    Run {
        host: Option<String>,
        port: Option<u16>,
        static_path: Option<String>,
        database_url: Option<String>,
    },
    Init {
        static_path: Option<String>,
        database_path: Option<String>,
    },
    Create {
        id: Option<PostId>,
        password: Option<String>,
    },
    Delete {
        id: PostId,
    },
}

} // verus!
