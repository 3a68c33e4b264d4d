//! First run: the files that the server needs and that are written with
//! built-in contents where they are missing.

use vstd::prelude::*;

verus! {

/// The directory of the stylesheets, which is created if it is not there.
pub const STYLESHEET_DIR: &'static str = "./static/css/";

/// Where the stylesheet of the control page lies.
pub const STYLESHEET_PATH: &'static str = "./static/css/main.css";

/// Where the configuration lies.
pub const CONFIG_PATH: &'static str = "./config.toml";

/// The stylesheet that a first run writes.
pub const DEFAULT_STYLESHEET: &'static str = "body {
    margin: 0;
    padding: 1rem;
    font-family: sans-serif;
    background: #1e1e1e;
    color: #f0f0f0;
}

h1 {
    margin: 0 0 1rem 0;
    font-size: 1.5rem;
    text-align: center;
}

.controls {
    display: flex;
    flex-direction: column;
    gap: 0.75rem;
}

button {
    padding: 1rem;
    font-size: 1.25rem;
    border: none;
    border-radius: 0.5rem;
    background: #3a6ea5;
    color: #ffffff;
}

button:active {
    background: #2b527b;
}
";

/// The configuration that a first run writes.
pub const DEFAULT_CONFIG: &'static str = "# The path segment under which the control page is served.
# Left out, a random one is generated at every start.
# session_id = \"living-room\"

# The port to listen on. Left out or 0, the system picks a free one.
# port = 8080

title = \"Remote control\"

[[action]]
display_name = \"Say hello\"
cmd = \"echo hello\"
";

/// A file to write: where, and what.
#[derive(Clone, Copy, Debug, PartialEq, Eq)]
pub struct DefaultFile {
    pub path: &'static str,
    pub contents: &'static str,
}

/// What a file to write is to the specifications: its path and its contents.
pub open spec fn default_file_view(file: DefaultFile) -> (Seq<char>, Seq<char>) {
    (file.path@, file.contents@)
}

/// The files that a start has to write, in the order in which it writes
/// them: the stylesheet if there is none, then the configuration if there is
/// none. A file that exists is left as it is.
pub open spec fn missing_defaults(stylesheet_exists: bool, config_exists: bool) -> Seq<
    (Seq<char>, Seq<char>),
> {
    let stylesheet = if stylesheet_exists {
        Seq::empty()
    } else {
        seq![(STYLESHEET_PATH@, DEFAULT_STYLESHEET@)]
    };
    let config = if config_exists {
        Seq::empty()
    } else {
        seq![(CONFIG_PATH@, DEFAULT_CONFIG@)]
    };
    stylesheet + config
}

/// Plans the first-run setup from what is already on disk.
pub fn setup(stylesheet_exists: bool, config_exists: bool) -> (files: Vec<DefaultFile>)
    ensures
        files@.map_values(|file: DefaultFile| default_file_view(file)) == missing_defaults(
            stylesheet_exists,
            config_exists,
        ),
{
    let mut files: Vec<DefaultFile> = Vec::new();
    if !stylesheet_exists {
        files.push(DefaultFile { path: STYLESHEET_PATH, contents: DEFAULT_STYLESHEET });
    }
    if !config_exists {
        files.push(DefaultFile { path: CONFIG_PATH, contents: DEFAULT_CONFIG });
    }
    assert(files@.map_values(|file: DefaultFile| default_file_view(file)) =~= missing_defaults(
        stylesheet_exists,
        config_exists,
    ));
    files
}

} // verus!
