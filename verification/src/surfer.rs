//! How the waveform viewer is started.
use crate::session::local_address;
use crate::session::local_address_text;
use crate::text::lines;
use vstd::prelude::*;

verus! {

/// The port on which the viewer takes commands.
pub const SURFER_PORT: u16 = 54321;

/// The program to start, the name of the file with its start-up commands, and what that
/// file holds.
pub fn surfer_files() -> (r: (&'static str, &'static str, &'static str))
    ensures
        r.0@ == "surfer"@,
        r.1@ == "surfer_commands.sucl"@,
        r.2@ == "wcp_server_start"@,
{
    ("surfer", "surfer_commands.sucl", "wcp_server_start")
}

/// The arguments to start the viewer with, on a waveform and a file of start-up commands.
/// `None` stands for a path that is no text.
pub fn surfer_arguments(wave_path: Option<String>, script_path: Option<String>) -> (r: Result<
    Vec<String>,
    &'static str,
>)
    ensures
        match (wave_path, script_path) {
            (None, _) => r matches Err(error) && error@ == "Invalid wave path"@,
            (Some(_), None) => r matches Err(error) && error@ == "Invalid script path"@,
            (Some(wave), Some(script)) => r matches Ok(arguments) && lines(arguments@) == seq![
                wave@,
                "--script"@,
                script@,
            ],
        },
{
    let wave = match wave_path {
        Some(path) => path,
        None => {
            return Err("Invalid wave path");
        },
    };
    let script = match script_path {
        Some(path) => path,
        None => {
            return Err("Invalid script path");
        },
    };
    let mut arguments: Vec<String> = Vec::new();
    arguments.push(wave);
    arguments.push("--script".to_string());
    arguments.push(script);
    assert(lines(arguments@) =~= seq![wave@, "--script"@, script@]);
    Ok(arguments)
}

/// The address at which the viewer takes commands.
pub fn surfer_address() -> (r: String)
    ensures
        r@ == local_address_text(54321),
{
    local_address(SURFER_PORT)
}

} // verus!
