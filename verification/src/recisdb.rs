//! The capture-process invocation: which program a session spawns and
//! with which arguments. Spawning itself, and draining the process's
//! output, happen outside this library; the command built here is the
//! whole interface to the external capture program.

use vstd::prelude::*;

verus! {

/// A fully determined external invocation: the program and its
/// positional arguments, in order.
pub struct LaunchCommand {
    pub program: String,
    pub args: Vec<String>,
}

/// Builds the capture invocation for one session. Direct tuning invokes
/// the capture program with the device path and channel id, asking for
/// unstripped raw output on standard output; the transcoding mode
/// invokes the external pipeline script with device path and channel id.
pub fn build_launch_command(driver: &String, channel: &String, is_encoding: bool) -> (c:
    LaunchCommand)
    ensures
        is_encoding ==> {
            &&& c.program@ == "./ffmpeg_pipe.sh"@
            &&& c.args.deep_view() == seq![driver@, channel@]
        },
        !is_encoding ==> {
            &&& c.program@ == "recisdb"@
            &&& c.args.deep_view() == seq![
                "tune"@,
                "--device"@,
                driver@,
                "--no-strip"@,
                "--channel"@,
                channel@,
                "-"@,
            ]
        },
{
    if is_encoding {
        let mut args: Vec<String> = Vec::new();
        args.push(driver.clone());
        args.push(channel.clone());
        proof {
            assert(args.deep_view() =~= seq![driver@, channel@]);
        }
        LaunchCommand { program: "./ffmpeg_pipe.sh".to_owned(), args }
    } else {
        let mut args: Vec<String> = Vec::new();
        args.push("tune".to_owned());
        args.push("--device".to_owned());
        args.push(driver.clone());
        args.push("--no-strip".to_owned());
        args.push("--channel".to_owned());
        args.push(channel.clone());
        args.push("-".to_owned());
        proof {
            assert(args.deep_view() =~= seq![
                "tune"@,
                "--device"@,
                driver@,
                "--no-strip"@,
                "--channel"@,
                channel@,
                "-"@,
            ]);
        }
        LaunchCommand { program: "recisdb".to_owned(), args }
    }
}

} // verus!
