//! The command-line options of the application window.
use vstd::prelude::*;

use crate::definition::{chars_of, parse_u32, spec_parse_u32};

verus! {

/// The window's size, in pixels, and title.
#[derive(Debug)]
pub struct LaunchArguments {
    pub w: u32,
    pub h: u32,
    pub title: String,
}

/// The size a `-w` or `-h` option gives: its number, or 200 when it is not one.
pub open spec fn size_or_default(v: Seq<char>) -> u32 {
    match spec_parse_u32(v) {
        Some(n) => n,
        None => 200,
    }
}

/// The options read from `args[i..]`, starting from `acc`: `-w` and `-h` take a
/// size, `-t` a title, each from the argument after it; anything else is skipped,
/// as is an option with nothing after it.
pub open spec fn spec_launch(args: Seq<Seq<char>>, i: int, acc: (u32, u32, Seq<char>)) -> (u32, u32, Seq<char>)
    decreases args.len() - i,
{
    if i < 0 || i >= args.len() {
        acc
    } else if i + 1 < args.len() && args[i] == "-w"@ {
        spec_launch(args, i + 2, (size_or_default(args[i + 1]), acc.1, acc.2))
    } else if i + 1 < args.len() && args[i] == "-h"@ {
        spec_launch(args, i + 2, (acc.0, size_or_default(args[i + 1]), acc.2))
    } else if i + 1 < args.len() && args[i] == "-t"@ {
        spec_launch(args, i + 2, (acc.0, acc.1, args[i + 1]))
    } else {
        spec_launch(args, i + 1, acc)
    }
}

pub open spec fn arg_views(args: Seq<String>) -> Seq<Seq<char>> {
    args.map_values(|a: String| a@)
}

fn size_of_arg(arg: &String) -> (r: u32)
    ensures
        r == size_or_default(arg@),
{
    let t = chars_of(arg.as_str());
    match parse_u32(&t, 0, t.len()) {
        Some(n) => {
            assert(t@.subrange(0, t@.len() as int) =~= arg@);
            n
        },
        None => {
            assert(t@.subrange(0, t@.len() as int) =~= arg@);
            200
        },
    }
}

impl LaunchArguments {
    pub open spec fn spec_default() -> (u32, u32, Seq<char>) {
        (150, 150, "Desktop Gremlin!"@)
    }

    pub fn default_arguments() -> (r: LaunchArguments)
        ensures
            (r.w, r.h, r.title@) == LaunchArguments::spec_default(),
    {
        LaunchArguments { w: 150, h: 150, title: "Desktop Gremlin!".to_owned() }
    }

    /// Reads the options from the program's arguments.
    pub fn parse_from_args(args: Vec<String>) -> (r: LaunchArguments)
        ensures
            (r.w, r.h, r.title@) == spec_launch(arg_views(args@), 0, LaunchArguments::spec_default()),
    {
        let mut out = LaunchArguments::default_arguments();
        let ghost views = arg_views(args@);
        let flag_w = "-w".to_owned();
        let flag_h = "-h".to_owned();
        let flag_t = "-t".to_owned();
        let mut i: usize = 0;
        while i < args.len()
            invariant
                i <= args@.len(),
                views == arg_views(args@),
                flag_w@ == "-w"@,
                flag_h@ == "-h"@,
                flag_t@ == "-t"@,
                spec_launch(views, i as int, (out.w, out.h, out.title@)) == spec_launch(
                    views,
                    0,
                    LaunchArguments::spec_default(),
                ),
            decreases args.len() - i,
        {
            assert(views[i as int] == args@[i as int]@);
            if i + 1 < args.len() && args[i] == flag_w {
                assert(views[i + 1] == args@[i + 1]@);
                out.w = size_of_arg(&args[i + 1]);
                i = i + 2;
            } else if i + 1 < args.len() && args[i] == flag_h {
                assert(views[i + 1] == args@[i + 1]@);
                out.h = size_of_arg(&args[i + 1]);
                i = i + 2;
            } else if i + 1 < args.len() && args[i] == flag_t {
                assert(views[i + 1] == args@[i + 1]@);
                out.title = args[i + 1].clone();
                i = i + 2;
            } else {
                i = i + 1;
            }
        }
        out
    }
}

} // verus!
