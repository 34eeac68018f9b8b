use vstd::prelude::*;
use crate::text::same_text;

verus! {

/// What a command line asks for.
pub enum CliCommand {
    /// No argument: start the interactive screen.
    Interactive,
    /// `swap`: exchange the workspaces of the two leftmost monitors.
    Swap,
    /// `list`: print the open windows.
    List,
    /// `close` or `fullscreen` without a window: print the usage of that word.
    TargetMissing(String),
    /// `close <window>`.
    Close(String),
    /// `fullscreen <window>`.
    Fullscreen(String),
    /// `move` without the `<window> to <display>` that it needs.
    MoveUsage,
    /// `move <window> to <display>`.
    Move { window: String, display: String },
    /// Any other first argument.
    Unknown,
}

/// Whether `c` is what the command line `args` (program name first) asks for.
pub open spec fn command_ok(args: Seq<Seq<char>>, c: CliCommand) -> bool {
    if args.len() <= 1 {
        c is Interactive
    } else if args[1] == "swap"@ {
        c is Swap
    } else if args[1] == "list"@ {
        c is List
    } else if args[1] == "close"@ || args[1] == "fullscreen"@ {
        if args.len() < 3 {
            c matches CliCommand::TargetMissing(w) && w@ == args[1]
        } else if args[1] == "close"@ {
            c matches CliCommand::Close(t) && t@ == args[2]
        } else {
            c matches CliCommand::Fullscreen(t) && t@ == args[2]
        }
    } else if args[1] == "move"@ {
        if args.len() < 5 || args[3] != "to"@ {
            c is MoveUsage
        } else {
            c matches CliCommand::Move { window, display } && window@ == args[2] && display@
                == args[4]
        }
    } else {
        c is Unknown
    }
}

/// Reads a command line, program name first.
pub fn parse_command(args: &Vec<String>) -> (c: CliCommand)
    ensures
        command_ok(args@.map_values(|a: String| a@), c),
{
    let ghost a = args@.map_values(|a: String| a@);
    if args.len() <= 1 {
        return CliCommand::Interactive;
    }
    let word = args[1].as_str();
    assert(a[1] == word@);
    if same_text(word, "swap") {
        CliCommand::Swap
    } else if same_text(word, "list") {
        CliCommand::List
    } else if same_text(word, "close") || same_text(word, "fullscreen") {
        if args.len() < 3 {
            CliCommand::TargetMissing(args[1].clone())
        } else {
            assert(a[2] == args@[2]@);
            if same_text(word, "close") {
                CliCommand::Close(args[2].clone())
            } else {
                CliCommand::Fullscreen(args[2].clone())
            }
        }
    } else if same_text(word, "move") {
        if args.len() < 5 {
            CliCommand::MoveUsage
        } else {
            assert(a[3] == args@[3]@);
            if !same_text(args[3].as_str(), "to") {
                CliCommand::MoveUsage
            } else {
                assert(a[2] == args@[2]@);
                assert(a[4] == args@[4]@);
                CliCommand::Move { window: args[2].clone(), display: args[4].clone() }
            }
        }
    } else {
        CliCommand::Unknown
    }
}


/// What each command word asks for, with the arguments it takes: `swap` and
/// `list` take none; `close` and `fullscreen` act on the window named by the
/// next argument (and only print their usage without one); `move` needs
/// `<window> to <display>`. Anything else is unknown, and a lone program name
/// starts the interactive screen.
pub proof fn lemma_command_words(args: Seq<Seq<char>>, c: CliCommand)
    requires
        command_ok(args, c),
    ensures
        args.len() <= 1 <==> c is Interactive,
        args.len() > 1 && args[1] == "swap"@ ==> c is Swap,
        args.len() > 1 && args[1] == "list"@ ==> c is List,
        args.len() > 2 && args[1] == "close"@ ==> (c matches CliCommand::Close(t) && t@ == args[2]),
        args.len() > 2 && args[1] == "fullscreen"@ ==> (c matches CliCommand::Fullscreen(t)
            && t@ == args[2]),
        args.len() == 2 && (args[1] == "close"@ || args[1] == "fullscreen"@) ==> (c matches CliCommand::TargetMissing(w) && w@ == args[1]),
        args.len() > 4 && args[1] == "move"@ && args[3] == "to"@ ==> (c matches CliCommand::Move {
            window,
            display,
        } && window@ == args[2] && display@ == args[4]),
        c is MoveUsage ==> args.len() > 1 && args[1] == "move"@ && (args.len() < 5 || args[3] != "to"@),
        c is Unknown ==> args.len() > 1 && args[1] != "swap"@ && args[1] != "list"@ && args[1]
            != "close"@ && args[1] != "fullscreen"@ && args[1] != "move"@,
        c is Swap ==> args[1] == "swap"@,
        c is List ==> args[1] == "list"@,
        c is Close ==> args[1] == "close"@,
        c is Fullscreen ==> args[1] == "fullscreen"@,
{
    reveal_strlit("swap");
    reveal_strlit("list");
    reveal_strlit("close");
    reveal_strlit("fullscreen");
    reveal_strlit("move");
    assert(("swap"@).len() == 4 && ("swap"@)[0] == 's');
    assert(("list"@).len() == 4 && ("list"@)[0] == 'l');
    assert(("close"@).len() == 5 && ("close"@)[0] == 'c');
    assert(("fullscreen"@).len() == 10);
    assert(("move"@).len() == 4 && ("move"@)[0] == 'm');
    if args.len() > 1 {
        let w = args[1];
        if w == "close"@ {
            assert(w != "fullscreen"@);
            assert(w != "swap"@);
            assert(w != "list"@);
        }
        if w == "list"@ {
            assert(w != "swap"@);
        }
        if w == "fullscreen"@ {
            assert(w != "swap"@ && w != "list"@ && w != "close"@);
        }
        if w == "move"@ {
            assert(w[0] != ("swap"@)[0]);
            assert(w != "swap"@ && w != "list"@ && w != "close"@ && w != "fullscreen"@);
        }
    }
}

} // verus!
