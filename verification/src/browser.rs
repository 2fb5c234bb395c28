//! The browser-launch plan: which command each browser choice maps to
//! on each platform, and when a failed spawn falls back to the
//! system's default opener. The caller carries the plan out; every
//! choice of program, argument and fallback is decided here.

use vstd::prelude::*;

verus! {

use vstd::string::StringExecFns;

/// Which browser the user asked for.
#[derive(Copy, Clone, Debug, PartialEq, Eq)]
pub enum BrowserChoice {
    Default,
    Edge,
    Brave,
}

/// The desktop platform the process runs on.
#[derive(Copy, Clone, Debug, PartialEq, Eq)]
pub enum Platform {
    MacOs,
    Windows,
    Other,
}

/// How to open the served URL: ask the operating system's default
/// opener, or spawn the given program with the given arguments;
/// `fallback_to_default` says whether a spawn that reports failure is
/// followed by the default opener.
pub enum LaunchPlan {
    DefaultBrowser,
    Spawn { program: String, args: Vec<String>, fallback_to_default: bool },
}

/// Decides how to launch the chosen browser on the given platform
/// for the served URL.
pub fn launch_plan(choice: BrowserChoice, platform: Platform, url: &str) -> (p: LaunchPlan)
    ensures
        (choice is Default) ==> (p is DefaultBrowser),
        (choice is Edge && platform is MacOs) ==> (p matches LaunchPlan::Spawn {
            program,
            args,
            fallback_to_default,
        } && program@ == "open"@ && args@.len() == 3 && args@[0]@ == "-a"@ && args@[1]@
            == "Microsoft Edge"@ && args@[2]@ == url@ && !fallback_to_default),
        (choice is Edge && platform is Windows) ==> (p matches LaunchPlan::Spawn {
            program,
            args,
            fallback_to_default,
        } && program@ == "cmd"@ && args@.len() == 3 && args@[0]@ == "/C"@ && args@[1]@ == "start"@
            && args@[2]@ == "microsoft-edge:"@ + url@ && !fallback_to_default),
        (choice is Edge && platform is Other) ==> (p matches LaunchPlan::Spawn {
            program,
            args,
            fallback_to_default,
        } && program@ == "microsoft-edge"@ && args@.len() == 1 && args@[0]@ == url@
            && fallback_to_default),
        (choice is Brave && platform is MacOs) ==> (p matches LaunchPlan::Spawn {
            program,
            args,
            fallback_to_default,
        } && program@ == "open"@ && args@.len() == 3 && args@[0]@ == "-a"@ && args@[1]@
            == "Brave Browser"@ && args@[2]@ == url@ && !fallback_to_default),
        (choice is Brave && platform is Windows) ==> (p matches LaunchPlan::Spawn {
            program,
            args,
            fallback_to_default,
        } && program@ == "cmd"@ && args@.len() == 3 && args@[0]@ == "/C"@ && args@[1]@ == "start"@
            && args@[2]@ == url@ && !fallback_to_default),
        (choice is Brave && platform is Other) ==> (p matches LaunchPlan::Spawn {
            program,
            args,
            fallback_to_default,
        } && program@ == "brave-browser"@ && args@.len() == 1 && args@[0]@ == url@
            && fallback_to_default),
{
    match choice {
        BrowserChoice::Default => LaunchPlan::DefaultBrowser,
        BrowserChoice::Edge => match platform {
            Platform::MacOs => {
                let mut args: Vec<String> = Vec::new();
                args.push(String::from_str("-a"));
                args.push(String::from_str("Microsoft Edge"));
                args.push(url.to_owned());
                LaunchPlan::Spawn {
                    program: String::from_str("open"),
                    args,
                    fallback_to_default: false,
                }
            },
            Platform::Windows => {
                let mut args: Vec<String> = Vec::new();
                args.push(String::from_str("/C"));
                args.push(String::from_str("start"));
                args.push(String::from_str("microsoft-edge:").concat(url));
                LaunchPlan::Spawn {
                    program: String::from_str("cmd"),
                    args,
                    fallback_to_default: false,
                }
            },
            Platform::Other => {
                let mut args: Vec<String> = Vec::new();
                args.push(url.to_owned());
                LaunchPlan::Spawn {
                    program: String::from_str("microsoft-edge"),
                    args,
                    fallback_to_default: true,
                }
            },
        },
        BrowserChoice::Brave => match platform {
            Platform::MacOs => {
                let mut args: Vec<String> = Vec::new();
                args.push(String::from_str("-a"));
                args.push(String::from_str("Brave Browser"));
                args.push(url.to_owned());
                LaunchPlan::Spawn {
                    program: String::from_str("open"),
                    args,
                    fallback_to_default: false,
                }
            },
            Platform::Windows => {
                let mut args: Vec<String> = Vec::new();
                args.push(String::from_str("/C"));
                args.push(String::from_str("start"));
                args.push(url.to_owned());
                LaunchPlan::Spawn {
                    program: String::from_str("cmd"),
                    args,
                    fallback_to_default: false,
                }
            },
            Platform::Other => {
                let mut args: Vec<String> = Vec::new();
                args.push(url.to_owned());
                LaunchPlan::Spawn {
                    program: String::from_str("brave-browser"),
                    args,
                    fallback_to_default: true,
                }
            },
        },
    }
}

} // verus!
