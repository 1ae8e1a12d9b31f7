use vstd::prelude::*;
use crate::paths::{home_dir, join_path, opt_view, path_join};
use crate::text::push_str_chars;

verus! {

broadcast use vstd::string::group_string_axioms;

/// The launchd label of the Sauron agent.
pub const PLIST_LABEL: &'static str = "com.sauron.agent";

/// The property list up to the label.
pub const PLIST_HEAD: &'static str = "<?xml version=\"1.0\" encoding=\"UTF-8\"?>\n<!DOCTYPE plist PUBLIC \"-//Apple//DTD PLIST 1.0//EN\" \"http://www.apple.com/DTDs/PropertyList-1.0.dtd\">\n<plist version=\"1.0\">\n<dict>\n    <key>Label</key>\n    <string>";

/// The property list between the label and the program.
pub const PLIST_PROGRAM: &'static str = "</string>\n    <key>ProgramArguments</key>\n    <array>\n        <string>";

/// The property list between the program and the standard output's
/// directory.
pub const PLIST_STDOUT: &'static str = "</string>\n        <string>start</string>\n    </array>\n    <key>RunAtLoad</key>\n    <true/>\n    <key>KeepAlive</key>\n    <true/>\n    <key>StandardOutPath</key>\n    <string>";

/// The property list between the standard output's directory and the
/// standard error's directory.
pub const PLIST_STDERR: &'static str = "/sauron.log</string>\n    <key>StandardErrorPath</key>\n    <string>";

/// The end of the property list.
pub const PLIST_TAIL: &'static str = "/sauron.err.log</string>\n</dict>\n</plist>";

/// The launchd property list that runs `binary_path start` at login and
/// keeps it alive, logging into `log_dir`.
pub open spec fn plist_text(binary_path: Seq<char>, log_dir: Seq<char>) -> Seq<char> {
    PLIST_HEAD@ + PLIST_LABEL@ + PLIST_PROGRAM@ + binary_path + PLIST_STDOUT@ + log_dir
        + PLIST_STDERR@ + log_dir + PLIST_TAIL@
}

/// Where the agent's property list goes under the home directory `home`
/// (the literal `~` when there is none).
pub open spec fn plist_path_of(home: Option<Seq<char>>) -> Seq<char> {
    path_join(
        path_join(
            match home {
                Some(h) => h,
                None => "~"@,
            },
            "Library/LaunchAgents"@,
        ),
        PLIST_LABEL@ + ".plist"@,
    )
}

/// The launchd property list for the program `binary_path`, logging into
/// `log_dir`.
pub fn plist_content(binary_path: &str, log_dir: &str) -> (r: String)
    ensures
        r@ == plist_text(binary_path@, log_dir@),
{
    let mut s = PLIST_HEAD.to_string();
    push_str_chars(&mut s, PLIST_LABEL);
    push_str_chars(&mut s, PLIST_PROGRAM);
    push_str_chars(&mut s, binary_path);
    push_str_chars(&mut s, PLIST_STDOUT);
    push_str_chars(&mut s, log_dir);
    push_str_chars(&mut s, PLIST_STDERR);
    push_str_chars(&mut s, log_dir);
    push_str_chars(&mut s, PLIST_TAIL);
    s
}

/// Where the agent's property list goes under the home directory `home`.
pub fn plist_path_from(home: Option<String>) -> (r: String)
    ensures
        r@ == plist_path_of(opt_view(home)),
{
    let base = match home {
        Some(h) => h,
        None => "~".to_string(),
    };
    let agents = join_path(base.as_str(), "Library/LaunchAgents");
    let mut name = PLIST_LABEL.to_string();
    push_str_chars(&mut name, ".plist");
    join_path(agents.as_str(), name.as_str())
}

/// Where the agent's property list goes: `Library/LaunchAgents` in the
/// user's home directory.
pub fn plist_path() -> (r: String)
    ensures
        exists|h: Option<Seq<char>>| r@ == #[trigger] plist_path_of(h),
{
    let home = home_dir();
    let ghost h = opt_view(home);
    let r = plist_path_from(home);
    assert(r@ == plist_path_of(h));
    r
}

} // verus!
