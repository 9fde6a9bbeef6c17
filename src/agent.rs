//! The launch agent that keeps the presence command running in the background.
use vstd::prelude::*;
use vstd::string::StringExecFns;

verus! {

/// The launch agent's label.
pub const AGENT_ID: &'static str = "dev.ryanccn.am.discord";

/// The property list up to the executable's path.
pub const PLIST_HEAD: &'static str = "<?xml version=\"1.0\" encoding=\"UTF-8\"?>\n<!DOCTYPE plist PUBLIC \"-//Apple Computer//DTD PLIST 1.0//EN\" \"http://www.apple.com/DTDs/PropertyList-1.0.dtd\">\n<plist version=\"1.0\">\n<dict>\n\t<key>KeepAlive</key>\n\t<true/>\n\t<key>Label</key>\n\t<string>dev.ryanccn.am.discord</string>\n\t<key>ProgramArguments</key>\n\t<array>\n\t\t<string>";

/// Between the executable's path and the log file's path.
pub const PLIST_ARGS: &'static str = "</string>\n\t\t<string>discord</string>\n\t</array>\n\t<key>RunAtLoad</key>\n\t<true/>\n    <key>StandardOutPath</key>\n\t<string>";

/// Between the two mentions of the log file's path.
pub const PLIST_ERR: &'static str = "</string>\n\t<key>StandardErrorPath</key>\n\t<string>";

/// After the log file's path.
pub const PLIST_TAIL: &'static str = "</string>\n</dict>\n</plist>\n";

/// The launch agent's property list: run `executable discord` at login, keep
/// it alive, and send its output and errors to `log_file`.
pub open spec fn plist_text(executable: Seq<char>, log_file: Seq<char>) -> Seq<char> {
    PLIST_HEAD@ + executable + PLIST_ARGS@ + log_file + PLIST_ERR@ + log_file + PLIST_TAIL@
}

/// The launch agent's property list for `executable`, logging to `log_file`.
pub fn launch_agent_plist(executable: &str, log_file: &str) -> (r: String)
    ensures
        r@ == plist_text(executable@, log_file@),
{
    let mut s = String::from_str(PLIST_HEAD);
    s.append(executable);
    s.append(PLIST_ARGS);
    s.append(log_file);
    s.append(PLIST_ERR);
    s.append(log_file);
    s.append(PLIST_TAIL);
    s
}

} // verus!
