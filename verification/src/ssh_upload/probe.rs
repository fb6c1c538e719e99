//! Reading what a script on the remote host had to say.
use vstd::prelude::*;

use super::listing::{
    listed_dir, listed_entries, no_directory_text, parse_remote_directory_listing, sorted_entries,
    without_repeats, RemoteDirectoryListing,
};
use super::worker::{failure_text, non_empty_output};
use crate::text::{concat2, lines, texts, trim, trimmed};

verus! {

/// How a run of `ssh` went.
pub enum ScriptRun {
    /// It could not be started.
    Broken(String),
    Succeeded { stdout: String },
    Unsuccessful { stderr: String },
}

/// What the script printed, or why there is nothing.
pub open spec fn script_text(run: ScriptRun) -> Result<Seq<char>, Seq<char>> {
    match run {
        ScriptRun::Broken(error) => Err("failed to launch ssh probe: "@ + error@),
        ScriptRun::Succeeded { stdout } => Ok(stdout@),
        ScriptRun::Unsuccessful { stderr } => Err(failure_text(stderr@, "ssh probe failed"@)),
    }
}

pub fn ssh_script_output(run: ScriptRun) -> (output: Result<String, String>)
    ensures
        match (output, script_text(run)) {
            (Ok(text), Ok(printed)) => text@ == printed,
            (Err(error), Err(reason)) => error@ == reason,
            _ => false,
        },
{
    match run {
        ScriptRun::Broken(error) => Err(concat2("failed to launch ssh probe: ", error.as_str())),
        ScriptRun::Succeeded { stdout } => Ok(stdout),
        ScriptRun::Unsuccessful { stderr } => match non_empty_output(stderr.as_str()) {
            Some(text) => Err(text),
            None => Err("ssh probe failed".to_owned()),
        },
    }
}

/// The directory that the script found, without the space around it.
pub fn resolve_remote_directory(run: ScriptRun) -> (path: Result<String, String>)
    ensures
        match (path, script_text(run)) {
            (Ok(path), Ok(printed)) => path@ == trim(printed) && path@.len() > 0,
            (Err(error), Ok(printed)) => trim(printed).len() == 0 && error@
                == "remote directory probe returned an empty path"@,
            (Err(error), Err(reason)) => error@ == reason,
            _ => false,
        },
{
    let output = ssh_script_output(run)?;
    let resolved = trimmed(output.as_str());
    if resolved.as_str().is_empty() {
        return Err("remote directory probe returned an empty path".to_owned());
    }
    Ok(resolved)
}

/// The directories that the script listed, in order and without repeats.
pub fn list_remote_directories(run: ScriptRun) -> (listing: Result<RemoteDirectoryListing, String>)
    ensures
        match (listing, script_text(run)) {
            (Ok(found), Ok(printed)) => {
                &&& listed_dir(lines(printed)) == Some(found.current_dir@)
                &&& texts(found.entries@) == without_repeats(
                    sorted_entries(listed_entries(lines(printed))),
                )
            },
            (Err(error), Ok(printed)) => listed_dir(lines(printed)) is None && error@
                == no_directory_text(),
            (Err(error), Err(reason)) => error@ == reason,
            _ => false,
        },
{
    let output = ssh_script_output(run)?;
    parse_remote_directory_listing(output.as_str())
}

/// A script that succeeded says what it printed; one that did not says why, by
/// what it wrote to standard error where that is not blank.
pub proof fn law_scripts_say_what_they_printed(run: ScriptRun)
    ensures
        run matches ScriptRun::Succeeded { stdout } ==> script_text(run)
            == Ok::<Seq<char>, Seq<char>>(stdout@),
        run matches ScriptRun::Unsuccessful { stderr } ==> (script_text(run) matches Err(reason)
            && if trim(stderr@).len() > 0 {
            reason == trim(stderr@)
        } else {
            reason == "ssh probe failed"@
        }),
        run matches ScriptRun::Broken(error) ==> (script_text(run) matches Err(reason) && reason
            == "failed to launch ssh probe: "@ + error@),
{
}

} // verus!
