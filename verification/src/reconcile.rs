//! The choice between the two sources of the read ids at startup: the remote
//! service first where it is asked for, the local session log otherwise and
//! whenever the service fails.

use crate::extract::{parse_read_ids, read_ids};
use crate::text::line_views;
use crate::game_data::StoryLog;
use crate::read_set::ReadIdSet;
use vstd::prelude::*;
use vstd::string::*;

verus! {

/// What the tracker is started with.
#[derive(Debug)]
pub struct Options {
    /// The directory in which the game keeps its session logs.
    pub gtfo_path: String,
    /// Whether to ask the remote service for the read ids first.
    pub use_playfab: bool,
}

impl Default for Options {
    fn default() -> (r: Options)
        ensures
            r.gtfo_path@ == Seq::<char>::empty(),
            r.use_playfab == false,
    {
        Options { gtfo_path: String::new(), use_playfab: false }
    }
}

/// What to do next to get the read ids.
pub enum NextSource {
    /// Ask the remote service.
    Remote,
    /// Read the session log; after a failure of the service, with the
    /// warning to log.
    Local(Option<String>),
    /// The read ids are known.
    Done(ReadIdSet),
}

/// The warning that tells of a failure of the service.
pub open spec fn fallback_warning(cause: Seq<char>) -> Seq<char> {
    "Unable to read log data from PlayFab: "@ + cause
        + ". Falling back to parsing log files."@
}

/// Decides where the read ids come from. `remote` holds what the service
/// answered, once it has been asked: the ids, or the cause of its failure.
/// Without the service, or after its failure, the session log is read; the
/// ids that the service gave are final.
pub fn next_source(use_playfab: bool, remote: Option<Result<Vec<u32>, String>>) -> (r: NextSource)
    ensures
        match (use_playfab, remote) {
            (false, _) => r matches NextSource::Local(None),
            (true, None) => r is Remote,
            (true, Some(Ok(ids))) => r matches NextSource::Done(set) && set.wf() && set@
                == ids@.to_set(),
            (true, Some(Err(cause))) => r matches NextSource::Local(Some(w)) && w@
                == fallback_warning(cause@),
        },
{
    if !use_playfab {
        return NextSource::Local(None);
    }
    match remote {
        None => NextSource::Remote,
        Some(Ok(ids)) => NextSource::Done(ReadIdSet::from_ids(&ids)),
        Some(Err(cause)) => {
            let w = String::from_str("Unable to read log data from PlayFab: ");
            let w = w.concat(cause.as_str());
            let w = w.concat(". Falling back to parsing log files.");
            NextSource::Local(Some(w))
        },
    }
}

/// The read ids that a session log holds, given line by line: the ids of
/// its summaries and, of each line, the id of its first display name, where
/// the catalog knows that name.
pub fn local_read_ids(lines: &Vec<String>, logs: &[StoryLog]) -> (r: ReadIdSet)
    ensures
        r.wf(),
        r@ == read_ids(line_views(lines@), logs@).to_set(),
{
    let ids = parse_read_ids(lines, logs);
    ReadIdSet::from_ids(&ids)
}

/// The index of the first argument that is exactly `word`.
pub open spec fn position_of(args: Seq<String>, word: Seq<char>, from: int) -> Option<int>
    decreases args.len() - from,
{
    if from < 0 || from >= args.len() {
        None
    } else if args[from]@ == word {
        Some(from)
    } else {
        position_of(args, word, from + 1)
    }
}

/// The data path that the arguments name: the argument behind the first
/// `--data-path`.
pub open spec fn data_path_of(args: Seq<String>) -> Option<Seq<char>> {
    match position_of(args, "--data-path"@, 0) {
        Some(i) => if i + 1 < args.len() {
            Some(args[i + 1]@)
        } else {
            None
        },
        None => None,
    }
}

fn find_arg(args: &Vec<String>, word: &str) -> (r: Option<usize>)
    ensures
        match r {
            Some(i) => position_of(args@, word@, 0) == Some(i as int) && i < args@.len(),
            None => position_of(args@, word@, 0) is None,
        },
{
    let key = String::from_str(word);
    let mut i: usize = 0;
    while i < args.len()
        invariant
            i <= args@.len(),
            key@ == word@,
            position_of(args@, word@, i as int) == position_of(args@, word@, 0),
        decreases args@.len() - i,
    {
        if args[i] == key {
            return Some(i);
        }
        i += 1;
    }
    None
}

/// Reads the data path that the arguments name, if they name one.
pub fn data_path_arg(args: &Vec<String>) -> (r: Option<String>)
    ensures
        match r {
            Some(p) => data_path_of(args@) == Some(p@),
            None => data_path_of(args@) is None,
        },
{
    match find_arg(args, "--data-path") {
        Some(i) => {
            let n = args.len();
            if i < n - 1 {
                Some(args[i + 1].clone())
            } else {
                None
            }
        },
        None => None,
    }
}

/// Reads the options from the arguments of the program. The data path is
/// the one that the arguments name, else `found_path`, the game's own data
/// directory where it was found; without either there are no options. The
/// remote service is asked where `--playfab` is among the arguments.
pub fn get_options(args: &Vec<String>, found_path: Option<String>) -> (r: Result<Options, String>)
    ensures
        match (data_path_of(args@), found_path) {
            (Some(p), _) => r is Ok && r->Ok_0.gtfo_path@ == p,
            (None, Some(p)) => r is Ok && r->Ok_0.gtfo_path@ == p@,
            (None, None) => r is Err && r->Err_0@ == "Couldn't get GTFO user data path"@,
        },
        r is Ok ==> r->Ok_0.use_playfab == (position_of(args@, "--playfab"@, 0) is Some),
{
    let use_playfab = find_arg(args, "--playfab").is_some();
    let path = match data_path_arg(args) {
        Some(p) => Some(p),
        None => found_path,
    };
    match path {
        Some(gtfo_path) => Ok(Options { gtfo_path, use_playfab }),
        None => Err(String::from_str("Couldn't get GTFO user data path")),
    }
}

} // verus!
