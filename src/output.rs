//! Where the build lines go, whether writing there is allowed, and the text
//! that is written.
use vstd::prelude::*;
use crate::expand::ExpandedPath;
use crate::synth::{ExtMap, MasterTarget, synthesize, lines_of, paths_of, ext_map_view, master_view};

verus! {

/// The destination of the build lines. For a file, whether it already
/// exists and whether appending or overwriting were asked for.
pub enum Destination {
    Stdout,
    File { path: String, exists: bool, append: bool, force: bool },
}

/// How the destination is to be written.
#[derive(Clone, Copy, PartialEq, Eq, Structural, Debug)]
pub enum WriteMode {
    Stdout,
    Create,
    Append,
    Overwrite,
}

/// Writing is refused.
pub enum OutputError {
    /// The destination file exists and neither appending nor overwriting
    /// was asked for.
    OutputExists { path: String },
}

/// The write mode for a destination, or `None` where writing is refused.
/// Overwriting takes precedence over appending.
pub open spec fn mode_of(dest: Destination) -> Option<WriteMode> {
    match dest {
        Destination::Stdout => Some(WriteMode::Stdout),
        Destination::File { path, exists, append, force } => if !exists {
            Some(WriteMode::Create)
        } else if force {
            Some(WriteMode::Overwrite)
        } else if append {
            Some(WriteMode::Append)
        } else {
            None
        },
    }
}

pub open spec fn dest_path(dest: Destination) -> Seq<char> {
    match dest {
        Destination::Stdout => Seq::empty(),
        Destination::File { path, .. } => path@,
    }
}

/// Every line followed by a newline.
pub open spec fn rendered(lines: Seq<Seq<char>>) -> Seq<char>
    decreases lines.len(),
{
    if lines.len() == 0 {
        Seq::empty()
    } else {
        rendered(lines.drop_last()) + lines.last() + "\n"@
    }
}

/// Decides how the destination may be written, before anything is produced.
pub fn check_output(dest: &Destination) -> (r: Result<WriteMode, OutputError>)
    ensures
        match mode_of(*dest) {
            Some(m) => r == Ok::<WriteMode, OutputError>(m),
            None => r matches Err(OutputError::OutputExists { path }) && path@ == dest_path(*dest),
        },
{
    match dest {
        Destination::Stdout => Ok(WriteMode::Stdout),
        Destination::File { path, exists, append, force } => {
            if !*exists {
                Ok(WriteMode::Create)
            } else if *force {
                Ok(WriteMode::Overwrite)
            } else if *append {
                Ok(WriteMode::Append)
            } else {
                Err(OutputError::OutputExists { path: path.clone() })
            }
        },
    }
}

/// The text of the lines, each ended by a newline.
pub fn render(lines: &Vec<String>) -> (r: String)
    ensures
        r@ == rendered(lines@.map_values(|s: String| s@)),
{
    let ghost all = lines@.map_values(|s: String| s@);
    let mut text = String::new();
    let mut i: usize = 0;
    while i < lines.len()
        invariant
            i <= lines.len(),
            all == lines@.map_values(|s: String| s@),
            text@ == rendered(all.take(i as int)),
        decreases lines.len() - i,
    {
        assert(all.take(i + 1).drop_last() =~= all.take(i as int));
        text.append(lines[i].as_str());
        text.append("\n");
        i = i + 1;
    }
    assert(all.take(lines.len() as int) =~= all);
    text
}

/// The write mode and the text of the build file for `files`. Whether the
/// destination may be written is decided first: where it may not, nothing
/// is generated.
pub fn generate(
    dest: &Destination,
    files: &Vec<ExpandedPath>,
    rules: &ExtMap,
    master: &Option<MasterTarget>,
) -> (r: Result<(WriteMode, String), OutputError>)
    ensures
        match mode_of(*dest) {
            Some(m) => r matches Ok((m2, text)) && m2 == m && text@ == rendered(
                lines_of(paths_of(files@), ext_map_view(rules@), master_view(*master)),
            ),
            None => r matches Err(OutputError::OutputExists { path }) && path@ == dest_path(*dest),
        },
{
    match check_output(dest) {
        Err(e) => Err(e),
        Ok(mode) => {
            let lines = synthesize(files, rules, master);
            Ok((mode, render(&lines)))
        },
    }
}

/// The synthesis depends on its inputs alone: two runs on the same files,
/// map and master target give the same text, byte for byte.
pub proof fn lemma_synthesis_repeatable(
    paths: Seq<Seq<char>>,
    rules: Seq<(Option<Seq<char>>, Option<Seq<char>>)>,
    master: Option<(Seq<char>, Seq<char>)>,
    first: Seq<Seq<char>>,
    second: Seq<Seq<char>>,
)
    requires
        first == lines_of(paths, rules, master),
        second == lines_of(paths, rules, master),
    ensures
        rendered(first) == rendered(second),
{
}

} // verus!
