//! Building the container command line that performs the extraction.
//!
//! The restore runs in an ephemeral container: the target volume is mounted
//! at `/mybackup`, the archive's parent directory at `/backup`, and the
//! decompression command runs against the archive's file name under
//! `/backup`, stripping one leading path component.

use vstd::prelude::*;

verus! {

/// The exact command line the restore hands to the process executor, as a
/// function of the volume name, the archive's canonical parent directory,
/// the archive's file name and the decompression command.
pub open spec fn spec_container_command(
    volume: Seq<char>,
    parent: Seq<char>,
    file_name: Seq<char>,
    decompress: Seq<char>,
) -> Seq<char> {
    "docker run --rm --volume "@ + volume + ":/mybackup -v "@ + parent
        + ":/backup alpine sh -c \"cd /mybackup && "@ + decompress + " /backup/"@
        + file_name + " --strip 1\""@
}

/// Build the container command line for one extraction.
pub fn build_command(volume: &str, parent: &str, file_name: &str, decompress: &str) -> (r: String)
    ensures
        r@ == spec_container_command(volume@, parent@, file_name@, decompress@),
{
    let mut cmd = String::from_str("docker run --rm --volume ");
    cmd.append(volume);
    cmd.append(":/mybackup -v ");
    cmd.append(parent);
    cmd.append(":/backup alpine sh -c \"cd /mybackup && ");
    cmd.append(decompress);
    cmd.append(" /backup/");
    cmd.append(file_name);
    cmd.append(" --strip 1\"");
    proof {
        assert(cmd@ =~= spec_container_command(volume@, parent@, file_name@, decompress@));
    }
    cmd
}

} // verus!
