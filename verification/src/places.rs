//! Where things lie on a machine.

use vstd::prelude::*;

use crate::path::{below, is_file_name, lemma_file_below};

verus! {

/// Where a tool's directory is.
pub open spec fn place_of(tool: Seq<char>) -> Seq<char> {
    below("/opt/cadence"@, tool)
}

/// Where the mark of a tool is that a bundle brought.
pub open spec fn mark_of(tool: Seq<char>) -> Seq<char> {
    below(place_of(tool), ".c2s-from-bundle"@)
}

/// Where the stamp of a bundle is.
pub open spec fn stamp_at(bundle: Seq<char>) -> Seq<char> {
    below(below("/opt/cadence"@, ".c2s-bundles"@), bundle + ".done"@)
}

/// Where an archive is unpacked before its tool is moved into place.
pub open spec fn scratch_of(temp: Seq<char>, tool: Seq<char>) -> Seq<char> {
    below(temp, "cadence_gtar_extract_"@ + tool)
}

/// Where a user's VNC settings are.
pub open spec fn vnc_settings_of(username: Seq<char>) -> Seq<char> {
    below(below("/home"@, username), ".vnc"@)
}

/// Tools and bundles with the names of files have their directory, their mark and
/// their stamp below the tools' root.
pub proof fn law_places_of_tools(name: Seq<char>)
    requires
        is_file_name(name),
    ensures
        place_of(name) == "/opt/cadence/"@ + name,
        mark_of(name) == "/opt/cadence/"@ + name + "/.c2s-from-bundle"@,
        below("/opt/cadence"@, ".c2s-bundles"@) == "/opt/cadence/.c2s-bundles"@,
        stamp_at(name) == "/opt/cadence/.c2s-bundles/"@ + name + ".done"@,
{
    reveal_strlit("/opt/cadence");
    reveal_strlit("/");
    reveal_strlit("/opt/cadence/");
    reveal_strlit(".c2s-from-bundle");
    reveal_strlit("/.c2s-from-bundle");
    reveal_strlit(".c2s-bundles");
    reveal_strlit("/opt/cadence/.c2s-bundles");
    reveal_strlit("/opt/cadence/.c2s-bundles/");
    reveal_strlit(".done");
    lemma_file_below("/opt/cadence"@, name);
    assert("/opt/cadence"@ + "/"@ =~= "/opt/cadence/"@);
    assert("/"@ + ".c2s-from-bundle"@ =~= "/.c2s-from-bundle"@);
    assert(mark_of(name) =~= "/opt/cadence/"@ + name + "/.c2s-from-bundle"@);
    assert(below("/opt/cadence"@, ".c2s-bundles"@) =~= "/opt/cadence/.c2s-bundles"@);
    assert("/opt/cadence/.c2s-bundles"@ + "/"@ =~= "/opt/cadence/.c2s-bundles/"@);
    assert(name.contains(name[0]));
    assert((name + ".done"@)[0] != '/');
    assert(stamp_at(name) =~= "/opt/cadence/.c2s-bundles/"@ + name + ".done"@);
}

/// The scratch directory lies in the directory for temporary files, under a name that
/// tells the tool.
pub proof fn law_scratch_lies_among_temporary_files(temp: Seq<char>, tool: Seq<char>)
    requires
        temp.len() > 0,
        temp.last() != '/',
    ensures
        scratch_of(temp, tool) == temp + "/cadence_gtar_extract_"@ + tool,
{
    reveal_strlit("cadence_gtar_extract_");
    reveal_strlit("/cadence_gtar_extract_");
    reveal_strlit("/");
    assert(("cadence_gtar_extract_"@ + tool)[0] == 'c');
    assert("/"@ + "cadence_gtar_extract_"@ =~= "/cadence_gtar_extract_"@);
    assert(scratch_of(temp, tool) =~= temp + "/cadence_gtar_extract_"@ + tool);
}

/// A user's VNC settings and password lie in their home directory.
pub proof fn law_vnc_settings_lie_in_the_home(username: Seq<char>)
    requires
        is_file_name(username),
    ensures
        vnc_settings_of(username) == "/home/"@ + username + "/.vnc"@,
        below(vnc_settings_of(username), "passwd"@) == "/home/"@ + username + "/.vnc/passwd"@,
{
    reveal_strlit("/home");
    reveal_strlit("/");
    reveal_strlit("/home/");
    reveal_strlit(".vnc");
    reveal_strlit("/.vnc");
    reveal_strlit("passwd");
    reveal_strlit("/.vnc/passwd");
    lemma_file_below("/home"@, username);
    let dir = "/home"@ + "/"@ + username + "/"@ + ".vnc"@;
    assert(vnc_settings_of(username) == dir);
    assert(dir.last() == 'c');
    assert(below(dir, "passwd"@) == dir + "/"@ + "passwd"@);
    assert(dir =~= "/home/"@ + username + "/.vnc"@);
    assert(dir + "/"@ + "passwd"@ =~= "/home/"@ + username + "/.vnc/passwd"@);
}

} // verus!
