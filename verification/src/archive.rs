use vstd::prelude::*;
use vstd::string::StrSliceExecFns;
use vstd::string::StringExecFns;

use crate::platform::Os;

verus! {

/// Where a release archive is fetched from:
/// `{base_url}/{version}/{filename}.{ext}`, with the extension fixed
/// by the platform.
pub open spec fn spec_download_url(
    base: Seq<char>,
    version: Seq<char>,
    filename: Seq<char>,
    os: Os,
) -> Seq<char> {
    base + "/"@ + version + "/"@ + filename + "."@ + os.spec_archive_ext()
}

pub fn download_url(base_url: &str, version: &str, filename: &str, os: Os) -> (r: String)
    ensures
        r@ == spec_download_url(base_url@, version@, filename@, os),
{
    let mut s = base_url.to_owned();
    s.append("/");
    s.append(version);
    s.append("/");
    s.append(filename);
    s.append(".");
    s.append(os.archive_ext());
    proof {
        assert(s@ =~= spec_download_url(base_url@, version@, filename@, os));
    }
    s
}

/// A name placed directly under a directory, with the platform's
/// path separator between them.
pub open spec fn spec_join_path(dir: Seq<char>, os: Os, name: Seq<char>) -> Seq<char> {
    dir + os.spec_path_separator() + name
}

pub fn join_path(dir: &str, os: Os, name: &str) -> (r: String)
    ensures
        r@ == spec_join_path(dir@, os, name@),
{
    let mut s = dir.to_owned();
    s.append(os.path_separator());
    s.append(name);
    proof {
        assert(s@ =~= spec_join_path(dir@, os, name@));
    }
    s
}

/// Where the downloaded archive lands: a file named after `filename`
/// in the system temporary directory, overwriting any stale one.
pub fn packed_archive_path(temp_dir: &str, os: Os, filename: &str) -> (r: String)
    ensures
        r@ == spec_join_path(temp_dir@, os, filename@),
{
    join_path(temp_dir, os, filename)
}

/// The dedicated extraction directory, removed and recreated before
/// each extraction so no stale files leak between versions.
pub open spec fn spec_unpack_dir(temp_dir: Seq<char>, os: Os) -> Seq<char> {
    spec_join_path(temp_dir, os, "extract-tmp"@)
}

pub fn unpack_dir_path(temp_dir: &str, os: Os) -> (r: String)
    ensures
        r@ == spec_unpack_dir(temp_dir@, os),
{
    join_path(temp_dir, os, "extract-tmp")
}

/// Where the freshly extracted executable stands: inside the
/// extraction directory under its own name on Unix-like systems, and
/// as `{filename}.exe` in the temporary directory on Windows, where
/// the zip stream is written out directly.
pub open spec fn spec_extracted_exe_path(temp_dir: Seq<char>, os: Os, filename: Seq<char>) -> Seq<
    char,
> {
    if os is Windows {
        spec_join_path(temp_dir, os, filename + ".exe"@)
    } else {
        spec_join_path(spec_unpack_dir(temp_dir, os), os, filename)
    }
}

pub fn extracted_exe_path(temp_dir: &str, os: Os, filename: &str) -> (r: String)
    ensures
        r@ == spec_extracted_exe_path(temp_dir@, os, filename@),
{
    match os {
        Os::Windows => {
            let mut name = filename.to_owned();
            name.append(".exe");
            let r = join_path(temp_dir, os, name.as_str());
            proof {
                assert(r@ =~= spec_extracted_exe_path(temp_dir@, os, filename@));
            }
            r
        },
        _ => {
            let dir = unpack_dir_path(temp_dir, os);
            let r = join_path(dir.as_str(), os, filename);
            proof {
                assert(r@ =~= spec_extracted_exe_path(temp_dir@, os, filename@));
            }
            r
        },
    }
}

/// The part of a path after its last `/`; the whole path when it has
/// none.
pub open spec fn spec_basename(p: Seq<char>) -> Seq<char>
    decreases p.len(),
{
    if p.len() == 0 {
        p
    } else if p.last() == '/' {
        Seq::<char>::empty()
    } else {
        spec_basename(p.drop_last()).push(p.last())
    }
}

/// A name without separators placed under a directory keeps exactly
/// that name as the path's basename.
pub proof fn lemma_basename_of_joined(dir: Seq<char>, name: Seq<char>)
    requires
        forall|i: int| 0 <= i < name.len() ==> name[i] != '/',
    ensures
        spec_basename(dir + "/"@ + name) == name,
    decreases name.len(),
{
    reveal_strlit("/");
    let p = dir + "/"@ + name;
    if name.len() == 0 {
        assert(p.last() == '/');
        assert(spec_basename(p) =~= name);
    } else {
        assert(p.last() == name.last());
        assert(p.drop_last() =~= dir + "/"@ + name.drop_last());
        assert(forall|i: int| 0 <= i < name.drop_last().len() ==> name.drop_last()[i] != '/');
        lemma_basename_of_joined(dir, name.drop_last());
        assert(spec_basename(p) =~= name);
    }
}

/// On a Unix-like system, extracting an archive holding one file
/// named `filename` yields a path whose basename is `filename`.
pub proof fn lemma_extracted_basename(temp_dir: Seq<char>, os: Os, filename: Seq<char>)
    requires
        !(os is Windows),
        forall|i: int| 0 <= i < filename.len() ==> filename[i] != '/',
    ensures
        spec_basename(spec_extracted_exe_path(temp_dir, os, filename)) == filename,
{
    lemma_basename_of_joined(spec_unpack_dir(temp_dir, os), filename);
}

} // verus!
