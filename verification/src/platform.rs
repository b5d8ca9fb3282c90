use vstd::prelude::*;

verus! {

/// The operating-system family an update run targets. Archive format,
/// path joining, command separators and completion support all follow
/// from this choice; call sites never branch on an ad-hoc flag.
#[derive(Clone, Copy, PartialEq, Eq, Structural, Debug)]
pub enum Os {
    Linux,
    MacOs,
    Windows,
}

impl Os {
    /// Release archives are gzipped tarballs on Unix-like systems and
    /// zip files on Windows.
    pub open spec fn spec_archive_ext(self) -> Seq<char> {
        if self is Windows {
            "zip"@
        } else {
            "tar.gz"@
        }
    }

    pub fn archive_ext(self) -> (r: &'static str)
        ensures
            r@ == self.spec_archive_ext(),
    {
        match self {
            Os::Windows => "zip",
            _ => "tar.gz",
        }
    }

    /// Separator used to join a batch of shell commands into one
    /// invocation: `&&` for `sh`, `&` for `cmd`.
    pub open spec fn spec_command_separator(self) -> Seq<char> {
        if self is Windows {
            " & "@
        } else {
            " && "@
        }
    }

    pub fn command_separator(self) -> (r: &'static str)
        ensures
            r@ == self.spec_command_separator(),
    {
        match self {
            Os::Windows => " & ",
            _ => " && ",
        }
    }

    /// Path separator used when this library builds a path under a
    /// directory it was handed.
    pub open spec fn spec_path_separator(self) -> Seq<char> {
        if self is Windows {
            "\\"@
        } else {
            "/"@
        }
    }

    pub fn path_separator(self) -> (r: &'static str)
        ensures
            r@ == self.spec_path_separator(),
    {
        match self {
            Os::Windows => "\\",
            _ => "/",
        }
    }

    /// Shell-completion scripts are installed only where the target
    /// directories are stable, which rules out macOS and Windows.
    pub open spec fn spec_supports_completions(self) -> bool {
        self is Linux
    }

    pub fn supports_completions(self) -> (r: bool)
        ensures
            r == self.spec_supports_completions(),
    {
        match self {
            Os::Linux => true,
            _ => false,
        }
    }
}

} // verus!
