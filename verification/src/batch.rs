use vstd::prelude::*;
use vstd::string::StrSliceExecFns;
use vstd::string::StringExecFns;

use crate::archive::spec_join_path;
use crate::platform::Os;

verus! {

/// The two ordered command sequences of one update run: what can be
/// executed directly and what must go through privilege escalation.
/// Built incrementally by the planning steps and consumed once by the
/// executor; the direct batch always runs before the elevated one.
pub struct CommandBatch {
    pub non_elevated: Vec<String>,
    pub elevated: Vec<String>,
}

/// The pair of command lists as sequences of character sequences.
pub open spec fn spec_batch_views(b: CommandBatch) -> (Seq<Seq<char>>, Seq<Seq<char>>) {
    (b.non_elevated.deep_view(), b.elevated.deep_view())
}

/// One routing step: the command joins the elevated or the direct
/// list, and the other list stands unchanged.
pub open spec fn spec_route(
    b: (Seq<Seq<char>>, Seq<Seq<char>>),
    elevated: bool,
    cmd: Seq<char>,
) -> (Seq<Seq<char>>, Seq<Seq<char>>) {
    if elevated {
        (b.0, b.1.push(cmd))
    } else {
        (b.0.push(cmd), b.1)
    }
}

impl CommandBatch {
    pub fn new() -> (r: CommandBatch)
        ensures
            r.non_elevated@.len() == 0,
            r.elevated@.len() == 0,
    {
        CommandBatch { non_elevated: Vec::new(), elevated: Vec::new() }
    }

    /// Appends a command to the direct or the elevated list.
    pub fn push(&mut self, elevated: bool, cmd: String)
        ensures
            spec_batch_views(*final(self)) == spec_route(spec_batch_views(*old(self)), elevated, cmd@),
    {
        if elevated {
            self.elevated.push(cmd);
        } else {
            self.non_elevated.push(cmd);
        }
        proof {
            assert(self.non_elevated.deep_view() =~= spec_route(
                spec_batch_views(*old(self)),
                elevated,
                cmd@,
            ).0);
            assert(self.elevated.deep_view() =~= spec_route(
                spec_batch_views(*old(self)),
                elevated,
                cmd@,
            ).1);
        }
    }
}

/// The command that swaps the running executable for the extracted
/// one. A single move on Unix-like systems; on Windows, where the
/// loaded executable cannot be overwritten, the old one is moved to a
/// discard path first and deleted last, the three steps joined into
/// one command string.
pub open spec fn spec_swap_command(
    os: Os,
    temp_dir: Seq<char>,
    old_exe: Seq<char>,
    new_exe: Seq<char>,
) -> Seq<char> {
    if os is Windows {
        let discard = spec_join_path(temp_dir, os, ".hop.tmp"@);
        "move "@ + old_exe + " "@ + discard + " & move "@ + new_exe + " "@ + old_exe + " & del "@
            + discard
    } else {
        "mv "@ + new_exe + " "@ + old_exe
    }
}

/// Plans the executable swap: builds the platform's swap command and
/// routes it by the writability of the running executable's path.
pub fn swap_exe_command(
    batch: &mut CommandBatch,
    os: Os,
    temp_dir: &str,
    old_exe: &str,
    new_exe: &str,
    old_writable: bool,
)
    ensures
        spec_batch_views(*final(batch)) == spec_route(
            spec_batch_views(*old(batch)),
            !old_writable,
            spec_swap_command(os, temp_dir@, old_exe@, new_exe@),
        ),
{
    let cmd: String = match os {
        Os::Windows => {
            let discard = crate::archive::join_path(temp_dir, os, ".hop.tmp");
            let mut s = "move ".to_owned();
            s.append(old_exe);
            s.append(" ");
            s.append(discard.as_str());
            s.append(" & move ");
            s.append(new_exe);
            s.append(" ");
            s.append(old_exe);
            s.append(" & del ");
            s.append(discard.as_str());
            proof {
                assert(s@ =~= spec_swap_command(os, temp_dir@, old_exe@, new_exe@));
            }
            s
        },
        _ => {
            let mut s = "mv ".to_owned();
            s.append(new_exe);
            s.append(" ");
            s.append(old_exe);
            proof {
                assert(s@ =~= spec_swap_command(os, temp_dir@, old_exe@, new_exe@));
            }
            s
        },
    };
    batch.push(!old_writable, cmd);
}

/// The shell-completion install command for one shell: create the
/// target directory, have the new executable emit its script into the
/// target file, and make the file world-readable.
pub open spec fn spec_completions_command(
    exe: Seq<char>,
    dir: Seq<char>,
    shell: Seq<char>,
    file: Seq<char>,
) -> Seq<char> {
    "mkdir -p "@ + dir + " && "@ + exe + " completions "@ + shell + " > "@ + file
        + " 2> /dev/null && chmod 644 "@ + file
}

fn completions_command(exe: &str, dir: &str, shell: &str, file: &str) -> (r: String)
    ensures
        r@ == spec_completions_command(exe@, dir@, shell@, file@),
{
    let mut s = "mkdir -p ".to_owned();
    s.append(dir);
    s.append(" && ");
    s.append(exe);
    s.append(" completions ");
    s.append(shell);
    s.append(" > ");
    s.append(file);
    s.append(" 2> /dev/null && chmod 644 ");
    s.append(file);
    proof {
        assert(s@ =~= spec_completions_command(exe@, dir@, shell@, file@));
    }
    s
}

pub open spec fn spec_zsh_completion_cmd(exe: Seq<char>) -> Seq<char> {
    spec_completions_command(
        exe,
        "/usr/share/zsh/site-functions"@,
        "zsh"@,
        "/usr/share/zsh/site-functions/_hop"@,
    )
}

pub open spec fn spec_fish_completion_cmd(exe: Seq<char>) -> Seq<char> {
    spec_completions_command(
        exe,
        "/usr/share/fish/completions"@,
        "fish"@,
        "/usr/share/fish/completions/hop.fish"@,
    )
}

pub open spec fn spec_bash_completion_cmd(exe: Seq<char>) -> Seq<char> {
    spec_completions_command(
        exe,
        "/usr/share/bash-completion/completions"@,
        "bash"@,
        "/usr/share/bash-completion/completions/hop"@,
    )
}

/// The three files the completion commands write, in the order the
/// commands are planned; each is probed for writability to route its
/// command. Empty where completions are not installed.
pub fn completion_target_files(os: Os) -> (r: Vec<String>)
    ensures
        os.spec_supports_completions() ==> r.deep_view() =~= seq![
            "/usr/share/zsh/site-functions/_hop"@,
            "/usr/share/fish/completions/hop.fish"@,
            "/usr/share/bash-completion/completions/hop"@,
        ],
        !os.spec_supports_completions() ==> r.deep_view() =~= Seq::<Seq<char>>::empty(),
{
    let mut v: Vec<String> = Vec::new();
    if os.supports_completions() {
        v.push("/usr/share/zsh/site-functions/_hop".to_owned());
        v.push("/usr/share/fish/completions/hop.fish".to_owned());
        v.push("/usr/share/bash-completion/completions/hop".to_owned());
    }
    v
}

/// Plans the completion installs: skipped entirely where the target
/// directories are not stable; otherwise one command per shell, in
/// the order zsh, fish, bash, each routed by the writability of its
/// target file.
pub fn create_completions_commands(
    batch: &mut CommandBatch,
    os: Os,
    exe_path: &str,
    zsh_writable: bool,
    fish_writable: bool,
    bash_writable: bool,
)
    ensures
        !os.spec_supports_completions() ==> spec_batch_views(*final(batch)) == spec_batch_views(
            *old(batch),
        ),
        os.spec_supports_completions() ==> spec_batch_views(*final(batch)) == spec_route(
            spec_route(
                spec_route(
                    spec_batch_views(*old(batch)),
                    !zsh_writable,
                    spec_zsh_completion_cmd(exe_path@),
                ),
                !fish_writable,
                spec_fish_completion_cmd(exe_path@),
            ),
            !bash_writable,
            spec_bash_completion_cmd(exe_path@),
        ),
{
    if !os.supports_completions() {
        return ;
    }
    let zsh = completions_command(
        exe_path,
        "/usr/share/zsh/site-functions",
        "zsh",
        "/usr/share/zsh/site-functions/_hop",
    );
    batch.push(!zsh_writable, zsh);
    let fish = completions_command(
        exe_path,
        "/usr/share/fish/completions",
        "fish",
        "/usr/share/fish/completions/hop.fish",
    );
    batch.push(!fish_writable, fish);
    let bash = completions_command(
        exe_path,
        "/usr/share/bash-completion/completions",
        "bash",
        "/usr/share/bash-completion/completions/hop",
    );
    batch.push(!bash_writable, bash);
}

/// The entries joined with the separator between neighbours; one
/// entry stands alone, none give the empty string.
pub open spec fn spec_join(v: Seq<Seq<char>>, sep: Seq<char>) -> Seq<char>
    decreases v.len(),
{
    if v.len() == 0 {
        Seq::<char>::empty()
    } else if v.len() == 1 {
        v[0]
    } else {
        spec_join(v.drop_last(), sep) + sep + v.last()
    }
}

/// Joins a command list into the single string handed to one shell
/// invocation, with the platform's separator between the commands.
pub fn join_commands(cmds: &Vec<String>, os: Os) -> (r: String)
    ensures
        r@ == spec_join(cmds.deep_view(), os.spec_command_separator()),
{
    let mut s = String::new();
    let n = cmds.len();
    let mut i: usize = 0;
    while i < n
        invariant
            i <= n,
            n == cmds@.len(),
            s@ == spec_join(cmds.deep_view().take(i as int), os.spec_command_separator()),
        decreases n - i,
    {
        if i > 0 {
            s.append(os.command_separator());
        }
        let c = &cmds[i];
        s.append(c.as_str());
        proof {
            let v = cmds.deep_view();
            assert(v.take(i + 1).drop_last() =~= v.take(i as int));
            assert(v.take(i + 1).last() == v[i as int]);
            if i == 0 {
                assert(s@ =~= spec_join(v.take(i + 1), os.spec_command_separator()));
            }
        }
        i += 1;
    }
    proof {
        assert(cmds.deep_view().take(n as int) =~= cmds.deep_view());
    }
    s
}

} // verus!
