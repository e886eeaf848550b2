//! The `wt` shell function that lets `jjwt switch` change the shell's
//! directory, for each supported shell.
use vstd::prelude::*;

verus! {

/// Supported shell flavors.
#[derive(Clone, Copy, Debug, PartialEq, Eq, Structural)]
pub enum ShellKind {
    /// Bash.
    Bash,
    /// Zsh.
    Zsh,
    /// Fish.
    Fish,
}

/// The Fish wrapper. It reads two output forms of `jjwt switch` and
/// `jjwt remove`: a bare path, to `cd` to, or directive lines `cd:<path>`
/// and `exec:<cmd>`, after which it changes directory and evaluates the
/// command.
pub const FISH_WRAPPER: &'static str = "function wt\n    switch $argv[1]\n        case switch remove\n            set -l __wt_out (command jjwt $argv[1] $argv[2..])\n            or return $status\n            set -l __wt_cd \"\"\n            set -l __wt_exec \"\"\n            for line in $__wt_out\n                set -l prefix (string sub -l 3 -- $line)\n                if test \"$prefix\" = \"cd:\"\n                    set __wt_cd (string sub -s 4 -- $line)\n                else if test (string sub -l 5 -- $line) = \"exec:\"\n                    set __wt_exec (string sub -s 6 -- $line)\n                else if test -z \"$__wt_cd\" -a -n \"$line\" -a -d \"$line\"\n                    set __wt_cd $line\n                end\n            end\n            if test -n \"$__wt_cd\" -a -d \"$__wt_cd\"\n                cd \"$__wt_cd\"\n            end\n            if test -n \"$__wt_exec\"\n                eval $__wt_exec\n            end\n        case '*'\n            command jjwt $argv\n    end\nend\n";

/// The POSIX (bash and zsh) wrapper, with the same directive protocol.
pub const POSIX_WRAPPER: &'static str = "wt() {\n  if [ \"$1\" = \"switch\" ] || [ \"$1\" = \"remove\" ]; then\n    local __wt_subcmd=\"$1\"\n    shift\n    local __wt_out __wt_cd __wt_exec line\n    __wt_out=$(command jjwt \"$__wt_subcmd\" \"$@\") || return $?\n    __wt_cd=\"\"\n    __wt_exec=\"\"\n    while IFS= read -r line; do\n      case \"$line\" in\n        cd:*)   __wt_cd=${line#cd:} ;;\n        exec:*) __wt_exec=${line#exec:} ;;\n        *)\n          if [ -z \"$__wt_cd\" ] && [ -n \"$line\" ] && [ -d \"$line\" ]; then\n            __wt_cd=$line\n          fi\n          ;;\n      esac\n    done <<EOF\n$__wt_out\nEOF\n    if [ -n \"$__wt_cd\" ] && [ -d \"$__wt_cd\" ]; then\n      cd \"$__wt_cd\" || return $?\n    fi\n    if [ -n \"$__wt_exec\" ]; then\n      eval \"$__wt_exec\"\n    fi\n  else\n    command jjwt \"$@\"\n  fi\n}\n";

/// The wrapper function to print for a shell: the Fish one for Fish, the
/// POSIX one for bash and zsh.
pub fn wrapper_script(shell: ShellKind) -> (r: &'static str)
    ensures
        r@ == (if shell == ShellKind::Fish { FISH_WRAPPER@ } else { POSIX_WRAPPER@ }),
{
    match shell {
        ShellKind::Fish => FISH_WRAPPER,
        ShellKind::Bash => POSIX_WRAPPER,
        ShellKind::Zsh => POSIX_WRAPPER,
    }
}

} // verus!
