//! Terminals and shells on Windows, by executable name.

use vstd::prelude::*;
use crate::chars;
use crate::chars::{from_chars, to_chars, to_lowercase};
use crate::target_app;
use crate::target_app::is_terminal_among;
use crate::words::copy_range;

verus! {

/// Terminals and shells, where Enter runs things and paste is unreliable.
pub const DEFAULT_TERMINALS: [&'static str; 15] = [
    "windowsterminal.exe",
    "wt.exe",
    "powershell.exe",
    "pwsh.exe",
    "cmd.exe",
    "conhost.exe",
    "openconsole.exe",
    "mintty.exe",
    "bash.exe",
    "git-bash.exe",
    "alacritty.exe",
    "wezterm-gui.exe",
    "hyper.exe",
    "putty.exe",
    "mstsc.exe",
];

/// Whether an executable is a terminal, built in or listed as an extra.
pub fn is_terminal(exe: &str, extra: &[String]) -> (r: bool)
    ensures
        r == target_app::terminal(
            target_app::fixed(DEFAULT_TERMINALS@),
            exe@,
            chars::texts(extra@),
        ),
{
    is_terminal_among(&DEFAULT_TERMINALS, exe, extra)
}

/// The last part of a path: what follows its last backslash.
pub open spec fn file_name(path: Seq<char>) -> Seq<char>
    decreases path.len(),
{
    if path.len() == 0 || path.last() == '\\' {
        seq![]
    } else {
        file_name(path.drop_last()).push(path.last())
    }
}

/// The executable that has the focus: the file name of the image of its process in
/// lower case, or nothing where that could not be found out.
pub fn foreground_executable(image: Option<&str>) -> (out: String)
    ensures
        out@ == (match image {
            Some(path) => chars::lower(file_name(path@)),
            None => seq![],
        }),
{
    let path: &str = match image {
        None => return String::new(),
        Some(path) => path,
    };
    let all: Vec<char> = to_chars(path);
    let n: usize = all.len();
    let mut from: usize = n;
    assert(all@.take(n as int) =~= all@);
    assert(file_name(all@) =~= file_name(all@.take(n as int)) + all@.skip(n as int));
    while from > 0 && all[from - 1] != '\\'
        invariant
            from <= n == all@.len(),
            file_name(all@) == file_name(all@.take(from as int)) + all@.skip(from as int),
        decreases from,
    {
        proof {
            let head = all@.take(from as int);
            assert(head.drop_last() =~= all@.take(from - 1));
            assert(file_name(head) == file_name(head.drop_last()).push(head.last()));
            assert(file_name(all@) =~= file_name(all@.take(from - 1)) + all@.skip(from - 1));
        }
        from -= 1;
    }
    proof {
        let head = all@.take(from as int);
        assert(file_name(head) =~= seq![]);
        assert(file_name(all@) =~= all@.subrange(from as int, n as int));
    }
    to_lowercase(from_chars(copy_range(all.as_slice(), from, n).as_slice()).as_str())
}

} // verus!
