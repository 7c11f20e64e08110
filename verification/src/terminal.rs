use vstd::prelude::*;

use crate::text::chars_to_string;
use vstd::string::{StrSliceExecFns, StringExecFns};

verus! {

/// One shell a user can pick on platforms with several.
pub struct ShellInfo {
    pub id: String,
    pub name: String,
    pub path: String,
}

/// What querying a terminal's process yields, used when a split clones
/// its context.
pub struct PtyInfo {
    pub cwd: Option<String>,
    pub foreground_command: Option<String>,
}

/// One command for a running terminal's writer.
pub enum PtyCommand {
    Write(Vec<u8>),
    Resize { cols: u16, rows: u16 },
    Kill,
}

/// ASCII whitespace, as command lines use it.
pub open spec fn is_space(c: char) -> bool {
    c == ' ' || c == '\t' || c == '\n' || c == '\r'
}

/// The string with its leading whitespace dropped.
pub open spec fn trim_leading(s: Seq<char>) -> Seq<char>
    decreases s.len(),
{
    if s.len() > 0 && is_space(s[0]) {
        trim_leading(s.drop_first())
    } else {
        s
    }
}

/// The longest whitespace-free prefix.
pub open spec fn until_space(s: Seq<char>) -> Seq<char>
    decreases s.len(),
{
    if s.len() > 0 && !is_space(s[0]) {
        seq![s[0]] + until_space(s.drop_first())
    } else {
        Seq::empty()
    }
}

/// The first whitespace-separated token of a command line.
pub open spec fn first_token(s: Seq<char>) -> Seq<char> {
    until_space(trim_leading(s))
}

/// The part after the last slash: how a command word names its program.
pub open spec fn basename(s: Seq<char>) -> Seq<char>
    decreases s.len(),
{
    if s.len() == 0 {
        s
    } else if s.last() == '/' {
        Seq::empty()
    } else {
        basename(s.drop_last()).push(s.last())
    }
}

/// True when a command line runs an SSH-like remote connection: its
/// first word, stripped of any path, is one of the known clients.
pub open spec fn is_ssh_command_text(s: Seq<char>) -> bool {
    let b = basename(first_token(s));
    b == "ssh"@ || b == "mosh"@ || b == "autossh"@
}

/// One row of the system's process table: a process, its parent, and
/// its command line.
pub struct ProcessEntry {
    pub pid: u32,
    pub ppid: u32,
    pub command: String,
}

/// The first listed child of `parent`, if any.
pub open spec fn first_child(entries: Seq<ProcessEntry>, parent: u32) -> Option<ProcessEntry>
    decreases entries.len(),
{
    if entries.len() == 0 {
        None
    } else if entries[0].ppid == parent {
        Some(entries[0])
    } else {
        first_child(entries.drop_first(), parent)
    }
}

/// When the first child of `parent` stands at `at`, that entry is what
/// the lookup returns.
pub proof fn lemma_first_child_at(entries: Seq<ProcessEntry>, parent: u32, at: int)
    requires
        0 <= at < entries.len(),
        entries[at].ppid == parent,
        forall|j: int| 0 <= j < at ==> (#[trigger] entries[j]).ppid != parent,
    ensures
        first_child(entries, parent) == Some(entries[at]),
    decreases at,
{
    if at > 0 {
        lemma_first_child_at(entries.drop_first(), parent, at - 1);
    }
}

/// A parent with no listed child has no first child.
pub proof fn lemma_first_child_missing(entries: Seq<ProcessEntry>, parent: u32)
    requires
        forall|j: int| 0 <= j < entries.len() ==> (#[trigger] entries[j]).ppid != parent,
    ensures
        first_child(entries, parent) is None,
    decreases entries.len(),
{
    if entries.len() > 0 {
        lemma_first_child_missing(entries.drop_first(), parent);
    }
}

/// The walk down the process tree: follow first children from
/// `current`, remembering the last SSH-like command line seen. `fuel`
/// bounds the walk, so even a corrupted table with a parent cycle
/// terminates.
pub open spec fn walk_ssh(
    entries: Seq<ProcessEntry>,
    current: u32,
    best: Option<Seq<char>>,
    fuel: nat,
) -> Option<Seq<char>>
    decreases fuel,
{
    if fuel == 0 {
        best
    } else {
        match first_child(entries, current) {
            None => best,
            Some(e) => walk_ssh(
                entries,
                e.pid,
                if is_ssh_command_text(e.command@) {
                    Some(e.command@)
                } else {
                    best
                },
                (fuel - 1) as nat,
            ),
        }
    }
}

/// Index of the first listed child of `parent`, if any.
fn child_index(entries: &Vec<ProcessEntry>, parent: u32) -> (r: Option<usize>)
    ensures
        match r {
            Some(i) => i < entries@.len() && entries@[i as int].ppid == parent && forall|j: int|
                0 <= j < i ==> (#[trigger] entries@[j]).ppid != parent,
            None => forall|j: int|
                0 <= j < entries@.len() ==> (#[trigger] entries@[j]).ppid != parent,
        },
{
    let mut i: usize = 0;
    while i < entries.len()
        invariant
            i <= entries@.len(),
            forall|j: int| 0 <= j < i ==> (#[trigger] entries@[j]).ppid != parent,
        decreases entries@.len() - i,
    {
        if entries[i].ppid == parent {
            return Some(i);
        }
        i = i + 1;
    }
    None
}

/// Walks the process tree down from a shell's process and reports the
/// last SSH-like command found on the way to the leaf — the remote
/// connection the user is inside, if any. An alias that expands to an
/// SSH command shows its expansion in the table, so aliases are seen
/// through.
pub fn foreground_ssh_command(entries: &Vec<ProcessEntry>, shell_pid: u32) -> (r: Option<String>)
    ensures
        match r {
            Some(c) => walk_ssh(entries@, shell_pid, None, entries@.len()) == Some(c@),
            None => walk_ssh(entries@, shell_pid, None, entries@.len()) is None,
        },
{
    let mut current: u32 = shell_pid;
    let mut best: Option<String> = None;
    let mut fuel: usize = entries.len();
    while fuel > 0
        invariant
            fuel <= entries@.len(),
            walk_ssh(entries@, shell_pid, None, entries@.len() as nat) == walk_ssh(
                entries@,
                current,
                match best {
                    Some(b) => Some(b@),
                    None => None,
                },
                fuel as nat,
            ),
        decreases fuel,
    {
        match child_index(entries, current) {
            None => {
                proof {
                    lemma_first_child_missing(entries@, current);
                }
                return best;
            },
            Some(i) => {
                proof {
                    lemma_first_child_at(entries@, current, i as int);
                }
                if is_ssh_command(&entries[i].command) {
                    best = Some(entries[i].command.clone());
                }
                current = entries[i].pid;
                fuel = fuel - 1;
            },
        }
    }
    best
}

/// Checks whether a command string looks like an SSH or other remote
/// connection command.
pub fn is_ssh_command(cmd: &String) -> (r: bool)
    ensures
        r == is_ssh_command_text(cmd@),
{
    let text = cmd.as_str();
    let len = text.unicode_len();
    // skip leading whitespace
    let mut i: usize = 0;
    let mut at_word = false;
    proof {
        assert(cmd@.skip(0) =~= cmd@);
    }
    while i < len && !at_word
        invariant
            i <= len,
            len == cmd@.len(),
            text@ == cmd@,
            trim_leading(cmd@) == trim_leading(cmd@.skip(i as int)),
            at_word ==> i < len && !is_space(cmd@[i as int]),
        decreases len - i, (if at_word { 0int } else { 1int }),
    {
        proof {
            assert(cmd@.skip(i as int)[0] == cmd@[i as int]);
            assert(cmd@.skip(i as int).drop_first() =~= cmd@.skip(i + 1));
        }
        let c = text.get_char(i);
        if c == ' ' || c == '\t' || c == '\n' || c == '\r' {
            i = i + 1;
        } else {
            at_word = true;
        }
    }
    proof {
        if i == len && !at_word {
            assert(cmd@.skip(len as int).len() == 0);
        }
        assert(trim_leading(cmd@.skip(i as int)) == cmd@.skip(i as int));
    }
    let start = i;
    // collect the first token, tracking the segment after the last slash
    let mut seg: Vec<char> = Vec::new();
    let ghost tok = trim_leading(cmd@);
    proof {
        assert(until_space(tok).take(0) =~= Seq::<char>::empty());
        assert(basename(Seq::<char>::empty()) =~= Seq::<char>::empty());
    }
    let mut j: usize = start;
    let mut at_end = false;
    while j < len && !at_end
        invariant
            start <= j <= len,
            len == cmd@.len(),
            text@ == cmd@,
            tok == trim_leading(cmd@),
            tok == cmd@.skip(start as int),
            until_space(tok) == cmd@.subrange(start as int, j as int) + until_space(
                cmd@.skip(j as int),
            ),
            seg@ == basename(cmd@.subrange(start as int, j as int)),
            at_end ==> j < len && is_space(cmd@[j as int]),
        decreases len - j, (if at_end { 0int } else { 1int }),
    {
        proof {
            assert(cmd@.skip(j as int)[0] == cmd@[j as int]);
            assert(cmd@.skip(j as int).drop_first() =~= cmd@.skip(j + 1));
        }
        let c = text.get_char(j);
        if c == ' ' || c == '\t' || c == '\n' || c == '\r' {
            at_end = true;
        } else {
            if c == '/' {
                seg.clear();
            } else {
                seg.push(c);
            }
            proof {
                assert(cmd@.subrange(start as int, j + 1).drop_last() =~= cmd@.subrange(
                    start as int,
                    j as int,
                ));
                assert(cmd@.subrange(start as int, j + 1).last() == cmd@[j as int]);
                assert(cmd@.subrange(start as int, j + 1) + until_space(cmd@.skip(j + 1)) =~= cmd@
                    .subrange(start as int, j as int) + until_space(cmd@.skip(j as int)));
            }
            j = j + 1;
        }
    }
    proof {
        if j == len && !at_end {
            assert(cmd@.skip(len as int).len() == 0);
            assert(until_space(cmd@.skip(len as int)) =~= Seq::<char>::empty());
        } else {
            assert(until_space(cmd@.skip(j as int)) =~= Seq::<char>::empty());
        }
        assert(until_space(tok) =~= cmd@.subrange(start as int, j as int));
        assert(seg@ == basename(until_space(tok)));
    }
    let word = chars_to_string(&seg);
    word == String::from_str("ssh") || word == String::from_str("mosh") || word
        == String::from_str("autossh")
}

} // verus!
