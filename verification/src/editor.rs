use vstd::prelude::*;

use crate::bridge::{ids_view, lemma_ids_view};
use crate::text::chars_to_string;
use vstd::string::{StrSliceExecFns, StringExecFns};

verus! {

/// What reading a text file returns: its content and its size in bytes.
pub struct ReadFileResult {
    pub content: String,
    pub size: u64,
}

/// What reading a binary file returns: its bytes encoded in base64 and
/// its size in bytes.
pub struct ReadFileBase64Result {
    pub data: String,
    pub size: u64,
}

/// True when the first bytes of a file mark it as binary.
pub fn contains_null_byte(header: &Vec<u8>) -> (r: bool)
    ensures
        r == exists|i: int| 0 <= i < header@.len() && header@[i] == 0,
{
    let mut i: usize = 0;
    while i < header.len()
        invariant
            i <= header@.len(),
            forall|j: int| 0 <= j < i ==> header@[j] != 0,
        decreases header@.len() - i,
    {
        if header[i] == 0 {
            return true;
        }
        i = i + 1;
    }
    false
}

/// How one character appears inside a single-quoted shell word: a quote
/// closes the word, emits an escaped quote, and reopens it.
pub open spec fn shell_esc_char(c: char) -> Seq<char> {
    if c == '\'' {
        seq!['\'', '\\', '\'', '\'']
    } else {
        seq![c]
    }
}

/// The body of the quoted word: each character escaped.
pub open spec fn shell_quote_body(s: Seq<char>) -> Seq<char>
    decreases s.len(),
{
    if s.len() == 0 {
        Seq::empty()
    } else {
        shell_quote_body(s.drop_last()) + shell_esc_char(s.last())
    }
}

/// The whole quoted word, safe to splice into a remote shell command.
pub open spec fn shell_quote_text(s: Seq<char>) -> Seq<char> {
    seq!['\''] + shell_quote_body(s) + seq!['\'']
}

/// Shell-quotes a string for safe use in remote commands.
pub fn shell_quote(s: &String) -> (r: String)
    ensures
        r@ == shell_quote_text(s@),
{
    let mut out: Vec<char> = Vec::new();
    out.push('\'');
    let text = s.as_str();
    let len = text.unicode_len();
    let mut i: usize = 0;
    proof {
        assert(s@.take(0) =~= Seq::<char>::empty());
        assert(out@ =~= seq!['\''] + shell_quote_body(s@.take(0)));
    }
    while i < len
        invariant
            i <= len,
            len == s@.len(),
            text@ == s@,
            out@ == seq!['\''] + shell_quote_body(s@.take(i as int)),
        decreases len - i,
    {
        let c = text.get_char(i);
        let ghost mid = out@;
        if c == '\'' {
            out.push('\'');
            out.push('\\');
            out.push('\'');
            out.push('\'');
        } else {
            out.push(c);
        }
        proof {
            assert(out@ =~= mid + shell_esc_char(s@[i as int]));
            assert(s@.take(i + 1).drop_last() =~= s@.take(i as int));
            assert(s@.take(i + 1).last() == s@[i as int]);
            assert(out@ =~= seq!['\''] + shell_quote_body(s@.take(i + 1)));
        }
        i = i + 1;
    }
    out.push('\'');
    proof {
        assert(s@.take(len as int) =~= s@);
        assert(out@ =~= shell_quote_text(s@));
    }
    chars_to_string(&out)
}

/// Expands a leading tilde to the user's home directory: `~` alone
/// becomes the home path, `~/rest` becomes `home/rest`, and anything
/// else — or any path when no home is known — passes through unchanged.
pub fn expand_tilde(path: &String, home: Option<&String>) -> (r: String)
    ensures
        path@ == "~"@ ==> r@ == (match home {
            Some(h) => h@,
            None => path@,
        }),
        path@ != "~"@ && path@.len() >= 2 && path@[0] == '~' && path@[1] == '/' ==> r@ == (
        match home {
            Some(h) => h@ + "/"@ + path@.skip(2),
            None => path@,
        }),
        path@ != "~"@ && !(path@.len() >= 2 && path@[0] == '~' && path@[1] == '/') ==> r@
            == path@,
{
    if *path == String::from_str("~") {
        return match home {
            Some(h) => h.clone(),
            None => path.clone(),
        };
    }
    let text = path.as_str();
    let len = text.unicode_len();
    if len >= 2 && text.get_char(0) == '~' && text.get_char(1) == '/' {
        match home {
            Some(h) => {
                let rest = text.substring_char(2, len);
                return h.clone().concat("/").concat(rest);
            },
            None => {
                return path.clone();
            },
        }
    }
    path.clone()
}

/// True when this token is a flag that consumes the following token as
/// its value.
pub open spec fn is_value_flag(t: Seq<char>) -> bool {
    ||| t == "-o"@
    ||| t == "-i"@
    ||| t == "-p"@
    ||| t == "-l"@
    ||| t == "-F"@
    ||| t == "-J"@
    ||| t == "-L"@
    ||| t == "-R"@
    ||| t == "-D"@
    ||| t == "-W"@
    ||| t == "-S"@
    ||| t == "-b"@
    ||| t == "-c"@
    ||| t == "-E"@
    ||| t == "-m"@
    ||| t == "-O"@
    ||| t == "-Q"@
    ||| t == "-w"@
    ||| t == "-B"@
    ||| t == "-e"@
}

/// True when the token carries an `=` somewhere.
pub open spec fn has_eq_char(t: Seq<char>) -> bool {
    exists|i: int| 0 <= i < t.len() && t[i] == '='
}

/// The host argument of a tokenized SSH command line: the first token
/// that is not the command word, a flag, or a flag's value.
pub open spec fn host_of(parts: Seq<Seq<char>>) -> Option<Seq<char>>
    decreases parts.len(),
{
    if parts.len() == 0 {
        None
    } else if parts[0] == "ssh"@ {
        host_of(parts.drop_first())
    } else if is_value_flag(parts[0]) {
        if parts.len() == 1 {
            None
        } else {
            host_of(parts.drop_first().drop_first())
        }
    } else if parts[0].len() > 0 && parts[0][0] == '-' && !has_eq_char(parts[0]) {
        host_of(parts.drop_first())
    } else {
        Some(parts[0])
    }
}

/// True when this token is a flag that consumes a value.
fn is_value_flag_token(t: &String) -> (r: bool)
    ensures
        r == is_value_flag(t@),
{
    *t == String::from_str("-o") || *t == String::from_str("-i") || *t == String::from_str("-p")
        || *t == String::from_str("-l") || *t == String::from_str("-F") || *t == String::from_str(
        "-J",
    ) || *t == String::from_str("-L") || *t == String::from_str("-R") || *t == String::from_str(
        "-D",
    ) || *t == String::from_str("-W") || *t == String::from_str("-S") || *t == String::from_str(
        "-b",
    ) || *t == String::from_str("-c") || *t == String::from_str("-E") || *t == String::from_str(
        "-m",
    ) || *t == String::from_str("-O") || *t == String::from_str("-Q") || *t == String::from_str(
        "-w",
    ) || *t == String::from_str("-B") || *t == String::from_str("-e")
}

/// True when the token carries an `=` somewhere.
fn token_has_eq(t: &String) -> (r: bool)
    ensures
        r == has_eq_char(t@),
{
    let text = t.as_str();
    let len = text.unicode_len();
    let mut i: usize = 0;
    while i < len
        invariant
            i <= len,
            len == t@.len(),
            text@ == t@,
            forall|j: int| 0 <= j < i ==> t@[j] != '=',
        decreases len - i,
    {
        if text.get_char(i) == '=' {
            return true;
        }
        i = i + 1;
    }
    false
}

/// Extracts the `user@host` argument from a tokenized SSH command
/// line: the command word and its flags (with their values) are
/// skipped; the first remaining token is the host. `None` when no such
/// token exists.
pub fn extract_user_host(parts: &Vec<String>) -> (r: Option<String>)
    ensures
        match r {
            Some(h) => host_of(ids_view(parts@)) == Some(h@),
            None => host_of(ids_view(parts@)) is None,
        },
{
    let ghost pv = ids_view(parts@);
    proof {
        lemma_ids_view(parts@);
        assert(pv.skip(0) =~= pv);
    }
    let mut i: usize = 0;
    while i < parts.len()
        invariant
            i <= parts@.len(),
            pv == ids_view(parts@),
            pv.len() == parts@.len(),
            forall|j: int| 0 <= j < parts@.len() ==> #[trigger] pv[j] == parts@[j]@,
            host_of(pv) == host_of(pv.skip(i as int)),
        decreases parts@.len() - i,
    {
        proof {
            assert(pv.skip(i as int)[0] == pv[i as int]);
            assert(pv.skip(i as int).drop_first() =~= pv.skip(i + 1));
        }
        let t = &parts[i];
        if *t == String::from_str("ssh") {
            i = i + 1;
        } else if is_value_flag_token(t) {
            if i + 1 >= parts.len() {
                proof {
                    assert(pv.skip(i as int).len() == 1);
                }
                return None;
            }
            proof {
                assert(pv.skip(i as int).drop_first().drop_first() =~= pv.skip(i + 2));
            }
            i = i + 2;
        } else {
            let text = t.as_str();
            let starts_dash = text.unicode_len() > 0 && text.get_char(0) == '-';
            if starts_dash && !token_has_eq(t) {
                i = i + 1;
            } else {
                return Some(t.clone());
            }
        }
    }
    proof {
        assert(pv.skip(parts@.len() as int).len() == 0);
    }
    None
}

} // verus!
