//! Building the commands of the elevation flow: the PowerShell invocation
//! that restarts the application with administrator rights, its quoting, the
//! fallback invocation, and the flag file that marks an elevation restart.
//! Running the commands is the caller's business.

use vstd::prelude::*;
use crate::paths::join_spec;
use crate::paths::join_str;
use crate::text::chars_to_string;
use crate::text::push_str_chars;
use crate::text::str_to_chars;

verus! {

/// `s` with every single quote doubled, as PowerShell single-quoted strings
/// escape them.
pub open spec fn escape_single_quotes_spec(s: Seq<char>) -> Seq<char>
    decreases s.len(),
{
    if s.len() == 0 {
        Seq::empty()
    } else if s[0] == '\'' {
        seq!['\'', '\''] + escape_single_quotes_spec(s.drop_first())
    } else {
        seq![s[0]] + escape_single_quotes_spec(s.drop_first())
    }
}

proof fn lemma_escape_unfold(s: Seq<char>, i: int)
    requires
        0 <= i < s.len(),
    ensures
        escape_single_quotes_spec(s.subrange(i, s.len() as int)) == (if s[i] == '\'' {
            seq!['\'', '\'']
        } else {
            seq![s[i]]
        }) + escape_single_quotes_spec(s.subrange(i + 1, s.len() as int)),
{
    assert(s.subrange(i, s.len() as int).drop_first() =~= s.subrange(i + 1, s.len() as int));
    assert(s.subrange(i, s.len() as int)[0] == s[i]);
}

/// Escape single quotes in `s`, as `escape_single_quotes_spec` describes.
pub fn escape_single_quotes(s: &str) -> (r: String)
    ensures
        r@ == escape_single_quotes_spec(s@),
{
    let chars = str_to_chars(s);
    let n: usize = chars.len();
    let mut out: Vec<char> = Vec::new();
    let mut i: usize = 0;
    assert(s@.subrange(0, n as int) =~= s@);
    while i < n
        invariant
            n == s@.len(),
            chars@ == s@,
            i <= n,
            escape_single_quotes_spec(s@) == out@ + escape_single_quotes_spec(
                s@.subrange(i as int, n as int),
            ),
        decreases n - i,
    {
        proof {
            lemma_escape_unfold(s@, i as int);
        }
        let c = chars[i];
        if c == '\'' {
            out.push('\'');
            out.push('\'');
            assert(out@ =~= out@.subrange(0, out@.len() - 2) + seq!['\'', '\'']);
        } else {
            out.push(c);
            assert(out@ =~= out@.subrange(0, out@.len() - 1) + seq![c]);
        }
        proof {
            assert(out@ + escape_single_quotes_spec(s@.subrange(i + 1, n as int))
                =~= escape_single_quotes_spec(s@));
        }
        i = i + 1;
    }
    assert(s@.subrange(n as int, n as int) =~= Seq::<char>::empty());
    assert(out@ =~= escape_single_quotes_spec(s@));
    chars_to_string(&out)
}

/// The PowerShell command that relaunches `exe_path` elevated.
pub open spec fn elevation_script_spec(exe_path: Seq<char>) -> Seq<char> {
    "Start-Process -FilePath '"@ + escape_single_quotes_spec(exe_path) + "' -Verb RunAs"@
}

/// Build the elevation command, as `elevation_script_spec` describes.
pub fn elevation_script(exe_path: &str) -> (r: String)
    ensures
        r@ == elevation_script_spec(exe_path@),
{
    let escaped = escape_single_quotes(exe_path);
    let mut v: Vec<char> = Vec::new();
    push_str_chars(&mut v, "Start-Process -FilePath '");
    push_str_chars(&mut v, escaped.as_str());
    push_str_chars(&mut v, "' -Verb RunAs");
    assert(v@ =~= elevation_script_spec(exe_path@));
    chars_to_string(&v)
}

/// Copy a literal into an owned string.
fn word(s: &str) -> (r: String)
    ensures
        r@ == s@,
{
    let mut v: Vec<char> = Vec::new();
    push_str_chars(&mut v, s);
    chars_to_string(&v)
}

/// The arguments handed to PowerShell to relaunch `exe_path` elevated.
pub fn elevation_args(exe_path: &str) -> (r: Vec<String>)
    ensures
        r@.len() == 5,
        r@[0]@ == "-NoProfile"@,
        r@[1]@ == "-ExecutionPolicy"@,
        r@[2]@ == "Bypass"@,
        r@[3]@ == "-Command"@,
        r@[4]@ == elevation_script_spec(exe_path@),
{
    let mut r: Vec<String> = Vec::new();
    r.push(word("-NoProfile"));
    r.push(word("-ExecutionPolicy"));
    r.push(word("Bypass"));
    r.push(word("-Command"));
    r.push(elevation_script(exe_path));
    r
}

/// The fallback arguments handed to the command interpreter when PowerShell
/// is unavailable: a `runas` invocation of `exe_path`.
pub fn fallback_elevation_args(exe_path: &str) -> (r: Vec<String>)
    ensures
        r@.len() == 2,
        r@[0]@ == "/C"@,
        r@[1]@ == "runas /user:Administrator \""@ + exe_path@ + "\""@,
{
    let mut r: Vec<String> = Vec::new();
    r.push(word("/C"));
    let mut v: Vec<char> = Vec::new();
    push_str_chars(&mut v, "runas /user:Administrator \"");
    push_str_chars(&mut v, exe_path);
    push_str_chars(&mut v, "\"");
    r.push(chars_to_string(&v));
    r
}

/// The flag file that signals an elevation restart, under the temporary
/// directory.
pub fn admin_flag_path(temp_dir: &str) -> (r: String)
    ensures
        r@ == join_spec(temp_dir@, "mightypie_admin_restart.flag"@),
{
    join_str(temp_dir, "mightypie_admin_restart.flag")
}

} // verus!
