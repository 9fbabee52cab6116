//! Building the task-scheduler invocations that register the application to
//! start at login, and reading their answers: the argument lists for
//! creating, removing and querying the task, how its XML marks an elevated
//! task, and which failure text means the task simply is not there. Running
//! `schtasks` is the caller's business.

use vstd::prelude::*;
use crate::text::chars_to_string;
use crate::text::contains_seq;
use crate::text::contains_sub;
use crate::text::push_str_chars;
use crate::text::str_to_chars;

verus! {

/// The scheduled task's name.
pub open spec fn task_name() -> Seq<char> {
    "MightyPieRevamped_Autostart"@
}

/// Copy a literal into an owned string.
fn word(s: &str) -> (r: String)
    ensures
        r@ == s@,
{
    let mut v: Vec<char> = Vec::new();
    push_str_chars(&mut v, s);
    chars_to_string(&v)
}

/// The arguments that create (or replace) the startup task for `exe_path`,
/// at login, elevated when `run_as_admin` asks for it.
pub fn create_task_args(exe_path: &str, run_as_admin: bool) -> (r: Vec<String>)
    ensures
        ({
            let base = seq!["/Create"@, "/TN"@, task_name(), "/TR"@, exe_path@, "/SC"@,
                "ONLOGON"@];
            let tail = if run_as_admin {
                seq!["/RL"@, "HIGHEST"@, "/F"@]
            } else {
                seq!["/F"@]
            };
            r@.len() == base.len() + tail.len() && (forall|i: int|
                0 <= i < r@.len() ==> (#[trigger] r@[i])@ == (base + tail)[i])
        }),
{
    let mut r: Vec<String> = Vec::new();
    r.push(word("/Create"));
    r.push(word("/TN"));
    r.push(word("MightyPieRevamped_Autostart"));
    r.push(word("/TR"));
    let mut exe: Vec<char> = Vec::new();
    push_str_chars(&mut exe, exe_path);
    r.push(chars_to_string(&exe));
    r.push(word("/SC"));
    r.push(word("ONLOGON"));
    if run_as_admin {
        r.push(word("/RL"));
        r.push(word("HIGHEST"));
    }
    r.push(word("/F"));
    r
}

/// The arguments that remove the startup task.
pub fn delete_task_args() -> (r: Vec<String>)
    ensures
        r@.len() == 4,
        r@[0]@ == "/Delete"@,
        r@[1]@ == "/TN"@,
        r@[2]@ == task_name(),
        r@[3]@ == "/F"@,
{
    let mut r: Vec<String> = Vec::new();
    r.push(word("/Delete"));
    r.push(word("/TN"));
    r.push(word("MightyPieRevamped_Autostart"));
    r.push(word("/F"));
    r
}

/// The arguments that query the startup task, optionally asking for its
/// XML definition.
pub fn query_task_args(xml: bool) -> (r: Vec<String>)
    ensures
        r@.len() == (if xml {
            4int
        } else {
            3int
        }),
        r@[0]@ == "/Query"@,
        r@[1]@ == "/TN"@,
        r@[2]@ == task_name(),
        xml ==> r@[3]@ == "/XML"@,
{
    let mut r: Vec<String> = Vec::new();
    r.push(word("/Query"));
    r.push(word("/TN"));
    r.push(word("MightyPieRevamped_Autostart"));
    if xml {
        r.push(word("/XML"));
    }
    r
}

/// The task's XML marks it as running elevated, in any of the spellings the
/// scheduler emits.
pub open spec fn xml_marks_admin_spec(xml: Seq<char>) -> bool {
    contains_seq(xml, "RunLevel=\"HighestAvailable\""@) || contains_seq(
        xml,
        "RunLevel='HighestAvailable'"@,
    ) || contains_seq(xml, "<RunLevel>HighestAvailable</RunLevel>"@)
}

/// Whether the queried XML marks the task as elevated, as
/// `xml_marks_admin_spec` describes.
pub fn xml_marks_admin(xml: &str) -> (r: bool)
    ensures
        r == xml_marks_admin_spec(xml@),
{
    let chars = str_to_chars(xml);
    let p1 = str_to_chars("RunLevel=\"HighestAvailable\"");
    let p2 = str_to_chars("RunLevel='HighestAvailable'");
    let p3 = str_to_chars("<RunLevel>HighestAvailable</RunLevel>");
    contains_sub(&chars, &p1) || contains_sub(&chars, &p2) || contains_sub(&chars, &p3)
}

/// The removal failure that only means the task was never there, which is
/// no error.
pub fn is_missing_task_error(stderr: &str) -> (r: bool)
    ensures
        r == contains_seq(stderr@, "The system cannot find the file specified"@),
{
    let chars = str_to_chars(stderr);
    let pat = str_to_chars("The system cannot find the file specified");
    contains_sub(&chars, &pat)
}

} // verus!
