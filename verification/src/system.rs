//! Process-level rules: privileges, and what the output of commands means.

use crate::error::Error;
use crate::error::Fault;
use crate::error::Problem;
use crate::sysfs;
use crate::text;
use crate::text::Cut;
use vstd::prelude::*;
use vstd::string::StringExecFns;

verus! {

/// Seconds since the Unix epoch, or `0` on a clock set before it.
pub fn unix_time(since_epoch: Option<u64>) -> (r: u64)
    ensures
        r == match since_epoch {
            Some(secs) => secs,
            None => 0,
        },
{
    match since_epoch {
        Some(secs) => secs,
        None => 0,
    }
}

/// True when the process is running as root: the owner of `/proc/self`, where
/// it could be read, is user 0.
pub fn is_root(uid: Option<u32>) -> (r: bool)
    ensures
        r == (uid == Some(0u32)),
{
    match uid {
        Some(uid) => uid == 0,
        None => false,
    }
}

/// A command and its arguments on one line.
pub open spec fn line_text(program: Seq<char>, args: Seq<String>) -> Seq<char> {
    program + " "@ + text::joined(text::views(args), " "@)
}

fn command_line(program: &str, args: &[String]) -> (r: String)
    ensures
        r@ == line_text(program@, args@),
{
    text::concat3(program, " ", text::join(args, " ").as_str())
}

/// The trimmed output of a command, or `None` if it could not be started or
/// exited non-zero.
pub fn command_stdout(success: bool, stdout: &str) -> (r: Option<String>)
    ensures
        sysfs::text_view(r) == if success {
            Some(text::trimmed(stdout@))
        } else {
            None
        },
{
    if success {
        Some(text::trim(stdout).to_owned())
    } else {
        None
    }
}

/// Like [`command_stdout`], but reports why the command failed.
pub fn checked_stdout(
    program: &str,
    args: &[String],
    success: bool,
    stdout: &str,
    stderr: &str,
) -> (r: Result<String, Error>)
    ensures
        match r {
            Ok(out) => success && out@ == text::trimmed(stdout@),
            Err(e) => !success && e@ == (Fault::CommandFailed {
                command: line_text(program@, args@),
                cause: text::trimmed(stderr@),
            }),
        },
{
    if success {
        Ok(text::trim(stdout).to_owned())
    } else {
        Err(
            Problem::CommandFailed {
                command: command_line(program, args),
                cause: text::trim(stderr).to_owned(),
            },
        )
    }
}

/// Whether a command that ran with inherited output succeeded.
pub fn checked_status(program: &str, args: &[String], success: bool, status: &str) -> (r: Result<
    (),
    Error,
>)
    ensures
        match r {
            Ok(_) => success,
            Err(e) => !success && e@ == (Fault::StatusFailed {
                command: line_text(program@, args@),
                status: status@,
            }),
        },
{
    if success {
        Ok(())
    } else {
        Err(
            Problem::StatusFailed {
                command: command_line(program, args),
                status: status.to_owned(),
            },
        )
    }
}

/// A text that is not empty.
pub open spec fn filled(text: Option<Seq<char>>) -> Option<Seq<char>> {
    match text {
        Some(t) => if t.len() > 0 {
            Some(t)
        } else {
            None
        },
        None => None,
    }
}

/// Drops a text that is empty.
pub fn non_empty(text: Option<String>) -> (r: Option<String>)
    ensures
        sysfs::text_view(r) == filled(sysfs::text_view(text)),
{
    match text {
        Some(t) => {
            if t.as_str().is_empty() {
                None
            } else {
                Some(t)
            }
        },
        None => None,
    }
}

/// The user who invoked `sudo`, if any, from `$SUDO_USER`.
pub fn sudo_user(variable: Option<String>) -> (r: Option<String>)
    ensures
        sysfs::text_view(r) == filled(sysfs::text_view(variable)),
{
    non_empty(variable)
}

/// The home directory in a passwd entry: its sixth field.
pub open spec fn home_in(entry: Seq<char>) -> Option<Seq<char>> {
    text::piece_of(entry, Cut::At(':'), 5)
}

/// A user's home directory, from their entry in the passwd database.
pub fn home_of_user(entry: Option<&str>) -> (r: Option<String>)
    ensures
        sysfs::text_view(r) == match entry {
            Some(e) => filled(home_in(e@)),
            None => None,
        },
{
    match entry {
        Some(e) => non_empty(text::piece(e, Cut::At(':'), 5)),
        None => None,
    }
}

/// Arguments for `chown` that hand freshly-written config back to the user who
/// invoked `sudo`, so they can edit it without root. `None` without one.
pub fn chown_to_sudo_user(user: Option<&str>, dir: &str) -> (r: Option<Vec<String>>)
    ensures
        match user {
            Some(u) => r is Some && text::views(r->0@) == seq!["-R"@, u@ + ":"@, dir@],
            None => r is None,
        },
{
    match user {
        Some(u) => {
            let mut owner: String = u.to_owned();
            owner.append(":");
            let mut args: Vec<String> = Vec::new();
            args.push("-R".to_owned());
            args.push(owner);
            args.push(dir.to_owned());
            proof {
                assert(text::views(args@) =~= seq!["-R"@, u@ + ":"@, dir@]);
            }
            Some(args)
        },
        None => None,
    }
}

// --- Laws ---

/// Root is user 0, and nobody else is; a user that is not known is not root.
pub proof fn law_root_is_user_zero(uid: Option<u32>, r: bool)
    requires
        call_ensures(is_root, (uid,), r),
    ensures
        r <==> uid is Some && uid->0 == 0,
{
}

/// The output of a command counts only where it succeeded, without the white
/// space around it.
pub proof fn law_only_success_has_output(
    program: &str,
    args: &[String],
    success: bool,
    stdout: &str,
    stderr: &str,
    plain: Option<String>,
    checked: Result<String, Error>,
)
    requires
        call_ensures(command_stdout, (success, stdout), plain),
        call_ensures(checked_stdout, (program, args, success, stdout, stderr), checked),
    ensures
        plain is Some <==> success,
        checked is Ok <==> success,
        success ==> plain->0@ == text::trimmed(stdout@) && checked->Ok_0@ == text::trimmed(stdout@),
{
}

/// A home directory is the sixth of the fields between the colons of an entry,
/// unless it is empty.
pub proof fn law_a_home_is_the_sixth_field(
    entry: &str,
    fields: Seq<Seq<char>>,
    r: Option<String>,
)
    requires
        call_ensures(home_of_user, (Some(entry),), r),
        fields.len() >= 6,
        forall|i: int, j: int|
            0 <= i < fields.len() && 0 <= j < fields[i].len() ==> #[trigger] fields[i][j] != ':',
        entry@ == text::joined(fields, seq![':']),
    ensures
        fields[5].len() > 0 ==> (r matches Some(home) && home@ == fields[5]),
        fields[5].len() == 0 ==> r is None,
{
    text::law_joined_texts_split_again(fields, ':');
}

/// What was written under `sudo` is handed to the user who ran it, all of it.
pub proof fn law_files_are_handed_back(user: &str, dir: &str, r: Option<Vec<String>>)
    requires
        call_ensures(chown_to_sudo_user, (Some(user), dir), r),
    ensures
        r matches Some(args) && args@.len() == 3 && args@[0]@ == "-R"@ && args@[1]@ == user@ + ":"@
            && args@[2]@ == dir@,
{
    let args = text::views(r->0@);
    assert(args.len() == r->0@.len());
    assert(args[0] == r->0@[0]@);
    assert(args[1] == r->0@[1]@);
    assert(args[2] == r->0@[2]@);
}

/// A text that is there but empty counts as missing; any other is kept as it is.
pub proof fn law_empty_answers_count_as_missing(
    variable: Option<String>,
    r: Option<String>,
    user: Option<String>,
)
    requires
        call_ensures(non_empty, (variable,), r),
        call_ensures(sudo_user, (variable,), user),
    ensures
        r is Some <==> variable is Some && variable->0@.len() > 0,
        user is Some <==> variable is Some && variable->0@.len() > 0,
        r is Some ==> r->0@ == variable->0@,
        user is Some ==> user->0@ == variable->0@,
{
}

/// A command that did not succeed is an error that names it and its status, and no
/// other is.
pub proof fn law_failures_are_reported(
    program: &str,
    args: &[String],
    success: bool,
    status: &str,
    r: Result<(), Error>,
    i: int,
)
    requires
        call_ensures(checked_status, (program, args, success, status), r),
    ensures
        r is Ok <==> success,
        r matches Err(e) ==> (e matches Problem::StatusFailed { command, status: shown }
            && text::begins(command@, program@) && shown@ == status@ && (0 <= i < args@.len()
            ==> text::includes(command@, args@[i]@))),
{
    if let Err(e) = r {
        let line = line_text(program@, args@);
        assert(e@ == (Fault::StatusFailed { command: line, status: status@ }));
        assert(line.take(program@.len() as int) =~= program@);
        if 0 <= i < args@.len() {
            let all = text::views(args@);
            let none = Seq::<char>::empty();
            assert(all[i] == args@[i]@);
            text::law_joined_texts_are_all_there(all, " "@, i);
            text::lemma_includes_within(program@ + " "@, text::joined(all, " "@), none, all[i]);
            assert(program@ + " "@ + text::joined(all, " "@) + none =~= line);
        }
    }
}

} // verus!
