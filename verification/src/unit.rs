//! A unit, and the texts that are shown for it: the text of its unit file and
//! its journal.
//!
//! Neither text is kept. The file is read and the journal is queried by the
//! caller, each time that a text is asked for; what is decided here is what
//! to ask for, and what to show for each outcome.

use crate::text::text_of_utf8;
use crate::unit_state::UnitState;
use crate::unit_type::UnitType;
use vstd::prelude::*;
use vstd::utf8::*;

verus! {

/// A unit that the service manager knows.
#[derive(Clone, Debug)]
pub struct SystemdUnit {
    /// The name of the unit, such as `sshd.service`.
    pub name: String,
    /// Where the unit file lies.
    pub path: String,
    /// The enablement state of the unit, as it was when it was last decoded.
    pub state: UnitState,
    /// The type of the unit.
    pub utype: UnitType,
}

impl SystemdUnit {
    /// What is shown as the text of a unit file: the text that was read, and
    /// nothing where the file could not be read.
    pub open spec fn info_of(read: Option<Seq<char>>) -> Seq<char> {
        match read {
            Some(text) => text,
            None => Seq::empty(),
        }
    }

    /// The command that queries the journal of the unit called `name`: the
    /// program, and the arguments that ask for the entries since the last
    /// boot (`-b`), the newest first (`-r`), of that unit only (`-u`).
    pub open spec fn journal_command_of(name: Seq<char>) -> Seq<Seq<char>> {
        seq!["journalctl"@, "-b"@, "-r"@, "-u"@, name]
    }

    /// What is shown in place of the journal of the unit called `name` where
    /// the journal could not be had.
    pub open spec fn journal_fallback_of(name: Seq<char>) -> Seq<char> {
        "Unable to read the journal entry for "@ + name + "."@
    }

    /// What is shown as the journal of the unit called `name`: the text that
    /// the output of the query encodes, and the fallback where the query
    /// failed or its output is not well-formed UTF-8.
    pub open spec fn journal_of(name: Seq<char>, output: Option<Seq<u8>>) -> Seq<char> {
        match output {
            Some(bytes) => if valid_utf8(bytes) {
                decode_utf8(bytes)
            } else {
                Self::journal_fallback_of(name)
            },
            None => Self::journal_fallback_of(name),
        }
    }

    /// The text of the unit file, for what an attempt to read it gave.
    pub fn info_text(read: Option<String>) -> (text: String)
        ensures
            text@ == Self::info_of(read.deep_view()),
    {
        match read {
            Some(text) => text,
            None => String::new(),
        }
    }

    /// The text of the unit file. `read` is asked for the text of the file at
    /// the path of the unit, and answers `None` where it cannot read it.
    pub fn get_info<F: FnOnce(&str) -> Option<String>>(&self, read: F) -> (text: String)
        requires
            forall|path: &str| path@ == self.path@ ==> read.requires((path,)),
        ensures
            exists|path: &str, outcome: Option<String>|
                path@ == self.path@ && read.ensures((path,), outcome) && text@ == Self::info_of(
                    outcome.deep_view(),
                ),
    {
        let path = self.path.as_str();
        let outcome = read(path);
        proof {
            assert(read.ensures((path,), outcome));
        }
        Self::info_text(outcome)
    }

    /// The command that queries the journal of this unit: the program first,
    /// then its arguments.
    pub fn journal_command(&self) -> (command: Vec<String>)
        ensures
            command.deep_view() == Self::journal_command_of(self.name@),
    {
        let mut command: Vec<String> = Vec::new();
        command.push(String::from_str("journalctl"));
        command.push(String::from_str("-b"));
        command.push(String::from_str("-r"));
        command.push(String::from_str("-u"));
        command.push(self.name.clone());
        proof {
            assert(command.deep_view() =~= Self::journal_command_of(self.name@));
        }
        command
    }

    /// What is shown in place of the journal where it could not be had.
    pub fn journal_fallback(&self) -> (text: String)
        ensures
            text@ == Self::journal_fallback_of(self.name@),
    {
        let mut text = String::from_str("Unable to read the journal entry for ");
        text.append(self.name.as_str());
        text.append(".");
        text
    }

    /// The journal of the unit, for what the query gave: its standard output,
    /// or `None` where it could not be run.
    pub fn journal_text(&self, output: Option<Vec<u8>>) -> (text: String)
        ensures
            text@ == Self::journal_of(self.name@, output.deep_view()),
    {
        match output {
            Some(bytes) => {
                proof {
                    assert(bytes.deep_view() =~= bytes@);
                }
                match text_of_utf8(bytes) {
                    Some(decoded) => {
                        proof {
                            encode_utf8_decode_utf8(decoded@);
                        }
                        decoded
                    },
                    None => self.journal_fallback(),
                }
            },
            None => self.journal_fallback(),
        }
    }

    /// The journal of the unit. `run` is handed the command of
    /// `journal_command`, and answers with the standard output of the
    /// program, or with `None` where it could not run it.
    pub fn get_journal<F: FnOnce(&[String]) -> Option<Vec<u8>>>(&self, run: F) -> (text: String)
        requires
            forall|command: &[String]|
                command.deep_view() == Self::journal_command_of(self.name@) ==> run.requires(
                    (command,),
                ),
        ensures
            exists|command: &[String], output: Option<Vec<u8>>|
                command.deep_view() == Self::journal_command_of(self.name@) && run.ensures(
                    (command,),
                    output,
                ) && text@ == Self::journal_of(self.name@, output.deep_view()),
    {
        let command = self.journal_command();
        let arguments = command.as_slice();
        proof {
            assert(arguments.deep_view() =~= command.deep_view());
        }
        let output = run(arguments);
        proof {
            assert(run.ensures((arguments,), output));
        }
        self.journal_text(output)
    }
}

/// The text of a unit file is the same each time it is asked for, as long as
/// reading the file gives the same: nothing is kept from one call to the next.
pub proof fn get_info_repeats<F: FnOnce(&str) -> Option<String>>(
    unit: SystemdUnit,
    read: F,
    first: String,
    second: String,
)
    requires
        forall|p: &str, q: &str, a: Option<String>, b: Option<String>|
            p@ == unit.path@ && q@ == unit.path@ && read.ensures((p,), a) && read.ensures((q,), b)
                ==> a.deep_view() == b.deep_view(),
        call_ensures(SystemdUnit::get_info::<F>, (&unit, read), first),
        call_ensures(SystemdUnit::get_info::<F>, (&unit, read), second),
    ensures
        first@ == second@,
{
    let (p, a) = choose|p: &str, a: Option<String>|
        p@ == unit.path@ && read.ensures((p,), a) && first@ == SystemdUnit::info_of(
            a.deep_view(),
        );
    let (q, b) = choose|q: &str, b: Option<String>|
        q@ == unit.path@ && read.ensures((q,), b) && second@ == SystemdUnit::info_of(
            b.deep_view(),
        );
    assert(a.deep_view() == b.deep_view());
}

/// The journal of a unit is the same each time it is asked for, as long as
/// the query gives the same: nothing is kept from one call to the next.
pub proof fn get_journal_repeats<F: FnOnce(&[String]) -> Option<Vec<u8>>>(
    unit: SystemdUnit,
    run: F,
    first: String,
    second: String,
)
    requires
        forall|p: &[String], q: &[String], a: Option<Vec<u8>>, b: Option<Vec<u8>>|
            p.deep_view() == SystemdUnit::journal_command_of(unit.name@) && q.deep_view()
                == SystemdUnit::journal_command_of(unit.name@) && run.ensures((p,), a)
                && run.ensures((q,), b) ==> a.deep_view() == b.deep_view(),
        call_ensures(SystemdUnit::get_journal::<F>, (&unit, run), first),
        call_ensures(SystemdUnit::get_journal::<F>, (&unit, run), second),
    ensures
        first@ == second@,
{
    let command = SystemdUnit::journal_command_of(unit.name@);
    let (p, a) = choose|p: &[String], a: Option<Vec<u8>>|
        p.deep_view() == command && run.ensures((p,), a) && first@ == SystemdUnit::journal_of(
            unit.name@,
            a.deep_view(),
        );
    let (q, b) = choose|q: &[String], b: Option<Vec<u8>>|
        q.deep_view() == command && run.ensures((q,), b) && second@ == SystemdUnit::journal_of(
            unit.name@,
            b.deep_view(),
        );
    assert(a.deep_view() == b.deep_view());
}

} // verus!
