//! What the status of a machine shows.

use vstd::prelude::*;

use crate::cli::ActionView;
use crate::exchange::{PhaseRecordView, ReplyView, StatusView};
use crate::number::decimal;
use crate::run::{status_lines, RunAt, RunView};
use crate::text::{begins, ends, occurs_at};

verus! {

/// The names under which phases are recorded, in the order of the status.
pub open spec fn phase_names() -> Seq<Seq<char>> {
    seq![
        "PRE_INSTALL"@,
        "XILINX"@,
        "CADENCE"@,
        "SILVACO_1"@,
        "SILVACO_2"@,
        "SILVACO_3"@,
        "CADRE"@,
    ]
}

/// What a report says of the phase with that name.
pub open spec fn record_of(s: StatusView, name: Seq<char>) -> PhaseRecordView {
    if name == "PRE_INSTALL"@ {
        s.pre_install
    } else if name == "XILINX"@ {
        s.xilinx
    } else if name == "CADENCE"@ {
        s.cadence
    } else if name == "SILVACO_1"@ {
        s.silvaco_1
    } else if name == "SILVACO_2"@ {
        s.silvaco_2
    } else if name == "SILVACO_3"@ {
        s.silvaco_3
    } else {
        s.cadre
    }
}

/// When a phase was done, as it is shown.
pub open spec fn time_shown(r: PhaseRecordView) -> Seq<char> {
    if r.time is Some {
        r.time->0
    } else {
        "-"@
    }
}

proof fn lemma_records(s: StatusView)
    ensures
        record_of(s, phase_names()[0]) == s.pre_install,
        record_of(s, phase_names()[1]) == s.xilinx,
        record_of(s, phase_names()[2]) == s.cadence,
        record_of(s, phase_names()[3]) == s.silvaco_1,
        record_of(s, phase_names()[4]) == s.silvaco_2,
        record_of(s, phase_names()[5]) == s.silvaco_3,
        record_of(s, phase_names()[6]) == s.cadre,
{
    reveal_strlit("PRE_INSTALL");
    reveal_strlit("XILINX");
    reveal_strlit("CADENCE");
    reveal_strlit("SILVACO_1");
    reveal_strlit("SILVACO_2");
    reveal_strlit("SILVACO_3");
    reveal_strlit("CADRE");
    assert("PRE_INSTALL"@.len() == 11);
    assert("XILINX"@.len() == 6);
    assert("CADENCE"@.len() == 7);
    assert("CADRE"@.len() == 5);
    assert("SILVACO_1"@.len() == 9 && "SILVACO_1"@[8] == '1');
    assert("SILVACO_2"@.len() == 9 && "SILVACO_2"@[8] == '2');
    assert("SILVACO_3"@.len() == 9 && "SILVACO_3"@[8] == '3');
}

/// The line that a phase has in the status: a box that is ticked if and only if the
/// phase is done, the phase's name up to a column, and when it was done.
proof fn lemma_line(line: Seq<char>, padded: Seq<char>, name: Seq<char>, r: PhaseRecordView)
    requires
        padded.len() == 12,
        begins(padded, name),
        forall|j: int| name.len() <= j < 12 ==> #[trigger] padded[j] == ' ',
        line == crate::run::phase_line(padded, r),
    ensures
        begins(line, "  ["@),
        line[3] == (if r.done {
            'x'
        } else {
            ' '
        }),
        line[4] == ']',
        line[5] == ' ',
        occurs_at(line, name, 6),
        forall|j: int| 6 + name.len() <= j < 19 ==> #[trigger] line[j] == ' ',
        ends(line, time_shown(r)),
        line.len() == 19 + time_shown(r).len(),
{
    reveal_strlit("  [");
    reveal_strlit("x");
    reveal_strlit(" ");
    reveal_strlit("] ");
    assert(line.take(3) =~= "  ["@);
    assert(name =~= padded.take(name.len() as int));
    assert forall|j: int| 6 + name.len() <= j < 19 implies #[trigger] line[j] == ' ' by {
        if j < 18 {
            assert(line[j] == padded[j - 6]);
        }
    }
    assert(line.subrange(6, 6int + name.len()) =~= name);
    assert(line.skip(line.len() - time_shown(r).len()) =~= time_shown(r));
}

/// The status has four lines of its own and then one for each phase. A phase's line
/// names the phase, is ticked if and only if the phase's own record is done, and ends
/// with the record's time, or with a dash where it has none.
pub proof fn law_status_shows_each_phase(s: StatusView, k: int)
    requires
        0 <= k < phase_names().len(),
    ensures
        ({
            let name = phase_names()[k];
            let record = record_of(s, name);
            let line = status_lines(s)[4 + k];
            &&& status_lines(s).len() == 4 + phase_names().len()
            &&& begins(line, "  ["@)
            &&& line[3] == 'x' <==> record.done
            &&& line[3] == ' ' <==> !record.done
            &&& line[4] == ']'
            &&& line[5] == ' '
            &&& occurs_at(line, name, 6)
            &&& forall|j: int| 6 + name.len() <= j < 19 ==> #[trigger] line[j] == ' '
            &&& ends(line, time_shown(record))
            &&& line.len() == 19 + time_shown(record).len()
        }),
{
    lemma_records(s);
    reveal_strlit("PRE_INSTALL");
    reveal_strlit("XILINX");
    reveal_strlit("CADENCE");
    reveal_strlit("SILVACO_1");
    reveal_strlit("SILVACO_2");
    reveal_strlit("SILVACO_3");
    reveal_strlit("CADRE");
    reveal_strlit("PRE_INSTALL ");
    reveal_strlit("XILINX      ");
    reveal_strlit("CADENCE     ");
    reveal_strlit("SILVACO_1   ");
    reveal_strlit("SILVACO_2   ");
    reveal_strlit("SILVACO_3   ");
    reveal_strlit("CADRE       ");
    let lines = status_lines(s);
    assert("PRE_INSTALL "@.take(11) =~= "PRE_INSTALL"@);
    assert("XILINX      "@.take(6) =~= "XILINX"@);
    assert("CADENCE     "@.take(7) =~= "CADENCE"@);
    assert("SILVACO_1   "@.take(9) =~= "SILVACO_1"@);
    assert("SILVACO_2   "@.take(9) =~= "SILVACO_2"@);
    assert("SILVACO_3   "@.take(9) =~= "SILVACO_3"@);
    assert("CADRE       "@.take(5) =~= "CADRE"@);
    lemma_line(lines[4], "PRE_INSTALL "@, "PRE_INSTALL"@, s.pre_install);
    lemma_line(lines[5], "XILINX      "@, "XILINX"@, s.xilinx);
    lemma_line(lines[6], "CADENCE     "@, "CADENCE"@, s.cadence);
    lemma_line(lines[7], "SILVACO_1   "@, "SILVACO_1"@, s.silvaco_1);
    lemma_line(lines[8], "SILVACO_2   "@, "SILVACO_2"@, s.silvaco_2);
    lemma_line(lines[9], "SILVACO_3   "@, "SILVACO_3"@, s.silvaco_3);
    lemma_line(lines[10], "CADRE       "@, "CADRE"@, s.cadre);
}

/// Each line depends on one phase's record and on no other: where two reports say the
/// same of a phase, its line is the same, and where they do not, it is not.
pub proof fn law_status_lines_are_independent(s: StatusView, t: StatusView, k: int)
    requires
        0 <= k < phase_names().len(),
    ensures
        record_of(s, phase_names()[k]) == record_of(t, phase_names()[k]) ==> status_lines(s)[4 + k]
            == status_lines(t)[4 + k],
        record_of(s, phase_names()[k]).done != record_of(t, phase_names()[k]).done
            ==> status_lines(s)[4 + k] != status_lines(t)[4 + k],
        time_shown(record_of(s, phase_names()[k])) != time_shown(record_of(t, phase_names()[k]))
            ==> status_lines(s)[4 + k] != status_lines(t)[4 + k],
{
    law_status_shows_each_phase(s, k);
    law_status_shows_each_phase(t, k);
    lemma_records(s);
    lemma_records(t);
}

/// The lines in front of the phases tell the machine's number and name and the two
/// accounts, and no phase's record changes them.
pub proof fn law_status_opens_with_the_machine(s: StatusView)
    ensures
        status_lines(s)[0] == "Machine: #"@ + decimal(s.machine_number as nat) + " ("@
            + s.hostname_fqdn + ")"@,
        status_lines(s)[1] == "Sysadmin user: "@ + s.sysadmin_user,
        status_lines(s)[2] == "Student user:  "@ + s.student_user,
        status_lines(s)[3] == Seq::<char>::empty(),
{
    reveal_strlit("");
    assert(""@ =~= Seq::<char>::empty());
}

/// A run that asked for the status prints it as it was reported.
pub proof fn law_run_prints_the_status(v: RunView, s: StatusView)
    requires
        v.wf(),
        v.at == RunAt::Waiting,
        v.current() == ActionView::ShowStatus,
    ensures
        v.after(ReplyView::Status(s)).1.log == status_lines(s),
{
}

} // verus!
