//! Installing one tool: its installer's runs, one after another, up to the first that
//! does not complete.

use vstd::prelude::*;

use crate::exchange::{
    ask, conclude, list0, turn_ask, turn_conclude, Installation, InstallationView, Installer,
    NextView, Op, OpView, Reply, ReplyKind, ReplyView, Turn, TurnView,
};
use crate::text::same;

verus! {

/// The installer runs that a tool takes, in order: Silvaco comes in three parts.
pub open spec fn install_runs(tool: Seq<char>) -> Result<Seq<Installer>, Seq<char>> {
    if tool == "xilinx"@ {
        Ok(seq![Installer::Xilinx])
    } else if tool == "cadence"@ {
        Ok(seq![Installer::Cadence])
    } else if tool == "silvaco"@ {
        Ok(seq![Installer::Silvaco(1), Installer::Silvaco(2), Installer::Silvaco(3)])
    } else if tool == "cadre"@ {
        Ok(seq![Installer::Cadre])
    } else {
        Err("Unknown tool '"@ + tool + "'"@)
    }
}

/// The model of a list of installer runs or an error.
pub open spec fn runs_view(r: Result<Vec<Installer>, String>) -> Result<
    Seq<Installer>,
    Seq<char>,
> {
    match r {
        Ok(v) => Ok(v@),
        Err(e) => Err(e@),
    }
}

/// The installer runs that a tool takes, in order.
pub fn runs_of(tool: &str) -> (r: Result<Vec<Installer>, String>)
    ensures
        runs_view(r) == install_runs(tool@),
{
    let mut v: Vec<Installer> = Vec::new();
    if same(tool, "xilinx") {
        v.push(Installer::Xilinx);
    } else if same(tool, "cadence") {
        v.push(Installer::Cadence);
    } else if same(tool, "silvaco") {
        v.push(Installer::Silvaco(1));
        v.push(Installer::Silvaco(2));
        v.push(Installer::Silvaco(3));
    } else if same(tool, "cadre") {
        v.push(Installer::Cadre);
    } else {
        return Err("Unknown tool '".to_owned().concat(tool).concat("'"));
    }
    assert(v@ =~= install_runs(tool@)->Ok_0);
    Ok(v)
}

/// Where the installation of a tool stands.
#[derive(Debug, Clone, Copy, PartialEq, Eq, Structural)]
pub enum InstallAt {
    Start,
    Waiting,
    Over,
}

/// Installs one tool.
#[derive(Debug)]
pub struct InstallOne {
    runs: Result<Vec<Installer>, String>,
    next: usize,
    at: InstallAt,
}

/// The model of an `InstallOne`.
pub struct InstallOneView {
    pub runs: Result<Seq<Installer>, Seq<char>>,
    /// How many of the runs have been asked for.
    pub next: int,
    pub at: InstallAt,
}

impl View for InstallOne {
    type V = InstallOneView;

    closed spec fn view(&self) -> InstallOneView {
        InstallOneView { runs: runs_view(self.runs), next: self.next as int, at: self.at }
    }
}

impl InstallOneView {
    /// What holds at every turn.
    pub open spec fn wf(self) -> bool {
        &&& self.at == InstallAt::Start ==> self.next == 0
        &&& self.at == InstallAt::Waiting ==> self.runs is Ok && 0 < self.next
            <= self.runs->Ok_0.len()
    }

    /// The shape of the reply that is waited for.
    pub open spec fn waits(self) -> ReplyKind {
        match self.at {
            InstallAt::Start => ReplyKind::Start,
            InstallAt::Waiting => ReplyKind::Installed,
            InstallAt::Over => ReplyKind::Never,
        }
    }

    /// The end.
    pub open spec fn end(self, i: InstallationView) -> (InstallOneView, TurnView) {
        (InstallOneView { at: InstallAt::Over, ..self }, conclude(seq![], i))
    }

    /// On to the next run; the tool is complete behind the last.
    pub open spec fn proceed(self) -> (InstallOneView, TurnView) {
        if self.next < self.runs->Ok_0.len() {
            (
                InstallOneView { next: self.next + 1, at: InstallAt::Waiting, ..self },
                ask(seq![], OpView::Install(self.runs->Ok_0[self.next])),
            )
        } else {
            self.end(InstallationView::Complete)
        }
    }

    /// The turn that `reply` leads to, and the state behind it.
    pub open spec fn after(self, reply: ReplyView) -> (InstallOneView, TurnView) {
        match self.at {
            InstallAt::Start => match self.runs {
                Err(e) => self.end(InstallationView::Failed(e)),
                Ok(_) => self.proceed(),
            },
            _ => match reply->Installed_0 {
                InstallationView::Complete => self.proceed(),
                other => self.end(other),
            },
        }
    }

    /// What the installation asks for when it hears `replies` in turn.
    pub open spec fn requests(self, replies: Seq<ReplyView>) -> Seq<OpView>
        decreases replies.len(),
    {
        if replies.len() == 0 {
            seq![]
        } else {
            let (state, turn) = self.after(replies[0]);
            match turn.next {
                NextView::Do(op) => seq![op] + state.requests(replies.drop_first()),
                NextView::Finish(_) => seq![],
            }
        }
    }
}

/// The installation of a tool before its first turn.
pub open spec fn install_start(tool: Seq<char>) -> InstallOneView {
    InstallOneView { runs: install_runs(tool), next: 0, at: InstallAt::Start }
}

/// The installation of `tool`.
pub fn install_one(tool: &str) -> (r: InstallOne)
    ensures
        r@ == install_start(tool@),
        r@.wf(),
{
    InstallOne { runs: runs_of(tool), next: 0, at: InstallAt::Start }
}

impl InstallOne {
    /// The shape of the reply that is waited for.
    pub fn waits(&self) -> (k: ReplyKind)
        ensures
            k == self@.waits(),
    {
        match self.at {
            InstallAt::Start => ReplyKind::Start,
            InstallAt::Waiting => ReplyKind::Installed,
            InstallAt::Over => ReplyKind::Never,
        }
    }

    fn end(self, i: Installation) -> (r: (InstallOne, Turn))
        ensures
            (r.0@, r.1@) == self@.end(i@),
    {
        (InstallOne { at: InstallAt::Over, ..self }, turn_conclude(list0(), i))
    }

    fn proceed(self) -> (r: (InstallOne, Turn))
        requires
            self@.runs is Ok,
        ensures
            (r.0@, r.1@) == self@.proceed(),
    {
        let asked: Option<Installer> = match &self.runs {
            Ok(v) => if self.next < v.len() {
                Some(v[self.next])
            } else {
                None
            },
            Err(_) => None,
        };
        match asked {
            Some(i) => {
                let next: usize = self.next + 1;
                (
                    InstallOne { next, at: InstallAt::Waiting, ..self },
                    turn_ask(list0(), Op::Install(i)),
                )
            },
            None => self.end(Installation::Complete),
        }
    }

    /// Takes the reply that is waited for.
    pub fn step(self, reply: Reply) -> (r: (InstallOne, Turn))
        requires
            self@.wf(),
            self@.waits() == reply@.kind(),
        ensures
            (r.0@, r.1@) == self@.after(reply@),
            r.1@.leads_to(r.0@.waits()),
            r.0@.wf(),
    {
        match self.at {
            InstallAt::Start => match &self.runs {
                Err(e) => {
                    let e = e.clone();
                    self.end(Installation::Failed(e))
                },
                Ok(_) => self.proceed(),
            },
            _ => match reply {
                Reply::Installed(Installation::Complete) => self.proceed(),
                Reply::Installed(other) => self.end(other),
                _ => self.end(Installation::Complete),
            },
        }
    }
}

/// A run that does not complete is the end of its tool: the tool ends as that run did,
/// and no later part of it is asked for.
pub proof fn law_error_in_a_part_ends_the_tool(v: InstallOneView, i: InstallationView)
    requires
        v.wf(),
        v.at == InstallAt::Waiting,
        !(i is Complete),
    ensures
        v.after(ReplyView::Installed(i)).1.next == NextView::Finish(ReplyView::Installed(i)),
{
}

/// A tool is complete if and only if each of its runs has been.
pub proof fn law_tool_is_complete_behind_its_last_part(v: InstallOneView, reply: ReplyView)
    requires
        v.wf(),
        v.waits() == reply.kind(),
        v.at == InstallAt::Waiting,
    ensures
        v.after(reply).1.next == NextView::Finish(ReplyView::Installed(InstallationView::Complete))
            <==> v.next == v.runs->Ok_0.len() && reply == ReplyView::Installed(
            InstallationView::Complete,
        ),
        v.next < v.runs->Ok_0.len() && reply == ReplyView::Installed(InstallationView::Complete)
            ==> v.after(reply).1.next == NextView::Do(OpView::Install(v.runs->Ok_0[v.next])),
{
}

/// How many of the replies report a complete run before one does not.
pub open spec fn completed(replies: Seq<ReplyView>) -> nat
    decreases replies.len(),
{
    if replies.len() > 0 && replies[0] == ReplyView::Installed(InstallationView::Complete) {
        1 + completed(replies.drop_first())
    } else {
        0
    }
}

proof fn lemma_parts_in_order(v: InstallOneView, replies: Seq<ReplyView>)
    requires
        v.wf(),
        v.at == InstallAt::Waiting,
        forall|i: int| 0 <= i < replies.len() ==> (#[trigger] replies[i]).kind()
            == ReplyKind::Installed,
    ensures
        ({
            let runs = v.runs->Ok_0;
            let n = if completed(replies) < runs.len() - v.next {
                completed(replies)
            } else {
                (runs.len() - v.next) as nat
            };
            v.requests(replies) == Seq::new(n, |i: int| OpView::Install(runs[v.next + i]))
        }),
    decreases replies.len(),
{
    let runs = v.runs->Ok_0;
    let n = if completed(replies) < runs.len() - v.next {
        completed(replies)
    } else {
        (runs.len() - v.next) as nat
    };
    let expected = Seq::new(n, |i: int| OpView::Install(runs[v.next + i]));
    if replies.len() > 0 {
        let rest = replies.drop_first();
        assert(replies[0].kind() == ReplyKind::Installed);
        assert forall|i: int| 0 <= i < rest.len() implies (#[trigger] rest[i]).kind()
            == ReplyKind::Installed by {
            assert(rest[i] == replies[i + 1]);
        }
        if replies[0]->Installed_0 is Complete {
            assert(replies[0] == ReplyView::Installed(InstallationView::Complete));
            if v.next < runs.len() {
                lemma_parts_in_order(v.after(replies[0]).0, rest);
            }
        }
    }
    assert(v.requests(replies) =~= expected);
}

/// The runs of a tool are asked for in order, each but the first only once the one in
/// front of it is complete: behind an error no further run is asked for.
pub proof fn law_parts_come_in_order(tool: Seq<char>, replies: Seq<ReplyView>)
    requires
        install_runs(tool) is Ok,
        forall|i: int| 0 <= i < replies.len() ==> (#[trigger] replies[i]).kind()
            == ReplyKind::Installed,
    ensures
        ({
            let runs = install_runs(tool)->Ok_0;
            let n = if completed(replies) + 1 < runs.len() {
                completed(replies) + 1
            } else {
                runs.len()
            };
            install_start(tool).requests(seq![ReplyView::Start] + replies) == Seq::new(
                n,
                |i: int| OpView::Install(runs[i]),
            )
        }),
{
    let runs = install_runs(tool)->Ok_0;
    let start = install_start(tool);
    let all = seq![ReplyView::Start] + replies;
    let n = if completed(replies) + 1 < runs.len() {
        completed(replies) + 1
    } else {
        runs.len()
    };
    assert(runs.len() > 0);
    assert(all[0] == ReplyView::Start);
    assert(all.drop_first() =~= replies);
    lemma_parts_in_order(start.after(ReplyView::Start).0, replies);
    assert(start.requests(all) =~= Seq::new(n, |i: int| OpView::Install(runs[i])));
}

} // verus!
