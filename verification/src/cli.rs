//! Headless runs: what the command line asks for, and in what order it is done.

use vstd::prelude::*;

use crate::number::{decimal, decimal_text};
use crate::text;
use crate::text::{split, texts, trim};
use crate::tool_names;
use crate::tool_names::{known_tools, resolve_tool_names, resolved};

verus! {

/// The flags of the command line.
#[derive(Debug)]
pub struct Cli {
    /// The machine number, from 1 to 20, that is set before any other action.
    pub machine: Option<u8>,
    /// Print which phases are done, and do nothing else beside setting the number.
    pub status: bool,
    /// Prepare the system: packages, student user, limits.
    pub preinstall: bool,
    /// Tools to install.
    pub install: Vec<String>,
    /// Tools whose environment scripts are written anew.
    pub recreate_env: Vec<String>,
    /// Users to add, each as USERNAME[,ROLE,REGISTER_NO].
    pub add_user: Vec<String>,
    /// A package or shared library to install.
    pub dependency: Option<String>,
}

/// The model of a `Cli`.
pub struct CliView {
    pub machine: Option<u8>,
    pub status: bool,
    pub preinstall: bool,
    pub install: Seq<Seq<char>>,
    pub recreate_env: Seq<Seq<char>>,
    pub add_user: Seq<Seq<char>>,
    pub dependency: Option<Seq<char>>,
}

impl View for Cli {
    type V = CliView;

    open spec fn view(&self) -> CliView {
        CliView {
            machine: self.machine,
            status: self.status,
            preinstall: self.preinstall,
            install: texts(self.install@),
            recreate_env: texts(self.recreate_env@),
            add_user: texts(self.add_user@),
            dependency: match self.dependency {
                Some(d) => Some(d@),
                None => None,
            },
        }
    }
}

/// The command line without any flag.
pub open spec fn no_flags() -> CliView {
    CliView {
        machine: None,
        status: false,
        preinstall: false,
        install: seq![],
        recreate_env: seq![],
        add_user: seq![],
        dependency: None,
    }
}

impl Cli {
    /// Any flag at all asks for a headless run; without one the interactive
    /// dashboard is meant.
    pub fn wants_cli_mode(&self) -> (r: bool)
        ensures
            r == (self@ != no_flags()),
    {
        proof {
            if self.install@.len() == 0 {
                assert(self@.install =~= seq![]);
            }
            if self.recreate_env@.len() == 0 {
                assert(self@.recreate_env =~= seq![]);
            }
            if self.add_user@.len() == 0 {
                assert(self@.add_user =~= seq![]);
            }
        }
        self.machine.is_some() || self.status || self.preinstall || self.install.len() > 0
            || self.recreate_env.len() > 0 || self.add_user.len() > 0 || self.dependency.is_some()
    }
}

/// A user to be added.
#[derive(Debug)]
pub struct NewUser {
    pub username: String,
    pub role: String,
    pub identifier: String,
}

/// The model of a `NewUser`.
pub struct NewUserView {
    pub username: Seq<char>,
    pub role: Seq<char>,
    pub identifier: Seq<char>,
}

impl View for NewUser {
    type V = NewUserView;

    open spec fn view(&self) -> NewUserView {
        NewUserView { username: self.username@, role: self.role@, identifier: self.identifier@ }
    }
}

/// The user that USERNAME[,ROLE,REGISTER_NO] describes: all three parts or the name
/// alone, white space around each of them ignored.
pub open spec fn described_user(spec_text: Seq<char>) -> Result<NewUserView, Seq<char>> {
    let parts = text::pieces(spec_text, ',');
    if parts.len() == 3 {
        Ok(
            NewUserView {
                username: text::trimmed(parts[0]),
                role: text::trimmed(parts[1]),
                identifier: text::trimmed(parts[2]),
            },
        )
    } else if parts.len() == 1 {
        Ok(
            NewUserView {
                username: text::trimmed(parts[0]),
                role: "Student"@,
                identifier: "REG-DEFAULT"@,
            },
        )
    } else {
        Err(
            "Invalid --add-user format '"@ + spec_text + "'. Use USERNAME[,ROLE,REGISTER_NO]"@,
        )
    }
}

/// The user that USERNAME[,ROLE,REGISTER_NO] describes.
pub fn add_user_from_spec(spec_text: &str) -> (r: Result<NewUser, String>)
    ensures
        match r {
            Ok(u) => described_user(spec_text@) == Ok::<NewUserView, Seq<char>>(u@),
            Err(e) => described_user(spec_text@) == Err::<NewUserView, Seq<char>>(e@),
        },
{
    let parts = split(spec_text, ',');
    let ghost views = texts(parts@);
    if parts.len() == 3 {
        assert(views[0] == parts@[0]@ && views[1] == parts@[1]@ && views[2] == parts@[2]@);
        Ok(
            NewUser {
                username: trim(parts[0].as_str()),
                role: trim(parts[1].as_str()),
                identifier: trim(parts[2].as_str()),
            },
        )
    } else if parts.len() == 1 {
        assert(views[0] == parts@[0]@);
        Ok(
            NewUser {
                username: trim(parts[0].as_str()),
                role: "Student".to_owned(),
                identifier: "REG-DEFAULT".to_owned(),
            },
        )
    } else {
        Err(
            "Invalid --add-user format '".to_owned().concat(spec_text).concat(
                "'. Use USERNAME[,ROLE,REGISTER_NO]",
            ),
        )
    }
}

/// One thing that a headless run does.
#[derive(Debug)]
pub enum Action {
    SetMachine(u8),
    ShowStatus,
    Preinstall,
    /// A tool by its name.
    Install(String),
    RecreateEnv(String),
    /// A user as it was described on the command line.
    AddUser(String),
    Dependency(String),
}

/// The model of an `Action`.
pub enum ActionView {
    SetMachine(u8),
    ShowStatus,
    Preinstall,
    Install(Seq<char>),
    RecreateEnv(Seq<char>),
    AddUser(Seq<char>),
    Dependency(Seq<char>),
}

impl View for Action {
    type V = ActionView;

    open spec fn view(&self) -> ActionView {
        match self {
            Action::SetMachine(n) => ActionView::SetMachine(*n),
            Action::ShowStatus => ActionView::ShowStatus,
            Action::Preinstall => ActionView::Preinstall,
            Action::Install(t) => ActionView::Install(t@),
            Action::RecreateEnv(t) => ActionView::RecreateEnv(t@),
            Action::AddUser(u) => ActionView::AddUser(u@),
            Action::Dependency(p) => ActionView::Dependency(p@),
        }
    }
}

/// The models of a list of actions.
pub open spec fn action_views(v: Seq<Action>) -> Seq<ActionView> {
    v.map_values(|a: Action| a@)
}

/// The action that sets the machine number, where one is given.
pub open spec fn machine_actions(machine: Option<u8>) -> Seq<ActionView> {
    match machine {
        Some(n) => seq![ActionView::SetMachine(n)],
        None => seq![],
    }
}

/// The action that installs a dependency, where one is given.
pub open spec fn dependency_actions(dependency: Option<Seq<char>>) -> Seq<ActionView> {
    match dependency {
        Some(p) => seq![ActionView::Dependency(p)],
        None => seq![],
    }
}

/// The one action, where it is wanted.
pub open spec fn wanted(flag: bool, action: ActionView) -> Seq<ActionView> {
    if flag {
        seq![action]
    } else {
        seq![]
    }
}

/// The numbers that machines of the lab can have.
pub open spec fn machine_in_range(machine: Option<u8>) -> bool {
    machine matches Some(n) ==> 1 <= n <= 20
}

/// What a command line changes on the machine beside its number, in the order in
/// which it is done.
pub open spec fn changes(cli: CliView, tools: Seq<Seq<char>>, envs: Seq<Seq<char>>) -> Seq<
    ActionView,
> {
    wanted(cli.preinstall, ActionView::Preinstall) + tools.map_values(
        |t: Seq<char>| ActionView::Install(t),
    ) + envs.map_values(|t: Seq<char>| ActionView::RecreateEnv(t)) + cli.add_user.map_values(|u: Seq<char>| ActionView::AddUser(u)) + dependency_actions(
        cli.dependency,
    )
}

/// All that a command line asks for, in the order in which it is done. The machine
/// number comes first. Asking for the status prints it and is the end of the run.
/// There is nothing to do where a tool name is unknown or the machine number is out
/// of range.
pub open spec fn plan(cli: CliView) -> Result<Seq<ActionView>, Seq<char>> {
    match resolved(cli.install) {
        Err(e) => Err(e),
        Ok(tools) => match resolved(cli.recreate_env) {
            Err(e) => Err(e),
            Ok(envs) => if !machine_in_range(cli.machine) {
                Err("--machine must be between 1 and 20, got "@ + decimal(cli.machine->0 as nat))
            } else if cli.status {
                Ok(machine_actions(cli.machine) + seq![ActionView::ShowStatus])
            } else {
                Ok(machine_actions(cli.machine) + changes(cli, tools, envs))
            },
        },
    }
}

/// The model of a plan.
pub open spec fn plan_view(r: Result<Vec<Action>, String>) -> Result<Seq<ActionView>, Seq<char>> {
    match r {
        Ok(v) => Ok(action_views(v@)),
        Err(e) => Err(e@),
    }
}

fn followed_by(v: Vec<Action>, a: Action) -> (r: Vec<Action>)
    ensures
        action_views(r@) == action_views(v@).push(a@),
{
    let mut r = v;
    let ghost before = action_views(r@);
    let ghost last = a@;
    r.push(a);
    assert(action_views(r@) =~= before.push(last));
    r
}

fn then_install(v: Vec<Action>, tools: &Vec<String>) -> (r: Vec<Action>)
    ensures
        action_views(r@) == action_views(v@) + texts(tools@).map_values(
            |t: Seq<char>| ActionView::Install(t),
        ),
{
    let mut r = v;
    let mut i: usize = 0;
    let ghost start = action_views(r@);
    let ghost acts = texts(tools@).map_values(|t: Seq<char>| ActionView::Install(t));
    assert(start + acts.take(0) =~= start);
    while i < tools.len()
        invariant
            i <= tools@.len(),
            acts == texts(tools@).map_values(|t: Seq<char>| ActionView::Install(t)),
            action_views(r@) == start + acts.take(i as int),
        decreases tools.len() - i,
    {
        r = followed_by(r, Action::Install(tools[i].clone()));
        assert(action_views(r@) =~= start + acts.take(i + 1));
        i += 1;
    }
    assert(acts.take(i as int) =~= acts);
    r
}

fn then_envs(v: Vec<Action>, tools: &Vec<String>) -> (r: Vec<Action>)
    ensures
        action_views(r@) == action_views(v@) + texts(tools@).map_values(
            |t: Seq<char>| ActionView::RecreateEnv(t),
        ),
{
    let mut r = v;
    let mut i: usize = 0;
    let ghost start = action_views(r@);
    let ghost acts = texts(tools@).map_values(|t: Seq<char>| ActionView::RecreateEnv(t));
    assert(start + acts.take(0) =~= start);
    while i < tools.len()
        invariant
            i <= tools@.len(),
            acts == texts(tools@).map_values(|t: Seq<char>| ActionView::RecreateEnv(t)),
            action_views(r@) == start + acts.take(i as int),
        decreases tools.len() - i,
    {
        r = followed_by(r, Action::RecreateEnv(tools[i].clone()));
        assert(action_views(r@) =~= start + acts.take(i + 1));
        i += 1;
    }
    assert(acts.take(i as int) =~= acts);
    r
}

fn then_users(v: Vec<Action>, users: &Vec<String>) -> (r: Vec<Action>)
    ensures
        action_views(r@) == action_views(v@) + texts(users@).map_values(
            |u: Seq<char>| ActionView::AddUser(u),
        ),
{
    let mut r = v;
    let mut i: usize = 0;
    let ghost start = action_views(r@);
    let ghost acts = texts(users@).map_values(|u: Seq<char>| ActionView::AddUser(u));
    assert(start + acts.take(0) =~= start);
    while i < users.len()
        invariant
            i <= users@.len(),
            acts == texts(users@).map_values(|u: Seq<char>| ActionView::AddUser(u)),
            action_views(r@) == start + acts.take(i as int),
        decreases users.len() - i,
    {
        r = followed_by(r, Action::AddUser(users[i].clone()));
        assert(action_views(r@) =~= start + acts.take(i + 1));
        i += 1;
    }
    assert(acts.take(i as int) =~= acts);
    r
}

/// All that the command line asks for, in the order in which it is done.
pub fn plan_run(cli: &Cli) -> (r: Result<Vec<Action>, String>)
    ensures
        plan_view(r) == plan(cli@),
{
    let tools = match resolve_tool_names(&cli.install) {
        Ok(v) => v,
        Err(e) => {
            return Err(e);
        },
    };
    let envs = match resolve_tool_names(&cli.recreate_env) {
        Ok(v) => v,
        Err(e) => {
            return Err(e);
        },
    };
    let mut r: Vec<Action> = Vec::new();
    assert(action_views(r@) =~= seq![]);
    if let Some(n) = cli.machine {
        if n < 1 || n > 20 {
            return Err(
                "--machine must be between 1 and 20, got ".to_owned().concat(
                    decimal_text(n as u64).as_str(),
                ),
            );
        }
        r = followed_by(r, Action::SetMachine(n));
    }
    assert(action_views(r@) =~= machine_actions(cli@.machine));
    let ghost first = action_views(r@);
    if cli.status {
        r = followed_by(r, Action::ShowStatus);
        assert(action_views(r@) =~= first + seq![ActionView::ShowStatus]);
        return Ok(r);
    }
    if cli.preinstall {
        r = followed_by(r, Action::Preinstall);
    }
    r = then_install(r, &tools);
    r = then_envs(r, &envs);
    r = then_users(r, &cli.add_user);
    if let Some(p) = &cli.dependency {
        r = followed_by(r, Action::Dependency(p.clone()));
    }
    assert(action_views(r@) =~= first + changes(cli@, texts(tools@), texts(envs@)));
    Ok(r)
}

/// The machine number is set before anything else is done.
pub proof fn law_machine_number_comes_first(cli: CliView)
    requires
        plan(cli) is Ok,
        cli.machine is Some,
    ensures
        plan(cli)->Ok_0.len() > 0,
        plan(cli)->Ok_0[0] == ActionView::SetMachine(cli.machine->0),
        forall|i: int|
            0 < i < plan(cli)->Ok_0.len() ==> !(#[trigger] plan(cli)->Ok_0[i] is SetMachine),
{
    let tools = resolved(cli.install)->Ok_0;
    let envs = resolved(cli.recreate_env)->Ok_0;
    assert forall|i: int| 0 < i < plan(cli)->Ok_0.len() implies !(#[trigger] plan(
        cli,
    )->Ok_0[i] is SetMachine) by {
        if !cli.status {
            assert(plan(cli)->Ok_0[i] == changes(cli, tools, envs)[i - 1]);
        }
    }
}

/// Asking for the status shows it and does nothing else beside setting the machine
/// number.
pub proof fn law_status_changes_nothing(cli: CliView)
    requires
        plan(cli) is Ok,
        cli.status,
    ensures
        plan(cli)->Ok_0.last() == ActionView::ShowStatus,
        forall|i: int|
            0 <= i < plan(cli)->Ok_0.len() - 1 ==> #[trigger] plan(cli)->Ok_0[i] is SetMachine,
{
}

proof fn lemma_resolved_len(raw: Seq<Seq<char>>)
    requires
        resolved(raw) is Ok,
    ensures
        resolved(raw)->Ok_0.len() >= raw.len(),
        raw.len() == 0 ==> resolved(raw)->Ok_0.len() == 0,
    decreases raw.len(),
{
    if raw.len() > 0 {
        lemma_resolved_len(raw.drop_last());
    }
}

/// Each tool that is to be installed is one action, whatever parts it comes in.
pub proof fn law_each_tool_is_one_action(cli: CliView, tools: Seq<Seq<char>>, i: int)
    requires
        plan(cli) is Ok,
        !cli.status,
        resolved(cli.install) == Ok::<Seq<Seq<char>>, Seq<char>>(tools),
        0 <= i < tools.len(),
    ensures
        plan(cli)->Ok_0.contains(ActionView::Install(tools[i])),
        crate::install::install_runs(tools[i]) is Ok,
{
    let before = machine_actions(cli.machine) + wanted(cli.preinstall, ActionView::Preinstall);
    let k = before.len() as int + i;
    tool_names::law_resolved_names_are_known(cli.install);
    assert(known_tools().contains(tools[i]));
    assert(plan(cli)->Ok_0[k] == ActionView::Install(tools[i]));
}

/// A command line that is taken at all has a plan without actions if and only if it
/// has no flags.
pub proof fn law_every_flag_does_something(cli: CliView)
    requires
        plan(cli) is Ok,
    ensures
        plan(cli)->Ok_0.len() == 0 <==> cli == no_flags(),
{
    let tools = resolved(cli.install)->Ok_0;
    let envs = resolved(cli.recreate_env)->Ok_0;
    lemma_resolved_len(cli.install);
    lemma_resolved_len(cli.recreate_env);
    if plan(cli)->Ok_0.len() == 0 {
        assert(cli.install =~= seq![]);
        assert(cli.recreate_env =~= seq![]);
        assert(cli.add_user =~= seq![]);
    }
}

} // verus!
