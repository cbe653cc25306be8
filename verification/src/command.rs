//! What an operation does to a host, written down as actions for the caller to carry out.

use crate::mapping::Text;
use vstd::prelude::*;

verus! {

/// A place in the file system.
#[derive(Debug, PartialEq, Eq)]
pub enum Location {
    /// A path that starts at the root.
    Absolute(String),
    /// A path below the user's home directory.
    Home(String),
}

/// What a `Location` holds.
pub enum LocationView {
    Absolute(Text),
    Home(Text),
}

impl DeepView for Location {
    type V = LocationView;

    open spec fn deep_view(&self) -> LocationView {
        match self {
            Location::Absolute(path) => LocationView::Absolute(path@),
            Location::Home(path) => LocationView::Home(path@),
        }
    }
}

impl View for Location {
    type V = LocationView;

    open spec fn view(&self) -> LocationView {
        self.deep_view()
    }
}

/// An argument of a command.
#[derive(Debug, PartialEq, Eq)]
pub enum Arg {
    /// The text itself.
    Text(String),
    /// The path of the place.
    Path(Location),
}

/// What an `Arg` holds.
pub enum ArgView {
    Text(Text),
    Path(LocationView),
}

impl DeepView for Arg {
    type V = ArgView;

    open spec fn deep_view(&self) -> ArgView {
        match self {
            Arg::Text(text) => ArgView::Text(text@),
            Arg::Path(place) => ArgView::Path(place.deep_view()),
        }
    }
}

impl View for Arg {
    type V = ArgView;

    open spec fn view(&self) -> ArgView {
        self.deep_view()
    }
}

/// A program to run, with its arguments.
#[derive(Debug, PartialEq, Eq)]
pub struct Command {
    /// The program.
    pub program: String,
    /// Its arguments, in order.
    pub args: Vec<Arg>,
    /// What to say of a failure to run it, if anything.
    pub context: Option<String>,
    /// Whether the program is looked up in the user's own directories of programs too.
    pub local_path: bool,
}

/// What a `Command` holds.
#[verifier::ext_equal]
pub struct CommandView {
    pub program: Text,
    pub args: Seq<ArgView>,
    pub context: Option<Text>,
    pub local_path: bool,
}

impl DeepView for Command {
    type V = CommandView;

    open spec fn deep_view(&self) -> CommandView {
        CommandView {
            program: self.program@,
            args: self.args.deep_view(),
            context: self.context.deep_view(),
            local_path: self.local_path,
        }
    }
}

impl View for Command {
    type V = CommandView;

    open spec fn view(&self) -> CommandView {
        self.deep_view()
    }
}

/// One thing for the caller to do. A failure ends the operation.
#[derive(Debug, PartialEq, Eq)]
pub enum Action {
    /// Fail unless the user's home directory is known.
    RequireHome,
    /// Run the command; fail if it fails.
    Run(Command),
    /// Create the directory and those above it; on failure, say `context`, if anything.
    CreateDir { path: Location, context: Option<String> },
    /// Print the line.
    Print(String),
    /// Do `then` where the place exists, `otherwise` where it does not.
    IfExists { path: Location, then: Vec<Action>, otherwise: Vec<Action> },
    /// Fail with the message.
    Fail(String),
}

/// What an `Action` holds.
#[verifier::ext_equal]
pub enum ActionView {
    RequireHome,
    Run(CommandView),
    CreateDir { path: LocationView, context: Option<Text> },
    Print(Text),
    IfExists { path: LocationView, then: Seq<ActionView>, otherwise: Seq<ActionView> },
    Fail(Text),
}

impl DeepView for Action {
    type V = ActionView;

    open spec fn deep_view(&self) -> ActionView
        decreases self,
    {
        match self {
            Action::RequireHome => ActionView::RequireHome,
            Action::Run(command) => ActionView::Run(command.deep_view()),
            Action::CreateDir { path, context } => ActionView::CreateDir {
                path: path.deep_view(),
                context: context.deep_view(),
            },
            Action::Print(line) => ActionView::Print(line@),
            Action::IfExists { path, then, otherwise } => ActionView::IfExists {
                path: path.deep_view(),
                then: action_views(then@),
                otherwise: action_views(otherwise@),
            },
            Action::Fail(message) => ActionView::Fail(message@),
        }
    }
}

impl View for Action {
    type V = ActionView;

    open spec fn view(&self) -> ActionView {
        self.deep_view()
    }
}

/// The views of `actions`, in order.
pub open spec fn action_views(actions: Seq<Action>) -> Seq<ActionView>
    decreases actions,
{
    if actions.len() == 0 {
        Seq::empty()
    } else {
        action_views(actions.drop_last()).push(actions.last().deep_view())
    }
}

/// `action_views` gives each action's view at the action's place.
pub proof fn lemma_action_views(actions: Seq<Action>)
    ensures
        action_views(actions).len() == actions.len(),
        forall|i: int| 0 <= i < actions.len() ==> action_views(actions)[i] == actions[i].deep_view(),
    decreases actions.len(),
{
    reveal_with_fuel(action_views, 2);
    if actions.len() > 0 {
        lemma_action_views(actions.drop_last());
    }
}

/// The arguments that are the texts `texts`.
pub open spec fn text_args(texts: Seq<Text>) -> Seq<ArgView> {
    Seq::new(texts.len(), |i: int| ArgView::Text(texts[i]))
}

/// Running `program` with the texts `args` as its arguments.
pub open spec fn invoke(program: Text, args: Seq<Text>, context: Option<Text>) -> ActionView {
    ActionView::Run(CommandView { program, args: text_args(args), context, local_path: true })
}

/// Running `program`, looked up in the system's directories of programs only.
pub open spec fn invoke_plainly(program: Text, args: Seq<Text>, context: Option<Text>) -> ActionView {
    ActionView::Run(CommandView { program, args: text_args(args), context, local_path: false })
}

/// Running `script` in a shell.
pub open spec fn shell(script: Text, context: Option<Text>) -> ActionView {
    invoke("bash"@, seq!["-c"@, script], context)
}

/// Doing `then` where `path` exists, `otherwise` where it does not.
pub open spec fn branch(path: LocationView, then: Seq<ActionView>, otherwise: Seq<ActionView>) -> ActionView {
    ActionView::IfExists { path, then, otherwise }
}

/// The arguments that are the texts `texts`.
pub fn args_of(texts: &[&str]) -> (args: Vec<Arg>)
    ensures
        args.deep_view() == text_args(texts.deep_view()),
{
    let mut args: Vec<Arg> = Vec::new();
    let mut i: usize = 0;
    while i < texts.len()
        invariant
            i <= texts.len(),
            args.len() == i,
            forall|j: int| 0 <= j < i ==> args[j].deep_view() == ArgView::Text(texts[j]@),
        decreases texts.len() - i,
    {
        args.push(Arg::Text(texts[i].to_owned()));
        i += 1;
    }
    assert(args.deep_view() =~= text_args(texts.deep_view()));
    args
}

/// The arguments that are the texts `texts`.
pub fn args_of_strings(texts: &Vec<String>) -> (args: Vec<Arg>)
    ensures
        args.deep_view() == text_args(texts.deep_view()),
{
    let mut args: Vec<Arg> = Vec::new();
    let mut i: usize = 0;
    while i < texts.len()
        invariant
            i <= texts.len(),
            args.len() == i,
            forall|j: int| 0 <= j < i ==> args[j].deep_view() == ArgView::Text(texts[j]@),
        decreases texts.len() - i,
    {
        args.push(Arg::Text(texts[i].clone()));
        i += 1;
    }
    assert(args.deep_view() =~= text_args(texts.deep_view()));
    args
}

/// The action that runs `program` with `args`.
pub fn run(program: &str, args: &[&str]) -> (action: Action)
    ensures
        action.deep_view() == invoke(program@, args.deep_view(), None),
{
    Action::Run(
        Command { program: program.to_owned(), args: args_of(args), context: None, local_path: true },
    )
}

/// The action that runs `program` with `args`, and says `context` of a failure to run it.
pub fn run_or(program: &str, args: &[&str], context: &str) -> (action: Action)
    ensures
        action.deep_view() == invoke(program@, args.deep_view(), Some(context@)),
{
    Action::Run(
        Command {
            program: program.to_owned(),
            args: args_of(args),
            context: Some(context.to_owned()),
            local_path: true,
        },
    )
}

/// The action that runs `program` with `args`, looked up in the system's directories only.
pub fn run_plainly_or(program: &str, args: &[&str], context: &str) -> (action: Action)
    ensures
        action.deep_view() == invoke_plainly(program@, args.deep_view(), Some(context@)),
{
    Action::Run(
        Command {
            program: program.to_owned(),
            args: args_of(args),
            context: Some(context.to_owned()),
            local_path: false,
        },
    )
}

/// The action that runs `program` with the arguments `args`.
pub fn run_with(program: &str, args: Vec<Arg>, context: Option<String>) -> (action: Action)
    ensures
        action.deep_view() == ActionView::Run(
            CommandView {
                program: program@,
                args: args.deep_view(),
                context: context.deep_view(),
                local_path: true,
            },
        ),
{
    Action::Run(Command { program: program.to_owned(), args, context, local_path: true })
}

/// The arguments `-c` and `script`, with which a shell runs the script.
fn script_args(script: &str) -> (args: Vec<Arg>)
    ensures
        args.deep_view() == text_args(seq!["-c"@, script@]),
{
    let mut args: Vec<Arg> = Vec::new();
    args.push(Arg::Text("-c".to_owned()));
    args.push(Arg::Text(script.to_owned()));
    assert(args.deep_view() =~= text_args(seq!["-c"@, script@]));
    args
}

/// The action that runs `script` in a shell.
pub fn bash(script: &str) -> (action: Action)
    ensures
        action.deep_view() == shell(script@, None),
{
    run_with("bash", script_args(script), None)
}

/// The action that runs `script` in a shell, and says `context` of a failure to run it.
pub fn bash_or(script: &str, context: &str) -> (action: Action)
    ensures
        action.deep_view() == shell(script@, Some(context@)),
{
    run_with("bash", script_args(script), Some(context.to_owned()))
}

/// The action that does `then` where `path` exists, `otherwise` where it does not.
pub fn if_exists(path: Location, then: Vec<Action>, otherwise: Vec<Action>) -> (action: Action)
    ensures
        action.deep_view() == branch(path.deep_view(), then.deep_view(), otherwise.deep_view()),
{
    proof {
        lemma_action_views(then@);
        lemma_action_views(otherwise@);
        assert(action_views(then@) =~= then.deep_view());
        assert(action_views(otherwise@) =~= otherwise.deep_view());
    }
    Action::IfExists { path, then, otherwise }
}

/// The place at the absolute path `path`.
pub fn absolute(path: &str) -> (place: Location)
    ensures
        place.deep_view() == LocationView::Absolute(path@),
{
    Location::Absolute(path.to_owned())
}

/// The place at `path` below the user's home directory.
pub fn in_home(path: &str) -> (place: Location)
    ensures
        place.deep_view() == LocationView::Home(path@),
{
    Location::Home(path.to_owned())
}

} // verus!
