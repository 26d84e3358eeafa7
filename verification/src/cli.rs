//! A run from its settings to its end, as a sequence of steps: each step is
//! decided here and carried out by the caller.

use crate::config::{Config, ConfigView};
use crate::dockercompose::{
    listed, listing_arguments, Enumeration, EnumerationView, ServiceView,
};
use crate::error::{Error, ErrorView};
use crate::fzf::{
    concluded, ended_normally, format_commands, result_view, selector_arguments, Selection,
    SelectionView,
};
use crate::list::{
    all_determined, display_lines, lemma_shown_determined, lemma_shown_empty, resolved, shows,
};
use crate::text::joined;
use vstd::prelude::*;
use vstd::string::*;

verus! {

/// The settings of a run: the paths of the two binaries, and the path of the
/// configuration document, if there is one.
pub struct Cli {
    pub docker_compose_path: String,
    pub fzf_path: String,
    pub config_path: Option<String>,
}

/// What a run has learned so far. A run starts with nothing learned; the
/// caller notes down what came of each step it carried out.
pub struct Progress {
    /// What came of loading the configuration document: the configuration,
    /// or why it could not be read or decoded.
    pub config: Option<Result<Config, String>>,
    /// What came of running the compose tool.
    pub services: Option<Enumeration>,
    /// What came of running the selector.
    pub selection: Option<Selection>,
}

/// The next step of a run.
pub enum Action {
    /// Read and decode the configuration document at `path`.
    LoadConfig { path: String },
    /// Run `program` with `arguments`, and decode what it prints.
    ListServices { program: String, arguments: Vec<String> },
    /// Run `program` with `arguments`, write `input` to it, and wait for it
    /// to end.
    Select { program: String, arguments: Vec<String>, input: String },
    /// The run is over, with this result.
    Exit(Result<(), Error>),
}

/// A [`Cli`] as plain values.
pub struct CliView {
    pub docker_compose_path: Seq<char>,
    pub fzf_path: Seq<char>,
    pub config_path: Option<Seq<char>>,
}

/// A [`Progress`] as plain values.
pub struct ProgressView {
    pub config: Option<Result<ConfigView, Seq<char>>>,
    pub services: Option<EnumerationView>,
    pub selection: Option<SelectionView>,
}

/// An [`Action`] as plain values.
pub enum ActionView {
    LoadConfig { path: Seq<char> },
    ListServices { program: Seq<char>, arguments: Seq<Seq<char>> },
    Select { program: Seq<char>, arguments: Seq<Seq<char>>, input: Seq<char> },
    Exit(Result<(), ErrorView>),
}

impl View for Cli {
    type V = CliView;

    open spec fn view(&self) -> CliView {
        CliView {
            docker_compose_path: self.docker_compose_path@,
            fzf_path: self.fzf_path@,
            config_path: self.config_path.deep_view(),
        }
    }
}

impl View for Progress {
    type V = ProgressView;

    open spec fn view(&self) -> ProgressView {
        ProgressView {
            config: match self.config {
                Some(Ok(config)) => Some(Ok(config@)),
                Some(Err(reason)) => Some(Err(reason@)),
                None => None,
            },
            services: match self.services {
                Some(run) => Some(run@),
                None => None,
            },
            selection: match self.selection {
                Some(selection) => Some(selection@),
                None => None,
            },
        }
    }
}

impl View for Action {
    type V = ActionView;

    open spec fn view(&self) -> ActionView {
        match *self {
            Action::LoadConfig { path } => ActionView::LoadConfig { path: path@ },
            Action::ListServices { program, arguments } => ActionView::ListServices {
                program: program@,
                arguments: arguments.deep_view(),
            },
            Action::Select { program, arguments, input } => ActionView::Select {
                program: program@,
                arguments: arguments.deep_view(),
                input: input@,
            },
            Action::Exit(result) => ActionView::Exit(result_view(result)),
        }
    }
}

/// The configuration that names no template.
pub open spec fn no_config() -> ConfigView {
    ConfigView { command: None, services: Map::empty() }
}

/// The configuration under which the run resolves commands: the one that
/// was loaded, where the settings name a document; else the one that names
/// no template.
pub open spec fn config_in_use(cli: CliView, progress: ProgressView) -> ConfigView {
    match (cli.config_path, progress.config) {
        (Some(_), Some(Ok(config))) => config,
        _ => no_config(),
    }
}

/// The next step of a run with these settings that has learned this much,
/// where the templates of all ports are determined. The steps come in a
/// fixed order, and the first failure ends the run: load the configuration,
/// if the settings name a document; list the services; show the list that
/// is made of them and let the user select; end with what came of the
/// selection.
pub open spec fn next_step(cli: CliView, progress: ProgressView) -> ActionView {
    if cli.config_path is Some && progress.config is None {
        ActionView::LoadConfig { path: cli.config_path->0 }
    } else if cli.config_path is Some && progress.config->0 is Err {
        ActionView::Exit(Err(ErrorView::Config(progress.config->0->Err_0)))
    } else if progress.services is None {
        ActionView::ListServices {
            program: cli.docker_compose_path,
            arguments: listing_arguments(),
        }
    } else if listed(progress.services->0) is Err {
        ActionView::Exit(Err(listed(progress.services->0)->Err_0))
    } else if progress.selection is None {
        ActionView::Select {
            program: cli.fzf_path,
            arguments: selector_arguments(),
            input: joined(
                display_lines(
                    resolved(config_in_use(cli, progress), listed(progress.services->0)->Ok_0),
                ),
            ),
        }
    } else {
        ActionView::Exit(concluded(progress.selection->0))
    }
}

/// `action` can be the next step of a run with these settings that has
/// learned this much. It is the step that [`next_step`] tells, but that
/// where the list is shown the list is one that the services can be shown
/// as: one list where the templates of all ports are determined.
pub open spec fn is_next_step(cli: CliView, progress: ProgressView, action: ActionView) -> bool {
    match next_step(cli, progress) {
        ActionView::Select { program, arguments, input } => {
            &&& action is Select
            &&& action->Select_program == program
            &&& action->Select_arguments == arguments
            &&& exists|shown: Seq<Seq<char>>| #[trigger]
                shows(config_in_use(cli, progress), listed(progress.services->0)->Ok_0, shown)
                    && action->Select_input == joined(shown)
        },
        step => action == step,
    }
}

/// The templates of all ports that the run has learned of are determined.
pub open spec fn run_determined(cli: CliView, progress: ProgressView) -> bool {
    progress.services matches Some(run) ==> (listed(run) matches Ok(services) ==> all_determined(
        config_in_use(cli, progress),
        services,
    ))
}

/// Where the templates of all ports are determined a run has one next
/// step.
pub proof fn lemma_step_determined(cli: CliView, progress: ProgressView, action: ActionView)
    requires
        run_determined(cli, progress),
        is_next_step(cli, progress, action),
    ensures
        action == next_step(cli, progress),
{
    if next_step(cli, progress) is Select {
        let config = config_in_use(cli, progress);
        let services = listed(progress.services->0)->Ok_0;
        let shown = choose|shown: Seq<Seq<char>>| #[trigger]
            shows(config, services, shown) && action->Select_input == joined(shown);
        lemma_shown_determined(config, services, shown);
    }
}

/// A run that finds no service shows an empty list, and ends as the
/// selector does: without failure where the selector ends normally.
pub proof fn lemma_empty_listing(cli: CliView, progress: ProgressView, action: ActionView)
    requires
        cli.config_path is Some ==> progress.config matches Some(Ok(_)),
        progress.services matches Some(run) && listed(run) == Ok::<_, ErrorView>(
            Seq::<ServiceView>::empty(),
        ),
        is_next_step(cli, progress, action),
    ensures
        progress.selection is None ==> action == (ActionView::Select {
            program: cli.fzf_path,
            arguments: selector_arguments(),
            input: Seq::<char>::empty(),
        }),
        progress.selection matches Some(SelectionView::Exited(status)) && ended_normally(status)
            ==> action == ActionView::Exit(Ok(())),
{
    let config = config_in_use(cli, progress);
    let services = Seq::<ServiceView>::empty();
    assert(resolved(config, services).len() == 0);
    if progress.selection is None {
        let shown = choose|shown: Seq<Seq<char>>| #[trigger]
            shows(config, services, shown) && action->Select_input == joined(shown);
        lemma_shown_empty(config, services, shown);
        assert(action->Select_input =~= Seq::<char>::empty());
    }
}

/// No step is taken twice: what a run has learned it does not ask for
/// again. And a run that has learned what came of each of its steps is
/// over.
pub proof fn lemma_steps_once(cli: CliView, progress: ProgressView, action: ActionView)
    requires
        is_next_step(cli, progress, action),
    ensures
        progress.config is Some ==> !(action is LoadConfig),
        progress.services is Some ==> !(action is ListServices),
        progress.selection is Some ==> !(action is Select),
        (cli.config_path is Some ==> progress.config is Some) && progress.services is Some
            && progress.selection is Some ==> action is Exit,
{
}

impl Progress {
    /// The progress of a run that has not started.
    pub fn new() -> (progress: Self)
        ensures
            progress@ == (ProgressView { config: None, services: None, selection: None }),
    {
        Progress { config: None, services: None, selection: None }
    }
}

impl Cli {
    /// The next step of the run, given what it has learned so far.
    pub fn execute(&self, progress: &Progress) -> (action: Action)
        ensures
            is_next_step(self@, progress@, action@),
            run_determined(self@, progress@) ==> action@ == next_step(self@, progress@),
    {
        let fallback = Config::default();
        let config = match &self.config_path {
            Some(path) => match &progress.config {
                None => {
                    return Action::LoadConfig { path: path.clone() };
                },
                Some(Err(reason)) => {
                    return Action::Exit(Err(Error::Config(reason.clone())));
                },
                Some(Ok(config)) => config,
            },
            None => &fallback,
        };
        assert(config@ == config_in_use(self@, progress@));
        let compose = crate::dockercompose::Command::new(self.docker_compose_path.as_str());
        let run = match &progress.services {
            None => {
                return Action::ListServices {
                    program: self.docker_compose_path.clone(),
                    arguments: compose.arguments(),
                };
            },
            Some(run) => run,
        };
        let services = match compose.list_services(run) {
            Err(error) => {
                return Action::Exit(Err(error));
            },
            Ok(services) => services,
        };
        let fzf = crate::fzf::Command::new(self.fzf_path.as_str());
        match &progress.selection {
            None => {
                let shown = format_commands(config, services.as_slice());
                Action::Select {
                    program: self.fzf_path.clone(),
                    arguments: fzf.arguments(),
                    input: fzf.input(shown.as_slice()),
                }
            },
            Some(selection) => Action::Exit(fzf.execute(selection)),
        }
    }
}

} // verus!
