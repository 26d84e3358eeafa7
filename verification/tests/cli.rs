use fzf_dclist::cli::{Action, Cli, Progress};
use fzf_dclist::config::{Config, ServiceConfig};
use fzf_dclist::dockercompose::{Enumeration, Publisher, Record};
use fzf_dclist::fzf::Selection;
use fzf_dclist::Error;

fn record(name: &str, service: &str, state: &str, ports: Option<&[(u16, u16)]>) -> Record {
    Record {
        name: name.to_string(),
        service: service.to_string(),
        state: state.to_string(),
        publishers: ports.map(|ports| {
            ports
                .iter()
                .map(|(target_port, published_port)| Publisher {
                    target_port: *target_port,
                    published_port: *published_port,
                })
                .collect()
        }),
    }
}

/// What the compose tool reports in these tests.
fn containers() -> Enumeration {
    Enumeration::Exited {
        status: Some(0),
        listing: Ok(vec![
            record("example-bar-1", "bar", "exited", None),
            record("example-foo-1", "foo", "running", Some(&[(80, 8080)])),
            record("example-foobar-1", "foobar", "exited", Some(&[(81, 8081), (82, 8082)])),
        ]),
    }
}

/// The configuration document of these tests.
fn config_document() -> Config {
    let mut config = Config::new(Some("default command".to_string()));
    let mut foobar = ServiceConfig::new(Some("default foobar command".to_string()));
    foobar.insert_port(
        "81".to_string(),
        Some("command for foobar:81 => {{exposed_port}}".to_string()),
    );
    foobar.insert_port(
        "82".to_string(),
        Some("command for foobar:82 => {{exposed_port}}".to_string()),
    );
    config.insert_service("foobar".to_string(), foobar);
    config
}

/// What the outside world answers to the steps of a run.
struct World {
    config: Option<Result<Config, String>>,
    services: Enumeration,
    /// The list that the selector must be given, and the status it ends with.
    selector: (String, Option<i32>),
}

/// Carries a run through, step by step, and returns how it ended, with the
/// steps that were taken.
fn run(cli: &Cli, world: World) -> (Result<(), Error>, Vec<String>) {
    let World { mut config, services, selector } = world;
    let mut services = Some(services);
    let mut progress = Progress::new();
    let mut steps = Vec::new();
    loop {
        match cli.execute(&progress) {
            Action::LoadConfig { path } => {
                steps.push(format!("load {}", path));
                progress.config = Some(config.take().expect("the configuration is loaded once"));
            }
            Action::ListServices { program, arguments } => {
                steps.push(format!("list {} {}", program, arguments.join(" ")));
                progress.services = Some(services.take().expect("the services are listed once"));
            }
            Action::Select { program, arguments, input } => {
                steps.push(format!("select {} {}", program, arguments.join(" ")));
                assert!(progress.selection.is_none(), "the selector runs once");
                assert_eq!(selector.0, input);
                progress.selection = Some(Selection::Exited(selector.1));
            }
            Action::Exit(result) => return (result, steps),
        }
    }
}

fn cli(config_path: Option<&str>, docker_compose_path: &str, fzf_path: &str) -> Cli {
    Cli {
        config_path: config_path.map(|path| path.to_string()),
        docker_compose_path: docker_compose_path.to_string(),
        fzf_path: fzf_path.to_string(),
    }
}

const PLAIN_LIST: &str = "foo:80    [running] open http://localhost:8080\n\
                          foobar:81 [exited]  open http://localhost:8081\n\
                          foobar:82 [exited]  open http://localhost:8082";

#[test]
fn cli_execute() {
    let cli = Cli {
        config_path: None,
        docker_compose_path: "testdata/docker-compose-mock".to_string(),
        fzf_path: "testdata/fzf-mock".to_string(),
    };

    let (result, steps) = run(
        &cli,
        World {
            config: None,
            services: containers(),
            selector: (PLAIN_LIST.to_string(), Some(0)),
        },
    );
    result.expect("failed to execute CLI");
    assert_eq!(
        vec![
            "list testdata/docker-compose-mock ps --format json".to_string(),
            "select testdata/fzf-mock --bind enter:execute(eval {3..})+accept".to_string(),
        ],
        steps
    );
}

#[test]
fn cli_execute_with_config() {
    let cli = Cli {
        config_path: Some("testdata/config.toml".to_string()),
        docker_compose_path: "testdata/docker-compose-mock".to_string(),
        fzf_path: "testdata/fzf-mock-with-config".to_string(),
    };

    let (result, steps) = run(
        &cli,
        World {
            config: Some(Ok(config_document())),
            services: containers(),
            selector: (
                "foo:80    [running] default command\n\
                 foobar:81 [exited]  command for foobar:81 => 8081\n\
                 foobar:82 [exited]  command for foobar:82 => 8082"
                    .to_string(),
                Some(0),
            ),
        },
    );
    result.expect("failed to execute CLI");
    assert_eq!(
        vec![
            "load testdata/config.toml".to_string(),
            "list testdata/docker-compose-mock ps --format json".to_string(),
            "select testdata/fzf-mock-with-config --bind enter:execute(eval {3..})+accept"
                .to_string(),
        ],
        steps
    );
}

#[test]
fn cli_fails_when_the_config_cannot_be_loaded() {
    let (result, steps) = run(
        &cli(Some("/tmp/do-not-exist.toml"), "docker-compose", "fzf"),
        World {
            config: Some(Err("No such file or directory (os error 2)".to_string())),
            services: containers(),
            selector: (String::new(), Some(0)),
        },
    );
    assert_eq!(
        Err(Error::Config("No such file or directory (os error 2)".to_string())),
        result
    );
    assert_eq!(vec!["load /tmp/do-not-exist.toml".to_string()], steps);
}

#[test]
fn cli_fails_when_the_services_cannot_be_listed() {
    let (result, steps) = run(
        &cli(None, "docker-compose", "fzf"),
        World {
            config: None,
            services: Enumeration::NotStarted("permission denied".to_string()),
            selector: (String::new(), Some(0)),
        },
    );
    assert_eq!(Err(Error::DockerCompose("permission denied".to_string())), result);
    assert_eq!(vec!["list docker-compose ps --format json".to_string()], steps);
}

#[test]
fn cli_with_an_empty_listing_shows_an_empty_list_and_succeeds() {
    let (result, steps) = run(
        &cli(None, "docker-compose", "fzf"),
        World {
            config: None,
            services: Enumeration::Exited { status: Some(0), listing: Ok(Vec::new()) },
            selector: (String::new(), Some(0)),
        },
    );
    assert_eq!(Ok(()), result);
    assert_eq!(
        vec![
            "list docker-compose ps --format json".to_string(),
            "select fzf --bind enter:execute(eval {3..})+accept".to_string(),
        ],
        steps
    );
}

#[test]
fn cli_succeeds_when_the_selection_is_cancelled() {
    let (result, _) = run(
        &cli(None, "docker-compose", "fzf"),
        World {
            config: None,
            services: containers(),
            selector: (PLAIN_LIST.to_string(), Some(130)),
        },
    );
    assert_eq!(Ok(()), result);
}

#[test]
fn cli_fails_when_the_selector_fails() {
    let (result, _) = run(
        &cli(None, "docker-compose", "fzf"),
        World {
            config: None,
            services: containers(),
            selector: (PLAIN_LIST.to_string(), Some(2)),
        },
    );
    let error = result.unwrap_err();
    assert_eq!(Error::Fzf("fzf exited with code 2".to_string()), error);
    assert_eq!("failed to execute fzf: fzf exited with code 2", error.to_string());
}

#[test]
fn cli_ignores_a_config_that_the_settings_do_not_name() {
    let cli = cli(None, "docker-compose", "fzf");
    let mut progress = Progress::new();
    progress.config = Some(Ok(config_document()));
    progress.services = Some(containers());
    match cli.execute(&progress) {
        Action::Select { program, arguments, input } => {
            assert_eq!("fzf", program);
            assert_eq!(2, arguments.len());
            assert_eq!(PLAIN_LIST, input);
        }
        _ => panic!("unexpected step"),
    }
}

#[test]
fn cli_tells_the_first_failure() {
    let cli = cli(Some("config.toml"), "docker-compose", "fzf");
    let mut progress = Progress::new();
    progress.config = Some(Err("bad document".to_string()));
    progress.services = Some(Enumeration::NotStarted("not found".to_string()));
    progress.selection = Some(Selection::Exited(Some(2)));
    match cli.execute(&progress) {
        Action::Exit(result) => {
            assert_eq!(Err(Error::Config("bad document".to_string())), result)
        }
        _ => panic!("unexpected step"),
    }
    progress.config = Some(Ok(Config::default()));
    match cli.execute(&progress) {
        Action::Exit(result) => {
            assert_eq!(Err(Error::DockerCompose("not found".to_string())), result)
        }
        _ => panic!("unexpected step"),
    }
}
