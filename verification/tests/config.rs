use fzf_dclist::config::{
    command_text, is_single_valued, leads_back, Config, ServiceConfig, DEFAULT_TEMPLATE,
    PARTIAL_FAILURE, PLACEHOLDER,
};

fn foobar(default: Option<&str>, port_81: &str, port_82: &str) -> ServiceConfig {
    let mut service = ServiceConfig::new(default.map(|command| command.to_string()));
    service.insert_port("81".to_string(), Some(port_81.to_string()));
    service.insert_port("82".to_string(), Some(port_82.to_string()));
    service
}

fn full_config() -> Config {
    let mut config = Config::new(Some("default command".to_string()));
    config.insert_service(
        "foobar".to_string(),
        foobar(
            Some("default foobar command"),
            "command for foobar:81 => {{exposed_port}}",
            "command for foobar:82 => {{exposed_port}}",
        ),
    );
    config
}

#[test]
fn config_from_toml() {
    let config = full_config();

    assert_eq!(
        "default command",
        config.render("unknown-service", 8080, 10001),
        "undefined service should rely on default command"
    );

    assert_eq!(
        "command for foobar:81 => 10002",
        config.render("foobar", 81, 10002),
        "defined service/port port should use specific command"
    );

    assert_eq!(
        "command for foobar:82 => 10003",
        config.render("foobar", 82, 10003),
        "defined service/port port should use specific command"
    );

    assert_eq!(
        "default foobar command",
        config.render("foobar", 1000, 10003),
        "unknown port should fallback on default service command"
    );
}

#[test]
fn config_from_toml_no_default() {
    let mut config = Config::new(None);
    config.insert_service(
        "foobar".to_string(),
        foobar(None, "command for foobar:81", "command for foobar:82"),
    );

    assert_eq!(
        "open http://localhost:10001",
        config.render("unknown-service", 8080, 10001),
        "undefined service and no default command should return none"
    );

    assert_eq!(
        "command for foobar:81",
        config.render("foobar", 81, 10002),
        "defined service/port port should use specific command"
    );

    assert_eq!(
        "command for foobar:82",
        config.render("foobar", 82, 10003),
        "defined service/port port should use specific command"
    );
}

#[test]
fn config_from_toml_unparsable_command() {
    let config = Config::new(Some("open {{exposed_port".to_string()));

    assert_eq!(
        "Failed to parse template.",
        config.render("unknown-service", 8080, 10001),
        "unparsable command should display error"
    );
}

#[test]
fn resolution_example() {
    let mut config = Config::new(Some("default command".to_string()));
    let mut service = ServiceConfig::new(Some("default foobar command".to_string()));
    service.insert_port("81".to_string(), Some("command for foobar:81".to_string()));
    config.insert_service("foobar".to_string(), service);

    assert_eq!(Some("command for foobar:81"), config.command_template("foobar", 81));
    assert_eq!(Some("default foobar command"), config.command_template("foobar", 1000));
    assert_eq!(Some("default command"), config.command_template("unknown-service", 8080));
}

#[test]
fn default_config_renders_the_url_of_the_port() {
    let config = Config::default();
    assert_eq!(None, config.command_template("foo", 80));
    assert_eq!("open http://localhost:8080", config.render("foo", 80, 8080));
}

#[test]
fn default_template_opens_the_local_url() {
    assert_eq!("open http://localhost:{{exposed_port}}", DEFAULT_TEMPLATE);
}

#[test]
fn port_override_wins_over_service_default() {
    let mut config = Config::new(Some("global".to_string()));
    let mut service = ServiceConfig::new(Some("service".to_string()));
    service.insert_port("80".to_string(), Some("port".to_string()));
    config.insert_service("web".to_string(), service);
    assert_eq!(Some("port"), config.command_template("web", 80));
}

#[test]
fn service_default_wins_over_global_default() {
    let mut config = Config::new(Some("global".to_string()));
    config.insert_service(
        "web".to_string(),
        ServiceConfig::new(Some("service".to_string())),
    );
    assert_eq!(Some("service"), config.command_template("web", 80));
}

#[test]
fn global_default_wins_over_builtin() {
    let mut config = Config::new(Some("global".to_string()));
    config.insert_service("web".to_string(), ServiceConfig::new(None));
    assert_eq!(Some("global"), config.command_template("web", 80));
    assert_eq!("global", config.render("web", 80, 8080));
}

#[test]
fn port_without_command_falls_through() {
    let mut config = Config::new(Some("global".to_string()));
    let mut service = ServiceConfig::new(Some("service".to_string()));
    service.insert_port("80".to_string(), None);
    config.insert_service("web".to_string(), service);
    assert_eq!(Some("service"), config.command_template("web", 80));

    let mut config = Config::new(Some("global".to_string()));
    let mut service = ServiceConfig::new(None);
    service.insert_port("80".to_string(), None);
    config.insert_service("web".to_string(), service);
    assert_eq!(Some("global"), config.command_template("web", 80));
}

#[test]
fn port_is_looked_up_by_its_decimal_name() {
    let mut config = Config::new(None);
    let mut service = ServiceConfig::new(None);
    service.insert_port("080".to_string(), Some("padded".to_string()));
    service.insert_port("8080".to_string(), Some("plain".to_string()));
    config.insert_service("web".to_string(), service);
    assert_eq!(None, config.command_template("web", 80));
    assert_eq!(Some("plain"), config.command_template("web", 8080));
}

#[test]
fn port_of_another_service_does_not_apply() {
    let mut config = Config::new(None);
    let mut service = ServiceConfig::new(None);
    service.insert_port("80".to_string(), Some("port".to_string()));
    config.insert_service("web".to_string(), service);
    assert_eq!(None, config.command_template("db", 80));
    assert_eq!("open http://localhost:1", config.render("db", 80, 1));
}

#[test]
fn insert_replaces_what_was_there() {
    let mut config = Config::new(None);
    config.insert_service("web".to_string(), ServiceConfig::new(Some("old".to_string())));
    config.insert_service("web".to_string(), ServiceConfig::new(Some("new".to_string())));
    assert_eq!(Some("new"), config.command_template("web", 80));

    let mut service = ServiceConfig::new(None);
    service.insert_port("80".to_string(), Some("old".to_string()));
    service.insert_port("80".to_string(), Some("new".to_string()));
    config.insert_service("db".to_string(), service);
    assert_eq!(Some("new"), config.command_template("db", 80));
}

#[test]
fn render_twice_gives_the_same_command() {
    let config = full_config();
    let first = config.render("foobar", 81, 10002);
    let second = config.render("foobar", 81, 10002);
    assert_eq!(first, second);
}

#[test]
fn template_without_placeholder_renders_unchanged() {
    for template in [
        "plain",
        "",
        " ",
        " \t\r\n ",
        "  lead and trail  ",
        "a { b } c",
        "}} {",
        "{ {",
        "{",
        "back\\slash",
        "curl -s localhost > /dev/null",
    ] {
        let config = Config::new(Some(template.to_string()));
        assert_eq!(template, config.render("web", 80, 8080));
    }
}

#[test]
fn placeholder_is_replaced_by_the_exposed_port() {
    let config = Config::new(Some("curl localhost:{{exposed_port}}/health".to_string()));
    assert_eq!("curl localhost:65535/health", config.render("web", 80, 65535));
    assert_eq!("curl localhost:0/health", config.render("web", 80, 0));
}

#[test]
fn command_text_shows_the_rendering_or_the_failure() {
    assert_eq!("rendered", command_text(Ok("rendered".to_string())));
    assert_eq!("went wrong", command_text(Err("went wrong".to_string())));
}

#[test]
fn template_that_may_lead_back_into_itself_is_not_rendered() {
    for template in [
        "{{#> missing}}fallback{{/missing}}",
        "{{ \t~ # > missing}}",
        "{{~#>missing}}x{{/missing}}",
        "{{#*inline \"a\"}}x{{> a}}{{/inline}}{{> a}}",
        "{{#*inline \"a\"}}x{{/inline}}{{> a}}",
        "{{> a}}{{* inline}}",
    ] {
        assert!(leads_back(template), "{}", template);
        let config = Config::new(Some(template.to_string()));
        assert_eq!(
            "Inline partials and partial blocks are not supported.",
            config.render("web", 80, 8080)
        );
        assert_eq!(PARTIAL_FAILURE, config.render("web", 80, 8080));
    }
}

#[test]
fn template_with_an_unknown_partial_renders_without_it() {
    for (template, expected) in [
        ("{{> missing}}", ""),
        ("open {{>missing}} now", "open  now"),
        ("{{~> missing}}{{exposed_port}}", "8080"),
        ("{{> missing exposed_port}}.", "."),
    ] {
        assert!(!leads_back(template), "{}", template);
        let config = Config::new(Some(template.to_string()));
        assert_eq!(expected, config.render("web", 80, 8080), "{}", template);
    }
}

#[test]
fn template_that_cannot_lead_back_is_rendered() {
    for template in [
        "",
        ">",
        "{>",
        "{ {> a",
        "{{exposed_port}} > out",
        "{{exposed_port}}>",
        "{{#if exposed_port}}>{{/if}}",
        "{{x > y",
        "a > b {{exposed_port}}",
        "{{> a}}",
        "{{#*inline \"a\"}}x{{/inline}}",
        "{{*inline}} > {{#if x}}>{{/if}}",
        "open http://localhost:{{exposed_port}}",
    ] {
        assert!(!leads_back(template), "{}", template);
    }
    let config = Config::new(Some("{{exposed_port}} > out".to_string()));
    assert_eq!("8080 > out", config.render("web", 80, 8080));
    let config = Config::new(Some("{{#if exposed_port}}>{{/if}}".to_string()));
    assert_eq!(">", config.render("web", 80, 8080));
    let config = Config::new(Some("{{#*inline \"a\"}}x{{/inline}}y".to_string()));
    assert_eq!("y", config.render("web", 80, 8080));
}

#[test]
fn template_is_single_valued_without_two_named_arguments() {
    for template in [
        "",
        "=",
        "a=1 b=2",
        "{{",
        "}}",
        "}} a=1 b=2 {{",
        "a=1 b=2 {{exposed_port}}",
        "open http://localhost:{{exposed_port}}/?a=1&b=2",
        "a=1 {{exposed_port}} b=2",
        "a=1 {{log x=exposed_port}} b=2",
        "x={{exposed_port}}&y={{exposed_port}}",
        "{{=}}",
        "{{{=}}",
        "{{=}",
        "{=1 =2}}",
        "open http://localhost:{{exposed_port}}",
    ] {
        assert!(is_single_valued(template), "{}", template);
    }
    for template in [
        "{{log a=(foo 1) b=(bar 1)}}",
        "{{==}}",
        "{{= =}}",
        "{{{==}}",
        "{{a}}=1&b=2{{b}}",
        "{{x a=1}}{{y b=2}}",
        "{{ = }} = }}",
        "{{ {{ = = }}",
    ] {
        assert!(!is_single_valued(template), "{}", template);
    }
}

#[test]
fn template_with_two_failing_named_arguments_shows_one_of_the_failures() {
    let template = "{{log a=(foo 1) b=(bar 1)}}";
    assert!(!is_single_valued(template));
    let config = Config::new(Some(template.to_string()));
    for _ in 0..20 {
        let command = config.render("web", 80, 8080);
        assert!(
            command.ends_with("Helper not defined: Name(\"foo\")")
                || command.ends_with("Helper not defined: Name(\"bar\")"),
            "{}",
            command
        );
    }
}

#[test]
fn placeholder_is_the_exposed_port() {
    assert_eq!("exposed_port", PLACEHOLDER);
    let config = Config::new(Some("{{exposed_port}}{{port}}{{exposed}}".to_string()));
    assert_eq!("8080", config.render("web", 80, 8080));
}

#[test]
fn template_failures_are_shown_as_the_command() {
    let config = Config::new(Some("{{#if}}".to_string()));
    assert_eq!("Failed to parse template.", config.render("web", 80, 8080));
    let config = Config::new(Some("{{unknown_helper exposed_port}}".to_string()));
    assert_eq!(
        "Error rendering \"Unnamed template\" line 1, col 1: Helper not defined: \"unknown_helper\"",
        config.render("web", 80, 8080)
    );
}

#[test]
fn template_can_use_the_port_more_than_once() {
    let config = Config::new(Some("{{exposed_port}}:{{exposed_port}} {{missing}}.".to_string()));
    assert_eq!("8080:8080 .", config.render("web", 80, 8080));
}
