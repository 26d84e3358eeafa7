use fzf_dclist::Error;

#[test]
fn error_display_config() {
    let err = Error::Config("some explanation".to_string());
    assert_eq!(
        "failed to read configuration file: some explanation",
        err.to_string()
    )
}

#[test]
fn error_display_docker_compose() {
    let err = Error::DockerCompose("some explanation".to_string());
    assert_eq!(
        "failed to get processes from docker-compose: some explanation",
        err.to_string()
    )
}

#[test]
fn error_display_fzf() {
    let err = Error::Fzf("some explanation".to_string());
    assert_eq!(
        "failed to execute fzf: some explanation",
        err.to_string()
    )
}

#[test]
fn error_display_empty_detail() {
    assert_eq!("failed to execute fzf: ", Error::Fzf(String::new()).to_string());
}

#[test]
fn error_equality_is_by_variant_and_detail() {
    assert_eq!(Error::Config("a".to_string()), Error::Config("a".to_string()));
    assert_ne!(Error::Config("a".to_string()), Error::Config("b".to_string()));
    assert_ne!(Error::Config("a".to_string()), Error::Fzf("a".to_string()));
}
