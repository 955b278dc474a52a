use ship::config::{CommandBehaviour, CommandBehaviours, Config};
use ship::images::{DockerError, Image};
use ship::tui::external_command::{CommandError, ExternalCommand};
use ship::utils::paths::{config_file_in, config_path, project_dirs, state_file_in, state_path, PathError};

#[test]
fn successful_output_is_read_as_text() {
    let out = ExternalCommand::sh("echo hi", true, b"hi\n".to_vec(), b"warn".to_vec());
    assert_eq!(out.ok(), Some("hi\n".to_string()));
}

#[test]
fn failed_commands_carry_their_error_stream() {
    match ExternalCommand::sh("false", false, Vec::new(), b"oops".to_vec()) {
        Err(CommandError::Unsuccessful { command, stderr }) => {
            assert_eq!(command, "false");
            assert_eq!(stderr, "oops");
        },
        _ => panic!("unsuccessful"),
    }
    let e = ExternalCommand::sh("false", false, Vec::new(), Vec::new()).err().unwrap();
    assert_eq!(e.message(), "Unsuccessful command \"false\"");
}

#[test]
fn output_that_is_not_utf8_is_an_error() {
    assert!(matches!(ExternalCommand::sh("x", true, vec![0xff, 0xfe], Vec::new()), Err(CommandError::InvalidUtf8(_))));
    assert!(matches!(ExternalCommand::sh("x", false, Vec::new(), vec![0xc3]), Err(CommandError::InvalidUtf8(_))));
    let e = ExternalCommand::sh("x", true, vec![0x61, 0xff], Vec::new()).err().unwrap();
    assert_eq!(e.message(), String::from_utf8(vec![0x61, 0xff]).unwrap_err().to_string());
}

#[test]
fn foreground_commands_only_report_failure() {
    assert!(ExternalCommand::shout("true", true).is_ok());
    match ExternalCommand::shout("false", false) {
        Err(e) => assert_eq!(e.message(), "Unsuccessful command \"false\""),
        Ok(_) => panic!("failure"),
    }
}

#[test]
fn docker_error_message() {
    let e = DockerError::CommandError(Some(1), "no daemon".to_string());
    assert_eq!(e.message(), "error calling the docker command, status: Some(1), stderr: \"no daemon\"");
    let e = DockerError::CommandError(None, String::new());
    assert_eq!(e.message(), "error calling the docker command, status: None, stderr: \"\"");
    let e = DockerError::CommandError(Some(-2147483648), "x".to_string());
    assert_eq!(e.message(), format!("error calling the docker command, status: {:?}, stderr: \"x\"", Some(i32::MIN)));
    let img = Image { repository: "r".to_string(), tag: "t".to_string(), id: "i".to_string() };
    assert_eq!(img.repository, "r");
}

#[test]
fn first_configuration_defaults() {
    let c = Config::default();
    assert_eq!(c.project_registries.len(), 0);
    assert_eq!(c.registry_commands.len(), 0);
    assert_eq!(c.command_behaviours.push_image, CommandBehaviour::Interactive);
    assert_eq!(c.command_behaviours.delete_image, CommandBehaviour::Async);
    assert_eq!(CommandBehaviours::default(), c.command_behaviours);
    assert_eq!(CommandBehaviour::default(), CommandBehaviour::Async);
}

#[test]
fn paths_end_in_the_expected_files() {
    match project_dirs() {
        Ok(d) => {
            assert_eq!(d.qualifier, "top");
            assert_eq!(d.organization, "nugs");
            assert_eq!(d.application, "ship");
            let config = config_path().ok().unwrap();
            assert_eq!(config.name, "config.json");
            assert!(config.path.ends_with("config.json"));
            assert!(config_file_in(&d).path.ends_with("config.json"));
            match state_path() {
                Ok(p) => {
                    assert_eq!(p.name, "state.json");
                    assert!(p.path.ends_with("state.json"));
                },
                Err(e) => assert_eq!(e, PathError::NoStateDir),
            }
        },
        Err(e) => {
            assert_eq!(e, PathError::NoProjectDirs);
            assert_eq!(config_path().err(), Some(PathError::NoProjectDirs));
        },
    }
    assert_eq!(PathError::NoStateDir.message(), "failed to locate state directory");
    assert_eq!(PathError::NoProjectDirs.message(), "failed to parse project directories");
}

#[test]
fn the_state_file_lies_in_the_state_directory() {
    assert_eq!(state_file_in(None).err(), Some(PathError::NoStateDir));
    let f = state_file_in(Some(std::path::PathBuf::from("/var/lib/ship"))).ok().unwrap();
    assert_eq!(f.name, "state.json");
    assert_eq!(f.path, std::path::PathBuf::from("/var/lib/ship/state.json"));
}
