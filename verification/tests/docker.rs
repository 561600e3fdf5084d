use rtk_core::commands::docker::DockerModule;
use rtk_core::commands::CommandModule;
use rtk_core::Context;

#[test]
fn test_docker_logs() {
    let module = DockerModule::new();
    let input = "Container starting...\nContainer starting...\nContainer starting...\n";
    let result = module
        .compress(
            input,
            &Context {
                cwd: "/tmp".to_string(),
                exit_code: 0,
                tool: "bash".to_string(),
                session_id: None,
                command: Some("docker logs".to_string()),
            },
        )
        .unwrap();

    assert!(result.contains("occurrences"));
}
