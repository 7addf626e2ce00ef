use client_core::container::{
    check_services_health, check_services_started, check_status_unavailable, is_service_running,
    start_attempts, DockerManager, ServiceConfig, ServiceInfo, ServiceStatus, StartCheck, YamlNode,
};
use client_core::DuckError;
use std::path::{Path, PathBuf};
use std::io::Write;
use tempfile::{tempdir, NamedTempFile};

fn create_dummy_compose_file(dir: &Path) -> PathBuf {
    let compose_file = dir.join("docker-compose.yml");
    let mut f = NamedTempFile::new_in(dir).unwrap();
    f.write_all(
        br#"
version: '3.8'
services:
  test-service:
    image: nginx:alpine
    ports:
      - "8080:80"
"#,
    )
    .unwrap();
    f.persist(&compose_file).unwrap();
    compose_file
}

#[test]
fn test_docker_manager_creation() {
    let dir = tempdir().unwrap();
    let compose_file = create_dummy_compose_file(dir.path());

    let manager = DockerManager::new(compose_file.to_str().unwrap()).unwrap();
    assert_eq!(Path::new(manager.get_compose_file()), compose_file);
}

#[test]
fn test_docker_manager_with_nonexistent_file() {
    let result = DockerManager::new("/nonexistent/docker-compose.yml");
    assert!(result.is_ok());

    let manager = result.unwrap();
    assert!(!manager.compose_file_exists());
}

#[test]
fn test_service_info_parsing() {
    let manager = DockerManager::new("test").unwrap();

    let json_output = r#"{"Name":"test_service_1","State":"running","Image":"nginx:alpine","Ports":"0.0.0.0:8080->80/tcp"}
{"Name":"test_db_1","State":"exited","Image":"postgres:13","Ports":""}"#;

    let services = manager.parse_service_info(json_output).unwrap();
    assert_eq!(services.len(), 2);
    assert_eq!(services[0].name, "test_service_1");
    assert_eq!(services[0].status, ServiceStatus::Running);
    assert_eq!(services[1].status, ServiceStatus::Stopped);
}

#[test]
fn existing_compose_file_is_found() {
    let dir = tempdir().unwrap();
    let compose_file = create_dummy_compose_file(dir.path());
    let manager = DockerManager::new(compose_file.to_str().unwrap()).unwrap();
    assert!(manager.compose_file_exists());
    assert_eq!(
        manager.get_working_directory().unwrap(),
        dir.path().to_str().unwrap()
    );
}

#[test]
fn working_directory_of_bare_and_root_paths() {
    let m = DockerManager::new("docker-compose.yml").unwrap();
    assert_eq!(m.get_working_directory(), Some(String::new()));
    let root = DockerManager::new("/").unwrap();
    assert_eq!(root.get_working_directory(), None);
}

#[test]
fn service_lines_skip_blank_and_broken_ones() {
    let m = DockerManager::new("x").unwrap();
    let out = "\n  \nnot json\r\n{\"Name\":\"web\",\"State\":\"paused\",\"Ports\":\" a:1 , ,b:2 \"}\r\n{\"State\":\"stopped\"}\n";
    let services = m.parse_service_info(out).unwrap();
    assert_eq!(services.len(), 2);
    assert_eq!(services[0].name, "web");
    assert_eq!(services[0].status, ServiceStatus::Unknown);
    assert_eq!(services[0].image, "unknown");
    assert_eq!(services[0].ports, vec!["a:1".to_string(), "b:2".to_string()]);
    assert_eq!(services[1].name, "unknown");
    assert_eq!(services[1].status, ServiceStatus::Stopped);
    assert!(services[1].ports.is_empty());
    assert!(m.parse_service_info("   \n ").unwrap().is_empty());
}

fn svc(name: &str, status: ServiceStatus) -> ServiceInfo {
    ServiceInfo { name: name.to_string(), status, image: "img".to_string(), ports: vec![] }
}

#[test]
fn restart_policy_decides_before_the_name() {
    let m = DockerManager::new("x").unwrap();
    let no = Ok(ServiceConfig { restart: Some("no".to_string()) });
    let always = Ok(ServiceConfig { restart: Some("always".to_string()) });
    let other = Ok(ServiceConfig { restart: Some("sometimes".to_string()) });
    let failed: Result<ServiceConfig, DuckError> = Err(DuckError::Docker("x".to_string()));
    assert!(m.is_oneshot_service(&no, "web"));
    assert!(!m.is_oneshot_service(&always, "db-init"));
    assert!(m.is_oneshot_service(&other, "DB-Migrate"));
    assert!(m.is_oneshot_service(&failed, "minio-init"));
    assert!(!m.is_oneshot_service(&failed, "web"));
}

fn yaml_node(v: &serde_yaml::Value) -> YamlNode {
    if let Some(m) = v.as_mapping() {
        YamlNode::Mapping(
            m.iter()
                .map(|(k, v)| {
                    let key = match k {
                        serde_yaml::Value::String(s) => Some(s.clone()),
                        _ => None,
                    };
                    (key, yaml_node(v))
                })
                .collect(),
        )
    } else if let Some(s) = v.as_str() {
        YamlNode::Text(s.to_string())
    } else {
        YamlNode::Other
    }
}

fn parse(text: &str) -> Result<YamlNode, String> {
    serde_yaml::from_str::<serde_yaml::Value>(text).map(|v| yaml_node(&v)).map_err(|e| e.to_string())
}

#[test]
fn compose_restart_policies_are_read() {
    let m = DockerManager::new("x").unwrap();
    let yaml = "services:\n  web:\n    restart: always\n  job:\n    image: x\n";
    let c = m.service_config_from_yaml(&parse(yaml), "web").unwrap();
    assert_eq!(c.restart.as_deref(), Some("always"));
    let j = m.service_config_from_yaml(&parse(yaml), "job").unwrap();
    assert_eq!(j.restart, None);
    match m.service_config_from_yaml(&parse(yaml), "nope") {
        Err(DuckError::Docker(msg)) => assert_eq!(msg, "找不到服务: nope"),
        _ => panic!("expected a missing service"),
    }
    match m.service_config_from_yaml(&parse("version: 3\n"), "web") {
        Err(DuckError::Docker(msg)) => assert_eq!(msg, "compose文件中没有services部分"),
        _ => panic!("expected no services"),
    }
    match m.service_config_from_yaml(&parse("services: [\n"), "web") {
        Err(DuckError::Docker(msg)) => assert!(msg.starts_with("解析compose文件失败: ")),
        _ => panic!("expected a parse error"),
    }
    // A restart value that is not text, and keys that are not text, are
    // not read.
    let odd = "services:\n  web:\n    restart: 5\n  1: {restart: no}\n";
    assert_eq!(m.service_config_from_yaml(&parse(odd), "web").unwrap().restart, None);
    match m.service_config_from_yaml(&parse("services: []\n"), "web") {
        Err(DuckError::Docker(msg)) => assert_eq!(msg, "找不到服务: web"),
        _ => panic!("expected a missing service"),
    }
}

#[test]
fn health_names_services_not_running() {
    assert!(matches!(check_services_health(&vec![]), Err(DuckError::Docker(m)) if m == "没有找到任何服务"));
    let all = vec![svc("a", ServiceStatus::Running), svc("b", ServiceStatus::Running)];
    assert!(check_services_health(&all).is_ok());
    let some = vec![
        svc("a", ServiceStatus::Running),
        svc("b", ServiceStatus::Stopped),
        svc("c", ServiceStatus::Unknown),
    ];
    match check_services_health(&some) {
        Err(DuckError::Docker(m)) => assert_eq!(m, "部分服务未在运行: b, c"),
        _ => panic!("expected an error"),
    }
    assert!(is_service_running(&some, "a"));
    assert!(!is_service_running(&some, "b"));
    assert!(!is_service_running(&some, "zzz"));
}

#[test]
fn start_checks_wait_then_fail_on_the_last_attempt() {
    let services = vec![
        svc("web", ServiceStatus::Running),
        svc("init", ServiceStatus::Stopped),
        svc("db", ServiceStatus::Stopped),
        svc("cache", ServiceStatus::Unknown),
    ];
    let oneshot = vec![false, true, false, false];
    assert_eq!(check_services_started(&services, &oneshot, 1, 3).unwrap(), StartCheck::Wait);
    match check_services_started(&services, &oneshot, 3, 3) {
        Err(DuckError::Docker(m)) => {
            assert_eq!(m, "服务启动验证失败: 启动失败的服务: db; 启动超时的服务: cache")
        }
        _ => panic!("expected a failure"),
    }
    let done = vec![svc("web", ServiceStatus::Running), svc("init", ServiceStatus::Stopped)];
    assert_eq!(check_services_started(&done, &vec![false, true], 3, 3).unwrap(), StartCheck::Started);
    assert_eq!(check_services_started(&vec![], &vec![], 1, 3).unwrap(), StartCheck::Started);
    assert_eq!(check_status_unavailable("boom", 1, 2).unwrap(), StartCheck::Wait);
    match check_status_unavailable("boom", 2, 2) {
        Err(DuckError::Docker(m)) => assert_eq!(m, "无法获取服务状态: boom"),
        _ => panic!("expected a failure"),
    }
    assert_eq!(start_attempts(60, 5), 12);
    assert_eq!(start_attempts(3, 5), 1);
}

#[test]
fn compose_command_lines() {
    let m = DockerManager::new("/srv/docker-compose.yml").unwrap();
    assert_eq!(
        m.compose_subcommand_args(&vec!["up", "-d"]),
        vec!["compose", "-f", "/srv/docker-compose.yml", "up", "-d"]
    );
    assert_eq!(
        m.compose_standalone_args(&vec!["down"]),
        vec!["-f", "/srv/docker-compose.yml", "down"]
    );
    assert_eq!(m.logs_args(Some("web"), Some(100)), vec!["logs", "--tail", "100", "web"]);
    assert_eq!(m.logs_args(None, None), vec!["logs"]);
}
