use fedsurf::ua::{
    init_script, platform_of, user_agent, Platform, IPC_ENDPOINT, LINUX_USER_AGENT,
    MACOS_USER_AGENT, TEMPLATE, WINDOWS_IPC_ENDPOINT,
};

#[test]
fn platforms_by_name() {
    assert!(platform_of("macos") == Platform::MacOs);
    assert!(platform_of("windows") == Platform::Windows);
    assert!(platform_of("linux") == Platform::Linux);
    assert!(platform_of("freebsd") == Platform::Other);
}

#[test]
fn user_agents() {
    assert_eq!(user_agent(Platform::MacOs), Some(MACOS_USER_AGENT));
    assert_eq!(user_agent(Platform::Linux), Some(LINUX_USER_AGENT));
    assert_eq!(user_agent(Platform::Windows), None);
    assert!(MACOS_USER_AGENT.contains("Version/17.6 Safari/605.1.15"));
}

#[test]
fn init_script_fills_placeholders() {
    let linux = init_script(Platform::Linux);
    assert_eq!(linux, TEMPLATE.replace("__ENDPOINT__", IPC_ENDPOINT).replace("__IS_MAC__", "false"));
    assert!(linux.contains("var ENDPOINT = 'fedsurf-ipc://localhost/report';"));
    assert!(linux.contains("var IS_MAC = false;"));
    assert!(!linux.contains("__ENDPOINT__") && !linux.contains("__IS_MAC__"));
    let windows = init_script(Platform::Windows);
    assert!(windows.contains(&format!("var ENDPOINT = '{}';", WINDOWS_IPC_ENDPOINT)));
    let mac = init_script(Platform::MacOs);
    assert!(mac.contains("var IS_MAC = true;"));
    assert_eq!(mac.len(), TEMPLATE.len() - "__ENDPOINT__".len() + IPC_ENDPOINT.len() - "__IS_MAC__".len() + 4);
}
