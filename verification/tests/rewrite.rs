use wl_mitmproxy::config::Cli;
use wl_mitmproxy::error::ProxyError;
use wl_mitmproxy::rewrite::{DisplayProxy, RewriteConfig, XdgToplevelProxy};

fn cli(app_id: Option<&str>, title: Option<&str>) -> Cli {
    Cli {
        app_id: app_id.map(str::to_string),
        title: title.map(str::to_string),
        proxy_socket: None,
        proxy_runtime_dir: None,
        foreground_daemon: false,
        command: vec![],
    }
}

fn toplevel(app_id: Option<&str>, title: Option<&str>) -> XdgToplevelProxy {
    let display = DisplayProxy { rewrite: RewriteConfig::from_cli(&cli(app_id, title)).unwrap() };
    display
        .handle_get_registry()
        .handle_bind("xdg_wm_base")
        .unwrap()
        .handle_get_xdg_surface()
        .handle_get_toplevel()
}

#[test]
fn one_rewrite_option_is_enough() {
    let config = RewriteConfig::from_cli(&cli(Some("firefox_firefox"), None)).unwrap();
    assert_eq!(config.app_id.as_deref(), Some("firefox_firefox"));
    assert_eq!(config.title, None);
    let config = RewriteConfig::from_cli(&cli(None, Some("Firefox"))).unwrap();
    assert_eq!(config.app_id, None);
    assert_eq!(config.title.as_deref(), Some("Firefox"));
}

#[test]
fn a_rewrite_option_is_needed() {
    let error = RewriteConfig::from_cli(&cli(None, None)).unwrap_err();
    assert!(matches!(error, ProxyError::NoRewriteOption));
    assert_eq!(
        error.message(),
        "at least one rewrite option must be supplied: --app-id and/or --title"
    );
}

#[test]
fn app_id_is_replaced() {
    let toplevel = toplevel(Some("firefox_firefox"), None);
    assert_eq!(toplevel.handle_set_app_id("foot"), "firefox_firefox");
    assert_eq!(toplevel.handle_set_title("Terminal"), "Terminal");
}

#[test]
fn title_is_replaced() {
    let toplevel = toplevel(None, Some("Firefox"));
    assert_eq!(toplevel.handle_set_app_id("foot"), "foot");
    assert_eq!(toplevel.handle_set_title("Terminal"), "Firefox");
}

#[test]
fn empty_values_replace_too() {
    let toplevel = toplevel(Some(""), None);
    assert_eq!(toplevel.handle_set_app_id("foot"), "");
}

#[test]
fn only_the_window_interface_is_watched() {
    let display = DisplayProxy { rewrite: RewriteConfig::from_cli(&cli(Some("a"), None)).unwrap() };
    let registry = display.handle_get_registry();
    assert!(registry.handle_bind("xdg_wm_base").is_some());
    for interface in ["wl_compositor", "xdg_wm_bas", "xdg_wm_base2", "", "zxdg_shell_v6"] {
        assert!(registry.handle_bind(interface).is_none(), "{interface:?}");
    }
}

#[test]
fn configuration_is_copied() {
    let config = RewriteConfig::from_cli(&cli(Some("a"), Some("b"))).unwrap();
    let copy = config.clone();
    assert_eq!(copy.app_id.as_deref(), Some("a"));
    assert_eq!(copy.title.as_deref(), Some("b"));
}
