use wl_mitmproxy::listen::candidate_socket;
use wl_mitmproxy::socket::{
    candidate_socket_name, default_proxy_socket_name, resolve_fixed_socket, resolve_socket_spec,
};
use wl_mitmproxy::text::{decimal_text, same_text, signed_decimal_text};

#[test]
fn default_name_follows_the_display() {
    assert_eq!(default_proxy_socket_name("wayland-0"), "wayland-0-proxy");
    assert_eq!(default_proxy_socket_name("wayland-1"), "wayland-1-proxy");
}

#[test]
fn default_name_of_a_display_path_uses_its_last_component() {
    assert_eq!(default_proxy_socket_name("/run/user/1000/wayland-7"), "wayland-7-proxy");
    assert_eq!(default_proxy_socket_name("sub/dir/"), "dir-proxy");
}

#[test]
fn default_name_falls_back_without_a_component() {
    for display in ["", "/", "..", ".", "a/..", "//"] {
        assert_eq!(default_proxy_socket_name(display), "wayland-0-proxy", "{display:?}");
    }
}

#[test]
fn relative_spec_lies_in_the_runtime_directory() {
    let socket = resolve_socket_spec(b"/run/user/1000", "wayland-mitmproxy");
    assert_eq!(socket.display_value, "wayland-mitmproxy");
    assert_eq!(socket.listen_path, b"/run/user/1000/wayland-mitmproxy");
}

#[test]
fn absolute_spec_is_its_own_path() {
    let socket = resolve_socket_spec(b"/run/user/1000", "/tmp/proxy.sock");
    assert_eq!(socket.display_value, "/tmp/proxy.sock");
    assert_eq!(socket.listen_path, b"/tmp/proxy.sock");
}

#[test]
fn empty_spec_is_the_directory_itself() {
    let socket = resolve_socket_spec(b"/run", "");
    assert_eq!(socket.display_value, "");
    assert_eq!(socket.listen_path, b"/run/");
}

#[test]
fn fixed_socket_prefers_the_given_name() {
    let given = resolve_fixed_socket(b"/run", "wayland-0", &Some("mine".to_string()));
    assert_eq!(given.listen_path, b"/run/mine");
    let default = resolve_fixed_socket(b"/run", "wayland-0", &None);
    assert_eq!(default.display_value, "wayland-0-proxy");
    assert_eq!(default.listen_path, b"/run/wayland-0-proxy");
}

#[test]
fn candidates_count_up() {
    assert_eq!(candidate_socket_name("wayland-0-proxy", 0), "wayland-0-proxy");
    assert_eq!(candidate_socket_name("wayland-0-proxy", 1), "wayland-0-proxy-1");
    assert_eq!(candidate_socket_name("wayland-0-proxy", 42), "wayland-0-proxy-42");
    assert_eq!(candidate_socket_name("", 4294967294), "-4294967294");
}

#[test]
fn candidate_sockets_lie_in_the_runtime_directory() {
    let socket = candidate_socket(b"/run/user/1000", "wayland-0-proxy", 3);
    assert_eq!(socket.display_value, "wayland-0-proxy-3");
    assert_eq!(socket.listen_path, b"/run/user/1000/wayland-0-proxy-3");
}

#[test]
fn candidates_differ() {
    let mut seen = std::collections::BTreeSet::new();
    for index in 0..2000 {
        assert!(seen.insert(candidate_socket(b"/run", "x-1", index).listen_path));
    }
}

#[test]
fn decimal_texts() {
    for value in [0, 1, 9, 10, 99, 100, 101, 4294967295] {
        assert_eq!(decimal_text(value), value.to_string());
    }
    for value in [0, 15, -1, -10, i32::MIN, i32::MAX] {
        assert_eq!(signed_decimal_text(value), value.to_string());
    }
}

#[test]
fn texts_are_compared_exactly() {
    assert!(same_text("xdg_wm_base", "xdg_wm_base"));
    assert!(!same_text("xdg_wm_base", "xdg_wm_bas"));
    assert!(same_text("", ""));
}
