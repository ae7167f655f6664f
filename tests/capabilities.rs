use ddtank_rs::{
    base_url, cookie_declarations_of, cookie_tool_args, cookie_tool_result, hex_lower, launch_target, md5_hex,
    trimmed, CapabilityError, LaunchTarget,
};

#[test]
fn cookie_string_is_split_and_trimmed() {
    assert_eq!(cookie_declarations_of("x=1; y=2"), vec!["x=1".to_string(), "y=2".to_string()]);
}

#[test]
fn malformed_cookie_does_not_drop_others() {
    let d = cookie_declarations_of("x=1; y=2;  ;garbage");
    assert_eq!(d, vec!["x=1".to_string(), "y=2".to_string(), String::new(), "garbage".to_string()]);
}

#[test]
fn empty_cookie_string_gives_one_empty_piece() {
    assert_eq!(cookie_declarations_of(""), vec![String::new()]);
    assert_eq!(cookie_declarations_of(";"), vec![String::new(), String::new()]);
}

#[test]
fn trim_removes_unicode_white_space() {
    assert_eq!(trimmed("  a b \t"), "a b");
    assert_eq!(trimmed("\u{3000}x=1\u{A0}\n"), "x=1");
    assert_eq!(trimmed(" \t "), "");
    assert_eq!(trimmed("é"), "é");
}

#[test]
fn base_url_uses_given_host() {
    assert_eq!(base_url("https", "b.example"), "https://b.example/");
    assert_eq!(base_url("http", "10.0.0.1"), "http://10.0.0.1/");
}

#[test]
fn md5_of_known_inputs() {
    assert_eq!(md5_hex(""), "d41d8cd98f00b204e9800998ecf8427e");
    assert_eq!(md5_hex("abc"), "900150983cd24fb0d6963f7d28e17f72");
}

#[test]
fn hex_is_lowercase_two_digits_per_byte() {
    assert_eq!(hex_lower(&vec![0x0f, 0xa0, 0x00, 0xff]), "0fa000ff");
    assert_eq!(hex_lower(&vec![]), "");
}

#[test]
fn cookie_tool_command_line() {
    assert_eq!(
        cookie_tool_args("https://a.example/", "sid=.*", "Login"),
        vec!["-u", "https://a.example/", "-r", "sid=.*", "-t", "Login"]
            .into_iter()
            .map(|s| s.to_string())
            .collect::<Vec<String>>()
    );
}

#[test]
fn cookie_tool_verdict() {
    assert_eq!(cookie_tool_result(true, "sid=1".to_string()), Ok("sid=1".to_string()));
    assert_eq!(cookie_tool_result(false, "sid=1".to_string()), Err(CapabilityError::ExternalToolFailure));
    assert_eq!(CapabilityError::ExternalToolFailure.message(), "cowv2 exit with no cookie");
    assert_eq!(CapabilityError::NetworkError("timeout".to_string()).message(), "network error: timeout");
}

#[test]
fn launch_target_by_url() {
    assert_eq!(launch_target("https://web.337.com/play"), LaunchTarget::Browser);
    assert_eq!(launch_target("http://s12.example/game.swf"), LaunchTarget::Browser);
    assert_eq!(launch_target("https://s12.example/game.swf"), LaunchTarget::FlashPlayer);
    assert_eq!(launch_target("http://a.example/337.co"), LaunchTarget::FlashPlayer);
    assert_eq!(launch_target(""), LaunchTarget::FlashPlayer);
}
