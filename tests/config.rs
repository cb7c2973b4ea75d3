use karaoke_core::config::{parse_env, parse_env_line};

fn pair(k: &str, v: &str) -> (String, String) {
    (k.to_string(), v.to_string())
}

#[test]
fn settings_lines_set_variables_in_order() {
    let text = "# remote\nSUPABASE_URL = \"https://x.example\"\r\n\n  SUPABASE_ANON_KEY='abc=def'\nBROKEN LINE\n=novalue\nEMPTY=\n";
    assert_eq!(
        parse_env(text),
        vec![
            pair("SUPABASE_URL", "https://x.example"),
            pair("SUPABASE_ANON_KEY", "abc=def"),
            pair("EMPTY", ""),
        ]
    );
}

#[test]
fn settings_line_forms() {
    assert_eq!(parse_env_line("  # A=1"), None);
    assert_eq!(parse_env_line("   "), None);
    assert_eq!(parse_env_line("A=1"), Some(pair("A", "1")));
    assert_eq!(parse_env_line(" KEY =  \"'v'\" "), Some(pair("KEY", "v")));
    assert_eq!(parse_env_line("Q=\"\"\""), Some(pair("Q", "")));
    assert_eq!(parse_env_line("no equals"), None);
    assert!(parse_env("").is_empty());
}

#[test]
fn settings_last_line_without_newline() {
    assert_eq!(parse_env("A=1\r\nB=2"), vec![pair("A", "1"), pair("B", "2")]);
    assert_eq!(parse_env("\n\nC='x'\r"), vec![pair("C", "x")]);
}
