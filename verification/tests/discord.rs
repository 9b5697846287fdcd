use overbot::discord::trim;
use overbot::discord::DiscordArgs;
use overbot::discord::TokenError;

#[test]
fn command_line_token_wins_and_is_kept_as_it_is() {
    let args = DiscordArgs::new(Some(" abc ".to_string()));
    assert!(!args.needs_file());
    assert_eq!(args.get_token(Some("from file\n"), Some("kept")), Ok(" abc ".to_string()));
    assert_eq!(args.get_token(None, None), Ok(" abc ".to_string()));
}

#[test]
fn file_token_is_trimmed() {
    let args = DiscordArgs::new(None);
    assert!(args.needs_file());
    assert_eq!(args.get_token(Some("  secret.token \r\n"), Some("kept")), Ok("secret.token".to_string()));
    assert_eq!(args.get_token(Some("\n"), None), Ok(String::new()));
}

#[test]
fn no_token_anywhere_is_an_error() {
    let args = DiscordArgs::new(None);
    assert_eq!(args.get_token(None, None), Err(TokenError::Missing));
}

#[test]
fn trim_strips_both_ends_only() {
    assert_eq!(trim(""), "");
    assert_eq!(trim("   "), "");
    assert_eq!(trim("a"), "a");
    assert_eq!(trim(" a b "), "a b");
    assert_eq!(trim("\t\u{a0}x\u{3000}\n"), "x");
    assert_eq!(trim("\u{1680}y z\u{2028}"), "y z");
    assert_eq!(trim("_ _"), "_ _");
    for text in ["", " ", " ab", "ab ", "\n a \t b \r\n", "\u{2003}é\u{2003}"] {
        assert_eq!(trim(text), text.trim());
    }
}

#[test]
fn keyring_secret_is_the_last_resort_and_is_kept_as_it_is() {
    let args = DiscordArgs::new(None);
    assert_eq!(args.get_token(None, Some(" kept \n")), Ok(" kept \n".to_string()));
    assert_eq!(args.get_token(Some("file"), Some("kept")), Ok("file".to_string()));
}

#[test]
fn command_line_token_can_be_taken_back() {
    assert_eq!(DiscordArgs::new(Some("abc".to_string())).into_token(), Some("abc".to_string()));
    assert_eq!(DiscordArgs::new(None).into_token(), None);
}
