use abbs::chat::{chat_line, join_notice, transcript};
use abbs::settings::{is_host_key_file, listen_port};
use abbs::user::welcome;

#[test]
fn chat_lines_name_the_speaker() {
    assert_eq!(chat_line("ada", "hello there"), "ada: hello there");
    assert_eq!(chat_line("", ""), ": ");
    assert_eq!(chat_line("zoë", "héllo: x"), "zoë: héllo: x");
}

#[test]
fn joining_is_announced() {
    assert_eq!(join_notice("ada"), "<join> ada");
    assert_eq!(join_notice(""), "<join> ");
}

#[test]
fn transcript_has_a_line_per_message() {
    assert_eq!(transcript(&vec![]), "");
    assert_eq!(transcript(&vec!["one".to_string()]), "one");
    assert_eq!(
        transcript(&vec!["one".to_string(), "two".to_string(), "three".to_string()]),
        "one\ntwo\nthree"
    );
    assert_eq!(transcript(&vec!["".to_string(), "".to_string()]), "\n");
    let messages: Vec<String> = (0..50).map(|i| format!("m{}", i)).collect();
    assert_eq!(transcript(&messages), messages.join("\n"));
}

#[test]
fn greeting_names_the_user() {
    assert_eq!(welcome(Some("ada")), "Welcome to the Future, ada.");
    assert_eq!(welcome(Some("")), "Welcome to the Future, .");
    assert_eq!(welcome(None), "Welcome to the Future");
}

#[test]
fn port_is_the_configured_number_or_the_default() {
    assert_eq!(listen_port(None), 22);
    assert_eq!(listen_port(Some(2222)), 2222);
    assert_eq!(listen_port(Some(0)), 0);
    assert_eq!(listen_port(Some(65535)), 65535);
}

#[test]
fn port_keeps_the_low_sixteen_bits() {
    for number in [65536i64, 65537, 70000, -1, -2, -65535, -65536, -65537, i64::MAX, i64::MIN] {
        assert_eq!(listen_port(Some(number)), number as u16, "{}", number);
    }
}

#[test]
fn host_keys_are_told_by_their_name() {
    assert!(is_host_key_file("ssh_host_rsa_key"));
    assert!(is_host_key_file("ssh_host_"));
    assert!(is_host_key_file("ssh_host_ed25519_key.pub"));
    assert!(!is_host_key_file("ssh_host"));
    assert!(!is_host_key_file("my_ssh_host_key"));
    assert!(!is_host_key_file("SSH_HOST_key"));
    assert!(!is_host_key_file(""));
    assert!(!is_host_key_file("ssh_hôst_key"));
}
