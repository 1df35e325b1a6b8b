use vm_box::shell::{escape_quotes, shell_escape};

#[test]
fn quoting_closes_and_reopens_the_quotes() {
    assert_eq!(shell_escape("plain"), "'plain'");
    assert_eq!(shell_escape(""), "''");
    assert_eq!(shell_escape("it's"), "'it'\\''s'");
    assert_eq!(shell_escape("$HOME `id` \"x\" \\"), "'$HOME `id` \"x\" \\'");
    assert_eq!(shell_escape("a\nb"), "'a\nb'");
    assert_eq!(escape_quotes("''"), "'\\'''\\''");
}

#[test]
fn quoting_agrees_with_a_replacement() {
    for s in ["", "'", "a'b'c", "''''", "no quotes", "ünï'code"] {
        assert_eq!(shell_escape(s), format!("'{}'", s.replace('\'', "'\\''")));
    }
}
