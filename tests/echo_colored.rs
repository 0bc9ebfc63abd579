use script_runner::echo::echo_text;

#[test]
fn echo_is_dimmed_when_colouring_is_on() {
    colored::control::set_override(true);
    assert_eq!(echo_text("exit 7"), "$ \u{1b}[2mexit 7\u{1b}[0m\n\n");
    assert_eq!(echo_text(""), "$ \u{1b}[2m\u{1b}[0m\n\n");
}
