use rssq::config::Platform;
use rssq::tui::open::{launch, plan, Launch};

fn command(program: &str, args: &[&str]) -> Launch {
    Launch::Command {
        program: program.to_string(),
        args: args.iter().map(|a| a.to_string()).collect(),
    }
}

#[test]
fn an_empty_opener_leaves_it_to_the_system() {
    assert_eq!(launch(Platform::Other, "", "http://x"), Launch::System("http://x".to_string()));
    assert_eq!(launch(Platform::Other, "  \t ", "http://x"), Launch::System("http://x".to_string()));
    assert_eq!(launch(Platform::Windows, "", "http://x"), Launch::System("http://x".to_string()));
}

#[test]
fn a_bare_program_gets_the_link_as_its_argument() {
    assert_eq!(launch(Platform::Other, "xdg-open", "http://x"), command("xdg-open", &["http://x"]));
    assert_eq!(launch(Platform::MacOs, " open ", "http://x"), command("open", &["http://x"]));
}

#[test]
fn arguments_are_passed_on_and_the_link_is_appended() {
    assert_eq!(
        launch(Platform::Other, "firefox --new-tab  --private", "http://x"),
        command("firefox", &["--new-tab", "--private", "http://x"])
    );
}

#[test]
fn the_placeholder_is_replaced_by_the_link() {
    assert_eq!(
        launch(Platform::Other, "browser --url %u --quiet", "http://x"),
        command("browser", &["--url", "http://x", "--quiet"])
    );
    assert_eq!(
        launch(Platform::Other, "browser %u %u", "http://x"),
        command("browser", &["http://x", "http://x"])
    );
}

#[test]
fn a_placeholder_inside_a_word_is_no_placeholder() {
    assert_eq!(
        launch(Platform::Other, "browser --url=%u", "http://x"),
        command("browser", &["--url=%u", "http://x"])
    );
}

#[test]
fn a_placeholder_as_program_is_no_placeholder() {
    assert_eq!(launch(Platform::Other, "%u", "http://x"), command("%u", &["http://x"]));
}

#[test]
fn start_goes_through_the_command_interpreter_on_windows() {
    assert_eq!(
        launch(Platform::Windows, "start", "http://x"),
        command("cmd", &["/c", "start", "", "http://x"])
    );
}

#[test]
fn start_is_an_ordinary_program_elsewhere() {
    assert_eq!(launch(Platform::Other, "start", "http://x"), command("start", &["http://x"]));
    assert_eq!(launch(Platform::MacOs, "start", "http://x"), command("start", &["http://x"]));
}

#[test]
fn only_the_exact_opener_start_is_special_on_windows() {
    assert_eq!(launch(Platform::Windows, "start ", "http://x"), command("start", &["http://x"]));
    assert_eq!(
        launch(Platform::Windows, "start /b", "http://x"),
        command("start", &["/b", "http://x"])
    );
}

#[test]
fn plan_works_on_the_words_it_is_given() {
    let words = |list: &[&str]| list.iter().map(|s| s.to_string()).collect::<Vec<String>>();
    assert_eq!(plan(Platform::Other, "ignored", words(&[]), "u"), Launch::System("u".to_string()));
    assert_eq!(plan(Platform::Other, "p", words(&["p"]), "u"), command("p", &["u"]));
    assert_eq!(
        plan(Platform::Other, "p a %u b", words(&["p", "a", "%u", "b"]), "u"),
        command("p", &["a", "u", "b"])
    );
    assert_eq!(
        plan(Platform::Windows, "start", words(&["start"]), "u"),
        command("cmd", &["/c", "start", "", "u"])
    );
}
