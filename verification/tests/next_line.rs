use cat::calculate_next_line;
use cat::Opt;

fn new_number_options(number: bool, number_nonblank: bool) -> Opt {
    Opt {
        show_all: false,
        number_nonblank,
        show_ends_and_nonprinting: false,
        show_ends: false,
        number,
        squeeze_blank: false,
        show_tabs: false,
        ignored: false,
        show_nonprinting: false,
        files: Vec::new(),
    }
}

#[test]
fn calculate_next_line_test() {
    let opt = new_number_options(true, false);
    let s = String::from("wow very intersting");
    assert_eq!(calculate_next_line(&s, &opt, 0), 1);
}

#[test]
fn calculate_next_line_with_empty_string_test() {
    let opt = new_number_options(true, false);
    let s = String::from("");
    assert_eq!(calculate_next_line(&s, &opt, 0), 1);
}

#[test]
fn calculate_next_line_with_newline_test() {
    let opt = new_number_options(true, false);
    let s = String::from("\n");
    assert_eq!(calculate_next_line(&s, &opt, 0), 1);
}

#[test]
fn calculate_next_line_number_nonempty_test() {
    let opt = new_number_options(false, true);
    let s = String::from("hello dude so intersting");
    assert_eq!(calculate_next_line(&s, &opt, 0), 1);
}

#[test]
fn calculate_next_line_number_nonempty_with_empty_string_test() {
    let opt = new_number_options(false, true);
    let s = String::from("");
    assert_eq!(calculate_next_line(&s, &opt, 0), 0);
}

#[test]
fn calculate_next_line_number_nonempty_overrides_regular_test() {
    let opt = new_number_options(true, true);
    let s = String::from("");
    assert_eq!(calculate_next_line(&s, &opt, 0), 0);
}

#[test]
fn calculate_next_line_number_nonempty_overrides_fullstring_test() {
    let opt = new_number_options(true, true);
    let s = String::from("wow this is just so intersting");
    assert_eq!(calculate_next_line(&s, &opt, 0), 1);
}
