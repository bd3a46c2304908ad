use cat::ExitCode;
use cat::Opt;
use cat::State;

fn plain_opt() -> Opt {
    Opt {
        show_all: false,
        number_nonblank: false,
        show_ends_and_nonprinting: false,
        show_ends: false,
        number: false,
        squeeze_blank: false,
        show_tabs: false,
        ignored: false,
        show_nonprinting: false,
        files: Vec::new(),
    }
}

fn same_flags(a: &Opt, b: &Opt) -> bool {
    a.show_all == b.show_all
        && a.number_nonblank == b.number_nonblank
        && a.show_ends_and_nonprinting == b.show_ends_and_nonprinting
        && a.show_ends == b.show_ends
        && a.number == b.number
        && a.squeeze_blank == b.squeeze_blank
        && a.show_tabs == b.show_tabs
        && a.ignored == b.ignored
        && a.show_nonprinting == b.show_nonprinting
        && a.files == b.files
}

#[test]
fn show_all_expands_to_nonprinting_ends_tabs() {
    let mut raw = plain_opt();
    raw.show_all = true;
    let o = Opt::new_with_equivalent_options(raw);
    assert!(o.show_nonprinting);
    assert!(o.show_ends);
    assert!(o.show_tabs);
    assert!(o.show_all);
    assert!(!o.number);
    assert!(!o.squeeze_blank);
}

#[test]
fn show_ends_and_nonprinting_expands_without_tabs() {
    let mut raw = plain_opt();
    raw.show_ends_and_nonprinting = true;
    let o = Opt::new_with_equivalent_options(raw);
    assert!(o.show_nonprinting);
    assert!(o.show_ends);
    assert!(!o.show_tabs);
}

#[test]
fn expansion_is_idempotent() {
    let mut raw = plain_opt();
    raw.show_all = true;
    raw.show_ends_and_nonprinting = true;
    let once = Opt::new_with_equivalent_options(raw);
    let reference = {
        let mut again = plain_opt();
        again.show_all = true;
        again.show_ends_and_nonprinting = true;
        let first = Opt::new_with_equivalent_options(again);
        Opt::new_with_equivalent_options(first)
    };
    assert!(same_flags(&once, &reference));
}

#[test]
fn fast_path_only_without_flags() {
    assert!(plain_opt().should_use_fast_print());
    let mut o = plain_opt();
    o.number = true;
    assert!(!o.should_use_fast_print());
    let mut o = plain_opt();
    o.show_ends = true;
    assert!(!o.should_use_fast_print());
    let mut o = plain_opt();
    o.show_tabs = true;
    assert!(!o.should_use_fast_print());
    let mut o = plain_opt();
    o.show_nonprinting = true;
    assert!(!o.should_use_fast_print());
    let mut o = plain_opt();
    o.show_ends_and_nonprinting = true;
    assert!(!o.should_use_fast_print());
    let mut o = plain_opt();
    o.number_nonblank = true;
    assert!(!o.should_use_fast_print());
    let mut o = plain_opt();
    o.show_all = true;
    assert!(!o.should_use_fast_print());
    let mut o = plain_opt();
    o.squeeze_blank = true;
    assert!(!o.should_use_fast_print());
}

#[test]
fn is_number_option_reflects_numbering_modes() {
    assert!(!plain_opt().is_number_option());
    let mut o = plain_opt();
    o.number = true;
    assert!(o.is_number_option());
    let mut o = plain_opt();
    o.number_nonblank = true;
    assert!(o.is_number_option());
}

#[test]
fn fresh_state_starts_at_line_one() {
    let state = State::new(&plain_opt());
    assert_eq!(state.buffer, "");
    assert!(!state.suppress);
    assert_eq!(state.line, 1);
}

#[test]
fn exit_codes_match_convention() {
    assert_eq!(ExitCode::Success.code(), 0);
    assert_eq!(ExitCode::GeneralError.code(), 1);
    assert_eq!(ExitCode::KilledBySigint.code(), 130);
}
