//! The line transformation engine: per-line rewriting (end-of-line marker,
//! leading-tab rendering, line numbering, blank-line squeezing) and its
//! whole-source composition, together with the error-message formatting the
//! caller reports failures with.

use vstd::prelude::*;
use vstd::string::StrSliceExecFns;
use vstd::string::StringExecFns;

use crate::opt::Opt;

verus! {

/// The characters that line trimming removes: the Unicode `White_Space` set.
pub open spec fn is_space_char(c: char) -> bool {
    c == ' ' || c == '\t' || c == '\n' || c == '\r' || c == '\u{b}' || c == '\u{c}'
        || c == '\u{85}' || c == '\u{a0}' || c == '\u{1680}' || (0x2000 <= c as u32 && c as u32
        <= 0x200a) || c == '\u{2028}' || c == '\u{2029}' || c == '\u{202f}' || c == '\u{205f}'
        || c == '\u{3000}'
}

fn is_space(c: char) -> (r: bool)
    ensures
        r == is_space_char(c),
{
    let u: u32 = c as u32;
    u == 0x20 || u == 0x09 || u == 0x0a || u == 0x0d || u == 0x0b || u == 0x0c || u == 0x85 || u
        == 0xa0 || u == 0x1680 || (0x2000 <= u && u <= 0x200a) || u == 0x2028 || u == 0x2029 || u
        == 0x202f || u == 0x205f || u == 0x3000
}

/// A blank line: empty after trimming, that is, every character is
/// whitespace.
pub open spec fn is_blank_seq(s: Seq<char>) -> bool {
    forall|i: int| 0 <= i < s.len() ==> is_space_char(s[i])
}

/// Whether the line is blank (its trimmed content is empty).
pub fn is_blank(s: &str) -> (r: bool)
    ensures
        r == is_blank_seq(s@),
{
    let n: usize = s.unicode_len();
    let mut i: usize = 0;
    while i < n
        invariant
            n == s@.len(),
            i <= n,
            forall|j: int| 0 <= j < i ==> is_space_char(s@[j]),
        decreases n - i,
    {
        let c: char = s.get_char(i);
        if !is_space(c) {
            return false;
        }
        i = i + 1;
    }
    true
}

/// The decimal digit character for `d` (0 through 9).
pub open spec fn digit_char(d: nat) -> char {
    if d == 0 {
        '0'
    } else if d == 1 {
        '1'
    } else if d == 2 {
        '2'
    } else if d == 3 {
        '3'
    } else if d == 4 {
        '4'
    } else if d == 5 {
        '5'
    } else if d == 6 {
        '6'
    } else if d == 7 {
        '7'
    } else if d == 8 {
        '8'
    } else {
        '9'
    }
}

/// The decimal rendering of `n`, most significant digit first, without
/// leading zeros (except for `n == 0`, rendered as `0`).
pub open spec fn decimal_digits(n: nat) -> Seq<char>
    decreases n,
{
    if n < 10 {
        seq![digit_char(n)]
    } else {
        decimal_digits(n / 10).push(digit_char(n % 10))
    }
}

fn digit_str(d: u32) -> (r: &'static str)
    requires
        d < 10,
    ensures
        r@ == seq![digit_char(d as nat)],
{
    proof {
        reveal_strlit("0");
        reveal_strlit("1");
        reveal_strlit("2");
        reveal_strlit("3");
        reveal_strlit("4");
        reveal_strlit("5");
        reveal_strlit("6");
        reveal_strlit("7");
        reveal_strlit("8");
        reveal_strlit("9");
    }
    if d == 0 {
        proof {
            assert("0"@ =~= seq![digit_char(0)]);
        }
        "0"
    } else if d == 1 {
        proof {
            assert("1"@ =~= seq![digit_char(1)]);
        }
        "1"
    } else if d == 2 {
        proof {
            assert("2"@ =~= seq![digit_char(2)]);
        }
        "2"
    } else if d == 3 {
        proof {
            assert("3"@ =~= seq![digit_char(3)]);
        }
        "3"
    } else if d == 4 {
        proof {
            assert("4"@ =~= seq![digit_char(4)]);
        }
        "4"
    } else if d == 5 {
        proof {
            assert("5"@ =~= seq![digit_char(5)]);
        }
        "5"
    } else if d == 6 {
        proof {
            assert("6"@ =~= seq![digit_char(6)]);
        }
        "6"
    } else if d == 7 {
        proof {
            assert("7"@ =~= seq![digit_char(7)]);
        }
        "7"
    } else if d == 8 {
        proof {
            assert("8"@ =~= seq![digit_char(8)]);
        }
        "8"
    } else {
        proof {
            assert("9"@ =~= seq![digit_char(9)]);
        }
        "9"
    }
}

fn u32_digits(x: u32) -> (r: String)
    ensures
        r@ == decimal_digits(x as nat),
    decreases x,
{
    if x < 10 {
        String::from_str(digit_str(x))
    } else {
        let mut r = u32_digits(x / 10);
        r.append(digit_str(x % 10));
        proof {
            assert(r@ =~= decimal_digits((x / 10) as nat).push(digit_char((x % 10) as nat)));
        }
        r
    }
}

/// A run of `k` space characters.
pub open spec fn spaces(k: nat) -> Seq<char> {
    Seq::new(k, |i: int| ' ')
}

/// The numbering field put before a numbered line: the line number in
/// decimal, right-aligned in a five-character field, followed by two
/// spaces.
pub open spec fn number_prefix(n: nat) -> Seq<char> {
    let d = decimal_digits(n);
    if d.len() < 5 {
        spaces((5 - d.len()) as nat) + d + seq![' ', ' ']
    } else {
        d + seq![' ', ' ']
    }
}

fn format_line_number(line: u32) -> (r: String)
    ensures
        r@ == number_prefix(line as nat),
{
    proof {
        reveal_strlit(" ");
        reveal_strlit("  ");
    }
    let d = u32_digits(line);
    let dl: usize = d.as_str().unicode_len();
    let pad: usize = if dl >= 5 {
        0
    } else {
        5 - dl
    };
    let mut r = String::new();
    let mut j: usize = 0;
    proof {
        assert(r@ =~= spaces(0));
    }
    while j < pad
        invariant
            j <= pad,
            r@ == spaces(j as nat),
        decreases pad - j,
    {
        r.append(" ");
        j = j + 1;
        proof {
            reveal_strlit(" ");
            assert(r@ =~= spaces(j as nat));
        }
    }
    r.append(d.as_str());
    r.append("  ");
    proof {
        assert("  "@ =~= seq![' ', ' ']);
        if dl >= 5 {
            assert(spaces(0) + decimal_digits(line as nat) =~= decimal_digits(line as nat));
            assert(r@ =~= number_prefix(line as nat));
        } else {
            assert(r@ =~= number_prefix(line as nat));
        }
    }
    r
}

/// How many lines the line number advances by after a line with content
/// `s`: one when every line is numbered, one for a non-blank line when only
/// non-blank lines are numbered, zero otherwise.
pub open spec fn next_line_number(o: Opt, s: Seq<char>, cur: nat) -> nat {
    if o.number_nonblank {
        if !is_blank_seq(s) {
            cur + 1
        } else {
            cur
        }
    } else if o.number {
        cur + 1
    } else {
        cur
    }
}

/// The line number for the line after one with content `s`, when the
/// current line is `current_line`. Advances for every line under `number`,
/// only for non-blank lines under `number_nonblank` (which takes
/// precedence), and never otherwise.
pub fn calculate_next_line(s: &String, opt: &Opt, current_line: u32) -> (r: u32)
    requires
        current_line < u32::MAX,
    ensures
        r as nat == next_line_number(*opt, s@, current_line as nat),
{
    if opt.number_nonblank {
        if !is_blank(s.as_str()) {
            current_line + 1
        } else {
            current_line
        }
    } else if opt.number {
        current_line + 1
    } else {
        current_line
    }
}

/// The line with the end-of-line marker applied: when `show_ends` is set, a
/// `$` goes immediately before the trailing newline, or at the very end of a
/// final line that has no newline.
pub open spec fn ends_applied(o: Opt, s: Seq<char>) -> Seq<char> {
    if o.show_ends {
        if s.len() > 0 && s[s.len() - 1] == '\n' {
            s.take(s.len() - 1) + seq!['$', '\n']
        } else {
            s + seq!['$']
        }
    } else {
        s
    }
}

/// The line with tab rendering applied: when `show_tabs` is set, a tab at
/// the very start of the line becomes `^I`; tabs elsewhere pass through.
pub open spec fn tabs_applied(o: Opt, s: Seq<char>) -> Seq<char> {
    if o.show_tabs && s.len() > 0 && s[0] == '\t' {
        seq!['^', 'I'] + s.skip(1)
    } else {
        s
    }
}

/// What the engine writes for one source line `s`, given the suppression
/// flag and the current line number. Blankness is judged on the line as it
/// was read, before any marker is inserted. The ordered rules: end marker,
/// tab rendering, then numbering (`number_nonblank` wins over `number`), or
/// else squeezing, which drops a blank line that follows an already tracked
/// blank line.
pub open spec fn transformed_line(o: Opt, s: Seq<char>, suppress: bool, line: nat) -> Seq<char> {
    let t = tabs_applied(o, ends_applied(o, s));
    if o.number_nonblank {
        if !is_blank_seq(s) {
            number_prefix(line) + t
        } else {
            t
        }
    } else if o.number {
        number_prefix(line) + t
    } else if o.squeeze_blank && is_blank_seq(s) && suppress {
        Seq::<char>::empty()
    } else {
        t
    }
}

/// The suppression flag after a line with content `s`: tracked only when
/// squeezing is active and no numbering mode consumed the line; then it is
/// exactly the blankness of `s`.
pub open spec fn next_suppress(o: Opt, s: Seq<char>, suppress: bool) -> bool {
    if !o.number_nonblank && !o.number && o.squeeze_blank {
        is_blank_seq(s)
    } else {
        suppress
    }
}

fn number(s: &mut String, line: u32)
    ensures
        final(s)@ == number_prefix(line as nat) + old(s)@,
{
    let mut t = format_line_number(line);
    t.append(s.as_str());
    *s = t;
}

/// Rewrites one source line in place according to the configuration, and
/// advances the blank-run suppression flag. The buffer holds the line as
/// read (with its trailing newline, if any) and afterwards holds exactly
/// what is to be written for it.
pub fn change_string(s: &mut String, suppress: &mut bool, line: u32, opt: &Opt)
    ensures
        final(s)@ == transformed_line(*opt, old(s)@, *old(suppress), line as nat),
        *final(suppress) == next_suppress(*opt, old(s)@, *old(suppress)),
{
    let blank = is_blank(s.as_str());
    if opt.show_ends {
        let n: usize = s.as_str().unicode_len();
        if n > 0 && s.as_str().get_char(n - 1) == '\n' {
            let mut t = String::from_str(s.as_str().substring_char(0, n - 1));
            t.append("$\n");
            proof {
                reveal_strlit("$\n");
                assert(t@ =~= ends_applied(*opt, old(s)@));
            }
            *s = t;
        } else {
            s.append("$");
            proof {
                reveal_strlit("$");
                assert(s@ =~= ends_applied(*opt, old(s)@));
            }
        }
    }
    let m: usize = s.as_str().unicode_len();
    if opt.show_tabs && m > 0 && s.as_str().get_char(0) == '\t' {
        let mut t = String::from_str("^I");
        t.append(s.as_str().substring_char(1, m));
        proof {
            reveal_strlit("^I");
            assert(t@ =~= tabs_applied(*opt, ends_applied(*opt, old(s)@)));
        }
        *s = t;
    }
    proof {
        assert(s@ =~= tabs_applied(*opt, ends_applied(*opt, old(s)@)));
    }
    if opt.number_nonblank {
        if !blank {
            number(s, line);
        }
    } else if opt.number {
        number(s, line);
    } else if opt.squeeze_blank {
        if blank {
            if *suppress {
                *s = String::new();
            }
            *suppress = true;
        } else {
            *suppress = false;
        }
    }
}

/// The length of the first line of `s`: everything up to and including the
/// first newline, or all of `s` when it holds none.
pub open spec fn line_len(s: Seq<char>) -> nat
    decreases s.len(),
{
    if s.len() == 0 {
        0
    } else if s[0] == '\n' {
        1
    } else {
        1 + line_len(s.skip(1))
    }
}

proof fn lemma_line_len_bounds(s: Seq<char>)
    ensures
        s.len() == 0 ==> line_len(s) == 0,
        s.len() > 0 ==> 1 <= line_len(s) <= s.len(),
    decreases s.len(),
{
    if s.len() > 0 && s[0] != '\n' {
        lemma_line_len_bounds(s.skip(1));
    }
}

proof fn lemma_line_len_of_scan(s: Seq<char>, k: int)
    requires
        0 <= k <= s.len(),
        forall|i: int| 0 <= i < k ==> s[i] != '\n',
        k < s.len() ==> s[k] == '\n',
    ensures
        line_len(s) == if k < s.len() {
            k + 1
        } else {
            k
        },
    decreases k,
{
    if k > 0 {
        assert(s[0] != '\n');
        assert forall|i: int| 0 <= i < k - 1 implies s.skip(1)[i] != '\n' by {
            assert(s.skip(1)[i] == s[i + 1]);
        }
        assert(k - 1 < s.skip(1).len() ==> s.skip(1)[k - 1] == '\n');
        lemma_line_len_of_scan(s.skip(1), k - 1);
    }
}

/// What the engine writes for the remainder `s` of a source, entered with
/// the given line number and suppression flag: the first line transformed,
/// then the rest under the advanced state.
pub open spec fn transform_rest(o: Opt, s: Seq<char>, line: nat, suppress: bool) -> Seq<char>
    decreases s.len(),
        via transform_rest_dec
{
    if s.len() == 0 {
        Seq::<char>::empty()
    } else {
        let k = line_len(s) as int;
        let l = s.take(k);
        transformed_line(o, l, suppress, line) + transform_rest(
            o,
            s.skip(k),
            next_line_number(o, l, line),
            next_suppress(o, l, suppress),
        )
    }
}

#[via_fn]
proof fn transform_rest_dec(o: Opt, s: Seq<char>, line: nat, suppress: bool) {
    if s.len() > 0 {
        lemma_line_len_bounds(s);
    }
}

/// What the engine writes for a whole source with content `s`: every line
/// transformed in order, starting at line number 1 with no blank line
/// tracked.
pub open spec fn transform_content(o: Opt, s: Seq<char>) -> Seq<char> {
    transform_rest(o, s, 1, false)
}

fn find_line_end(s: &str, pos: usize) -> (r: usize)
    requires
        pos <= s@.len(),
    ensures
        pos <= r <= s@.len(),
        forall|i: int| pos <= i < r ==> s@[i] != '\n',
        r < s@.len() ==> s@[r as int] == '\n',
{
    let n: usize = s.unicode_len();
    let mut end: usize = pos;
    while end < n
        invariant
            n == s@.len(),
            pos <= end <= n,
            forall|i: int| pos <= i < end ==> s@[i] != '\n',
        decreases n - end,
    {
        if s.get_char(end) == '\n' {
            return end;
        }
        end = end + 1;
    }
    end
}

/// Runs the whole engine over one source: reads `input` line by line and
/// returns everything the configured transformation writes for it. The
/// length bound keeps the 32-bit line counter from overflowing.
pub fn echo(input: &str, opt: &Opt) -> (out: String)
    requires
        input@.len() < 0xFFFF_FFFF,
    ensures
        out@ == transform_content(*opt, input@),
{
    let n: usize = input.unicode_len();
    let mut out = String::new();
    let mut pos: usize = 0;
    let mut line: u32 = 1;
    let mut suppress: bool = false;
    proof {
        assert(input@.skip(0) =~= input@);
        assert(out@ + transform_rest(*opt, input@, 1, false) =~= transform_rest(
            *opt,
            input@,
            1,
            false,
        ));
    }
    while pos < n
        invariant
            n == input@.len(),
            n < 0xFFFF_FFFF,
            pos <= n,
            line as nat <= 1 + pos as nat,
            out@ + transform_rest(*opt, input@.skip(pos as int), line as nat, suppress)
                == transform_content(*opt, input@),
        decreases n - pos,
    {
        let ghost rem = input@.skip(pos as int);
        let end: usize = find_line_end(input, pos);
        let line_end: usize = if end < n {
            end + 1
        } else {
            end
        };
        proof {
            let k = end - pos;
            assert forall|i: int| 0 <= i < k implies rem[i] != '\n' by {
                assert(rem[i] == input@[pos + i]);
            }
            assert(k < rem.len() ==> rem[k] == input@[end as int]);
            lemma_line_len_of_scan(rem, k);
            assert(line_len(rem) == line_end - pos);
        }
        let mut buf = String::from_str(input.substring_char(pos, line_end));
        proof {
            assert(buf@ =~= rem.take((line_end - pos) as int));
        }
        let ghost sup0 = suppress;
        let next: u32 = calculate_next_line(&buf, opt, line);
        change_string(&mut buf, &mut suppress, line, opt);
        let ghost out_before = out@;
        out.append(buf.as_str());
        proof {
            let k = (line_end - pos) as int;
            let l = rem.take(k);
            let line0 = line as nat;
            assert(rem.skip(k) =~= input@.skip(line_end as int));
            assert(transform_rest(*opt, rem, line0, sup0) == transformed_line(*opt, l, sup0, line0)
                + transform_rest(
                *opt,
                rem.skip(k),
                next_line_number(*opt, l, line0),
                next_suppress(*opt, l, sup0),
            ));
            assert(out@ + transform_rest(
                *opt,
                input@.skip(line_end as int),
                next as nat,
                suppress,
            ) =~= out_before + transform_rest(*opt, rem, line0, sup0));
        }
        pos = line_end;
        line = next;
    }
    proof {
        assert(input@.skip(pos as int) =~= Seq::<char>::empty());
        assert(out@ + Seq::<char>::empty() =~= out@);
    }
    out
}

proof fn lemma_fast_path_rest(o: Opt, s: Seq<char>, line: nat, suppress: bool)
    requires
        o.fast_path_eligible(),
    ensures
        transform_rest(o, s, line, suppress) == s,
    decreases s.len(),
{
    if s.len() == 0 {
        assert(transform_rest(o, s, line, suppress) =~= s);
    } else {
        lemma_line_len_bounds(s);
        let k = line_len(s) as int;
        let l = s.take(k);
        lemma_fast_path_rest(
            o,
            s.skip(k),
            next_line_number(o, l, line),
            next_suppress(o, l, suppress),
        );
        assert(transformed_line(o, l, suppress, line) == l);
        assert(l + s.skip(k) =~= s);
    }
}

/// Fast-path equivalence: when no transformation flag is set, running a
/// source through the line engine yields the source exactly, so the
/// verbatim byte copy and the engine agree on every input, whatever the
/// entry line number and suppression flag.
pub proof fn lemma_fast_path_equivalence(o: Opt, s: Seq<char>)
    requires
        o.fast_path_eligible(),
    ensures
        transform_content(o, s) == s,
{
    lemma_fast_path_rest(o, s, 1, false);
}

proof fn lemma_number_nonblank_overrides_rest(o: Opt, s: Seq<char>, line: nat, suppress: bool)
    requires
        o.number_nonblank,
    ensures
        transform_rest(o, s, line, suppress) == transform_rest(
            Opt { number: false, ..o },
            s,
            line,
            suppress,
        ),
    decreases s.len(),
{
    let o2 = Opt { number: false, ..o };
    if s.len() > 0 {
        lemma_line_len_bounds(s);
        let k = line_len(s) as int;
        let l = s.take(k);
        assert(transformed_line(o, l, suppress, line) == transformed_line(o2, l, suppress, line));
        lemma_number_nonblank_overrides_rest(
            o,
            s.skip(k),
            next_line_number(o, l, line),
            next_suppress(o, l, suppress),
        );
    }
}

/// Mutual exclusion of the numbering modes: when both `number` and
/// `number_nonblank` are set, the output equals the output with
/// `number_nonblank` alone — the `number` flag is without effect.
pub proof fn lemma_number_nonblank_overrides(o: Opt, s: Seq<char>)
    requires
        o.number_nonblank,
    ensures
        transform_content(o, s) == transform_content(Opt { number: false, ..o }, s),
{
    lemma_number_nonblank_overrides_rest(o, s, 1, false);
}

proof fn lemma_composite_flags_unread_rest(o1: Opt, o2: Opt, s: Seq<char>, line: nat, suppress: bool)
    requires
        o1.show_ends == o2.show_ends,
        o1.show_tabs == o2.show_tabs,
        o1.number == o2.number,
        o1.number_nonblank == o2.number_nonblank,
        o1.squeeze_blank == o2.squeeze_blank,
    ensures
        transform_rest(o1, s, line, suppress) == transform_rest(o2, s, line, suppress),
    decreases s.len(),
{
    if s.len() > 0 {
        lemma_line_len_bounds(s);
        let k = line_len(s) as int;
        let l = s.take(k);
        assert(transformed_line(o1, l, suppress, line) == transformed_line(o2, l, suppress, line));
        lemma_composite_flags_unread_rest(
            o1,
            o2,
            s.skip(k),
            next_line_number(o1, l, line),
            next_suppress(o1, l, suppress),
        );
    }
}

/// The engine never inspects composite flags: two configurations that agree
/// on the primitive flags `show_ends`, `show_tabs`, `number`,
/// `number_nonblank` and `squeeze_blank` produce the same output on every
/// source, whatever their composite flags say.
pub proof fn lemma_composite_flags_unread(o1: Opt, o2: Opt, s: Seq<char>)
    requires
        o1.show_ends == o2.show_ends,
        o1.show_tabs == o2.show_tabs,
        o1.number == o2.number,
        o1.number_nonblank == o2.number_nonblank,
        o1.squeeze_blank == o2.squeeze_blank,
    ensures
        transform_content(o1, s) == transform_content(o2, s),
{
    lemma_composite_flags_unread_rest(o1, o2, s, 1, false);
}

/// A zero-length source produces zero-length output under every
/// configuration, numbering included: there are no lines to transform.
pub proof fn lemma_empty_input(o: Opt)
    ensures
        transform_content(o, Seq::<char>::empty()) == Seq::<char>::empty(),
{
}

/// The failure message for a path that cannot be opened as a file.
pub fn not_a_file_message(path: &str) -> (r: String)
    ensures
        r@ == "`"@ + path@ + "` is not a file"@,
{
    let mut r = String::from_str("`");
    r.append(path);
    r.append("` is not a file");
    r
}

/// The failure message for a read error at 1-based line `line` of `path`.
pub fn read_line_error_message(line: u32, path: &str) -> (r: String)
    ensures
        r@ == "Could not read line "@ + decimal_digits(line as nat) + " from "@ + path@,
{
    let mut r = String::from_str("Could not read line ");
    let d = u32_digits(line);
    r.append(d.as_str());
    r.append(" from ");
    r.append(path);
    r
}

} // verus!
