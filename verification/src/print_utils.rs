//! The text of the messages that are shown for failures.

use crate::text::{contains_seq, occurs_at, push_text};
use vstd::prelude::*;

verus! {

/// The escape sequence that ends a colour.
pub open spec fn reset_sequence() -> Seq<char> {
    seq!['\x1b', '[', '0', 'm']
}

/// `written` shows `text`: it is the text itself, or the text between an
/// escape sequence that sets colour and weight and the one that ends them.
pub open spec fn shows(written: Seq<char>, text: Seq<char>) -> bool {
    written == text || exists|style: Seq<char>| written == style + text + reset_sequence()
}

/// Calls `colored::Colorize::red` on `text` and writes the result out with
/// `ToString::to_string`. Trusted: whether the escape sequences are written
/// depends on the terminal and the environment, so only what holds either
/// way is claimed. The text is written as it is, or between the escape
/// sequence of its style and the one that ends it. That is claimed for a
/// text that holds no ending sequence itself; in one that does, the library
/// writes the style again after each of them.
#[verifier::external_body]
fn red_text(text: &str) -> (written: String)
    ensures
        !contains_seq(text@, reset_sequence()) ==> shows(written@, text@),
{
    colored::Colorize::red(text).to_string()
}

/// Calls `colored::Colorize::red` and `colored::Colorize::bold` on `text`
/// and writes the result out with `ToString::to_string`. Trusted, with the
/// same claim as for `red_text`.
#[verifier::external_body]
fn bold_red_text(text: &str) -> (written: String)
    ensures
        !contains_seq(text@, reset_sequence()) ==> shows(written@, text@),
{
    colored::Colorize::bold(colored::Colorize::red(text)).to_string()
}

/// The line of a failure: the icon, the label and the message, with one
/// space between them.
pub open spec fn error_line(icon: Seq<char>, label: Seq<char>, body: Seq<char>) -> Seq<char> {
    icon + seq![' '] + label + seq![' '] + body
}

/// The icon of a failure.
pub open spec fn error_icon() -> Seq<char> {
    seq!['\u{2717}']
}

/// The label of a failure.
pub open spec fn error_label() -> Seq<char> {
    seq!['E', 'R', 'R', 'O', 'R']
}

/// Puts the line of a failure together from its three parts, each as it is
/// to be shown.
pub fn compose_error_message(icon: &str, label: &str, body: &str) -> (line: String)
    ensures
        line@ == error_line(icon@, label@, body@),
{
    let mut line = String::new();
    push_text(&mut line, icon);
    line.push(' ');
    push_text(&mut line, label);
    line.push(' ');
    push_text(&mut line, body);
    line
}

/// A text in which the first character of the ending sequence does not
/// occur does not hold the sequence.
proof fn lemma_no_reset(text: Seq<char>)
    requires
        forall|i: int| 0 <= i < text.len() ==> #[trigger] text[i] != '\x1b',
    ensures
        !contains_seq(text, reset_sequence()),
{
    assert forall|i: int| !occurs_at(text, reset_sequence(), i) by {
        if occurs_at(text, reset_sequence(), i) {
            assert(text.subrange(i, i + 4)[0] == reset_sequence()[0]);
            assert(text[i] == '\x1b');
        }
    }
}

/// The line that is shown for a failure: a cross and the word ERROR in bold
/// red and the message in red, with one space between them. How the colours
/// are written depends on the terminal. Each part shows its text; for the
/// message that holds unless it has an escape sequence that ends a colour in
/// it.
pub fn get_error_message(message: &str) -> (line: String)
    ensures
        exists|icon: Seq<char>, label: Seq<char>, body: Seq<char>|
            {
                &&& line@ == #[trigger] error_line(icon, label, body)
                &&& shows(icon, error_icon())
                &&& shows(label, error_label())
                &&& !contains_seq(message@, reset_sequence()) ==> shows(body, message@)
            },
{
    proof {
        reveal_strlit("\u{2717}");
        reveal_strlit("ERROR");
        assert("\u{2717}"@ =~= error_icon());
        assert("ERROR"@ =~= error_label());
        lemma_no_reset(error_icon());
        lemma_no_reset(error_label());
    }
    let icon = bold_red_text("\u{2717}");
    let label = bold_red_text("ERROR");
    let body = red_text(message);
    let line = compose_error_message(icon.as_str(), label.as_str(), body.as_str());
    assert(line@ == error_line(icon@, label@, body@));
    line
}

} // verus!
