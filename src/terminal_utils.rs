//! Meaning of the operator's answers to text prompts. Lines reach these
//! functions already read and trimmed of surrounding whitespace.

use vstd::prelude::*;

verus! {

/// The answer, or `default` for an empty line.
pub fn read_string_default(input: &str, default: &str) -> (r: String)
    ensures
        input@.len() == 0 ==> r@ == default@,
        input@.len() > 0 ==> r@ == input@,
{
    if input.unicode_len() == 0 {
        String::from_str(default)
    } else {
        String::from_str(input)
    }
}

pub open spec fn spec_yes_no(input: Seq<char>, on_empty: bool) -> Option<bool> {
    if input.len() == 0 {
        Some(on_empty)
    } else if input == seq!['Y'] || input == seq!['y'] {
        Some(true)
    } else if input == seq!['N'] || input == seq!['n'] {
        Some(false)
    } else {
        None
    }
}

/// A yes/no answer: `Y`/`y` or `N`/`n`, `on_empty` for an empty line, and
/// `None` for anything else, which asks again.
pub fn get_yes_no_selection(input: &str, on_empty: bool) -> (r: Option<bool>)
    ensures
        r == spec_yes_no(input@, on_empty),
{
    let n = input.unicode_len();
    if n == 0 {
        return Some(on_empty);
    }
    if n != 1 {
        assert(input@ != seq!['Y'] && input@ != seq!['y'] && input@ != seq!['N'] && input@ != seq!['n']);
        return None;
    }
    let c = input.get_char(0);
    assert(input@ =~= seq![c]);
    if c == 'Y' || c == 'y' {
        Some(true)
    } else if c == 'N' || c == 'n' {
        Some(false)
    } else {
        None
    }
}

/// A yes/no answer where an empty line means yes.
pub fn get_yes_no_selection_default_yes(input: &str) -> (r: Option<bool>)
    ensures
        r == spec_yes_no(input@, true),
{
    get_yes_no_selection(input, true)
}

/// A yes/no answer where an empty line means no.
pub fn get_yes_no_selection_default_no(input: &str) -> (r: Option<bool>)
    ensures
        r == spec_yes_no(input@, false),
{
    get_yes_no_selection(input, false)
}

/// The question followed by the choices, the default in parentheses.
pub fn yes_no_prompt(prompt: &str, default_yes: bool) -> (r: String)
    ensures
        r@ == prompt@ + if default_yes {
            " (Y)/n"@
        } else {
            " y/(N)"@
        },
{
    let mut r = String::from_str(prompt);
    if default_yes {
        r.append(" (Y)/n");
    } else {
        r.append(" y/(N)");
    }
    r
}

} // verus!
