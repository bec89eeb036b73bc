//! Text shown to the user that is computed rather than printed (the
//! preview of content, the lines of a menu), and the reading of an answer
//! to a menu, typed line by line or key by key.
use vstd::prelude::*;
use crate::conflict::{decimal, push_decimal};
use crate::text::{chars_of, push_str, string_of, sub_vec, trim, trim_exec};

verus! {

/// The preview of `content` for at most `max_chars` characters: the whole
/// text when it has at most `max_chars` characters; otherwise its first
/// `max_chars` characters and a note giving the number of characters.
pub open spec fn spec_preview(content: Seq<char>, max_chars: nat) -> Seq<char> {
    if content.len() <= max_chars {
        content
    } else {
        content.take(max_chars as int) + "\n[已截断，共 "@ + decimal(content.len()) + " 字符]"@
    }
}

/// The preview of `content` (see `spec_preview`).
pub fn preview(content: &str, max_chars: usize) -> (r: String)
    ensures
        r@ == spec_preview(content@, max_chars as nat),
{
    let cv = chars_of(content);
    if cv.len() <= max_chars {
        return content.to_owned();
    }
    let mut r = string_of(&sub_vec(&cv, 0, max_chars));
    assert(cv@.subrange(0, max_chars as int) =~= cv@.take(max_chars as int));
    push_str(&mut r, "\n[已截断，共 ");
    push_decimal(&mut r, cv.len() as u64);
    push_str(&mut r, " 字符]");
    r
}

// ------------------------------------------------------------------
// Menus
// ------------------------------------------------------------------

/// An ASCII digit.
pub open spec fn is_digit(c: char) -> bool {
    '0' <= c && c <= '9'
}

/// Every character of `s` is an ASCII digit.
pub open spec fn all_digits(s: Seq<char>) -> bool {
    forall|i: int| 0 <= i < s.len() ==> is_digit(#[trigger] s[i])
}

/// The number that the digits `s` write in decimal.
pub open spec fn digits_value(s: Seq<char>) -> nat
    decreases s.len(),
{
    if s.len() == 0 {
        0
    } else {
        digits_value(s.drop_last()) * 10 + ((s.last() as nat) - ('0' as nat)) as nat
    }
}

/// `s` without a leading `+`.
pub open spec fn unsigned_digits(s: Seq<char>) -> Seq<char> {
    if s.len() > 0 && s[0] == '+' {
        s.drop_first()
    } else {
        s
    }
}

/// `str::parse::<usize>`: an optional `+`, then one or more digits whose
/// value fits in a `usize`.
pub open spec fn spec_parse_usize(s: Seq<char>) -> Option<nat> {
    let d = unsigned_digits(s);
    if d.len() > 0 && all_digits(d) && digits_value(d) <= usize::MAX {
        Some(digits_value(d))
    } else {
        None
    }
}

proof fn lemma_digits_prefix_le(s: Seq<char>, i: int)
    requires
        0 <= i <= s.len(),
        all_digits(s),
    ensures
        digits_value(s.take(i)) <= digits_value(s),
    decreases s.len(),
{
    if i < s.len() {
        let r = s.drop_last();
        assert(all_digits(r)) by {
            assert forall|k: int| 0 <= k < r.len() implies is_digit(#[trigger] r[k]) by {
                assert(r[k] == s[k]);
            }
        }
        lemma_digits_prefix_le(r, i);
        assert(r.take(i) =~= s.take(i));
    } else {
        assert(s.take(i) =~= s);
    }
}

/// Parses a decimal `usize` (see `spec_parse_usize`).
pub fn parse_usize(s: &str) -> (r: Option<usize>)
    ensures
        match r {
            Some(n) => spec_parse_usize(s@) == Some(n as nat),
            None => spec_parse_usize(s@) is None,
        },
{
    let cv = chars_of(s);
    let start: usize = if cv.len() > 0 && cv[0] == '+' {
        1
    } else {
        0
    };
    let d = sub_vec(&cv, start, cv.len());
    assert(d@ =~= unsigned_digits(s@));
    if d.len() == 0 {
        return None;
    }
    let mut value: usize = 0;
    let mut i: usize = 0;
    while i < d.len()
        invariant
            0 <= i <= d.len(),
            d@ == unsigned_digits(s@),
            d.len() > 0,
            all_digits(d@.take(i as int)),
            value == digits_value(d@.take(i as int)),
        decreases d.len() - i,
    {
        let c = d[i];
        if !('0' <= c && c <= '9') {
            assert(!is_digit(d@[i as int]));
            return None;
        }
        let dv: usize = ((c as u32) - ('0' as u32)) as usize;
        assert(d@.take(i + 1).drop_last() =~= d@.take(i as int));
        assert(all_digits(d@.take(i + 1))) by {
            assert forall|k: int| 0 <= k < i + 1 implies is_digit(#[trigger] d@.take(i + 1)[k]) by {
                if k < i {
                    assert(d@.take(i + 1)[k] == d@.take(i as int)[k]);
                }
            }
        }
        if value > (usize::MAX - dv) / 10 {
            proof {
                assert(digits_value(d@.take(i + 1)) > usize::MAX) by (nonlinear_arith)
                    requires
                        digits_value(d@.take(i + 1)) == value * 10 + dv,
                        value > (usize::MAX - dv) / 10,
                        dv <= 9,
                ;
                if all_digits(d@) {
                    lemma_digits_prefix_le(d@, i + 1);
                }
            }
            return None;
        }
        assert(value * 10 + dv <= usize::MAX) by (nonlinear_arith)
            requires
                value <= (usize::MAX - dv) / 10,
                dv <= 9,
        ;
        value = value * 10 + dv;
        i += 1;
    }
    assert(d@.take(d.len() as int) =~= d@);
    Some(value)
}

/// The answer that a typed line gives to a menu of `option_count`
/// options: the default for a blank line; else the number typed (1 for
/// the first option) as an index, or `None` for anything that is not a
/// number of an option.
pub open spec fn spec_answer(input: Seq<char>, option_count: nat, default_choice: Option<usize>) -> Option<usize> {
    let t = trim(input);
    if t.len() == 0 {
        default_choice
    } else {
        match spec_parse_usize(t) {
            Some(n) => if 1 <= n <= option_count {
                Some((n - 1) as usize)
            } else {
                None
            },
            None => None,
        }
    }
}

/// The answer a typed line gives (see `spec_answer`).
pub fn answer_for(input: &str, option_count: usize, default_choice: Option<usize>) -> (r: Option<usize>)
    ensures
        r == spec_answer(input@, option_count as nat, default_choice),
{
    let tv = trim_exec(&chars_of(input));
    if tv.len() == 0 {
        return default_choice;
    }
    let t = string_of(&tv);
    match parse_usize(t.as_str()) {
        Some(n) => {
            if n >= 1 && n <= option_count {
                Some(n - 1)
            } else {
                None
            }
        },
        None => None,
    }
}

/// A key pressed while a menu waits for an answer.
#[derive(Clone, Copy, Debug, PartialEq, Eq, Structural)]
pub enum Key {
    Escape,
    Enter,
    Char(char),
    Backspace,
    Interrupt,
    Other,
}

/// What a key press comes to.
#[derive(Clone, Copy, Debug, PartialEq, Eq, Structural)]
pub enum KeyStep {
    /// The menu is answered (`None`: no valid answer).
    Answer(Option<usize>),
    /// The user pressed Escape.
    Cancelled,
    /// The user pressed Ctrl-C.
    Interrupted,
    /// The digit was taken; show it.
    Echo(char),
    /// The last digit was removed; erase it.
    Erase,
    /// Nothing happens.
    Ignore,
}

/// The step for `key` when `typed` holds the digits typed so far, and the
/// digits typed afterwards: Escape cancels and Ctrl-C interrupts; Enter
/// answers with what was typed (see `spec_answer`); a digit is taken;
/// Backspace removes the last digit when there is one; other keys do nothing.
pub open spec fn spec_key_step(
    typed: Seq<char>,
    key: Key,
    option_count: nat,
    default_choice: Option<usize>,
) -> (KeyStep, Seq<char>) {
    match key {
        Key::Escape => (KeyStep::Cancelled, typed),
        Key::Interrupt => (KeyStep::Interrupted, typed),
        Key::Enter => (KeyStep::Answer(spec_answer(typed, option_count, default_choice)), typed),
        Key::Char(c) => if is_digit(c) {
            (KeyStep::Echo(c), typed.push(c))
        } else {
            (KeyStep::Ignore, typed)
        },
        Key::Backspace => if typed.len() > 0 {
            (KeyStep::Erase, typed.drop_last())
        } else {
            (KeyStep::Ignore, typed)
        },
        Key::Other => (KeyStep::Ignore, typed),
    }
}

/// Handles one key press of a menu (see `spec_key_step`).
pub fn on_key(typed: &mut Vec<char>, key: Key, option_count: usize, default_choice: Option<usize>) -> (r: KeyStep)
    ensures
        (r, final(typed)@) == spec_key_step(old(typed)@, key, option_count as nat, default_choice),
{
    match key {
        Key::Escape => KeyStep::Cancelled,
        Key::Interrupt => KeyStep::Interrupted,
        Key::Enter => {
            let line = string_of(typed);
            KeyStep::Answer(answer_for(line.as_str(), option_count, default_choice))
        },
        Key::Char(c) => {
            if '0' <= c && c <= '9' {
                typed.push(c);
                KeyStep::Echo(c)
            } else {
                KeyStep::Ignore
            }
        },
        Key::Backspace => {
            if typed.len() > 0 {
                typed.pop();
                KeyStep::Erase
            } else {
                KeyStep::Ignore
            }
        },
        Key::Other => KeyStep::Ignore,
    }
}

/// The line of option `i` (counted from 0) of a menu.
pub open spec fn menu_line(i: nat, key: Seq<char>, desc: Seq<char>, is_default: bool) -> Seq<char> {
    "  "@ + decimal(i + 1) + ". "@ + key + " - "@ + desc + if is_default {
        " [默认]"@
    } else {
        Seq::<char>::empty()
    }
}

/// The lines listing the options of a menu, the default one marked.
pub fn menu_lines(options: &Vec<(String, String)>, default_choice: Option<usize>) -> (r: Vec<String>)
    ensures
        r@.len() == options@.len(),
        forall|i: int|
            0 <= i < r@.len() ==> (#[trigger] r@[i])@ == menu_line(
                i as nat,
                options@[i].0@,
                options@[i].1@,
                default_choice == Some(i as usize),
            ),
{
    let mut r: Vec<String> = Vec::new();
    let mut i: usize = 0;
    while i < options.len()
        invariant
            0 <= i <= options.len(),
            r@.len() == i,
            forall|k: int|
                0 <= k < i ==> (#[trigger] r@[k])@ == menu_line(
                    k as nat,
                    options@[k].0@,
                    options@[k].1@,
                    default_choice == Some(k as usize),
                ),
        decreases options.len() - i,
    {
        let mut line = "  ".to_owned();
        push_decimal(&mut line, (i + 1) as u64);
        push_str(&mut line, ". ");
        push_str(&mut line, options[i].0.as_str());
        push_str(&mut line, " - ");
        push_str(&mut line, options[i].1.as_str());
        let is_default = match default_choice {
            Some(d) => d == i,
            None => false,
        };
        if is_default {
            push_str(&mut line, " [默认]");
        }
        assert(line@ =~= menu_line(
            i as nat,
            options@[i as int].0@,
            options@[i as int].1@,
            default_choice == Some(i),
        ));
        r.push(line);
        i += 1;
    }
    r
}

/// The request for an answer after the options of a menu of `n` options.
pub open spec fn spec_menu_hint(n: nat, default_choice: Option<usize>) -> Seq<char> {
    match default_choice {
        Some(i) => "请选择 (1-"@ + decimal(n) + "/Enter=默认["@ + decimal((i + 1) as nat) + "]/ESC=取消): "@,
        None => "请选择 (1-"@ + decimal(n) + "/ESC=取消): "@,
    }
}

/// The request for an answer (see `spec_menu_hint`).
pub fn menu_hint(option_count: usize, default_choice: Option<usize>) -> (r: String)
    requires
        default_choice matches Some(i) ==> i < usize::MAX,
    ensures
        r@ == spec_menu_hint(option_count as nat, default_choice),
{
    let mut r = "请选择 (1-".to_owned();
    push_decimal(&mut r, option_count as u64);
    match default_choice {
        Some(i) => {
            push_str(&mut r, "/Enter=默认[");
            push_decimal(&mut r, (i + 1) as u64);
            push_str(&mut r, "]/ESC=取消): ");
        },
        None => {
            push_str(&mut r, "/ESC=取消): ");
        },
    }
    r
}

} // verus!
