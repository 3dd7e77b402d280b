//! Where results go on disk: `<dir>/<label>/<name>_<slot>.json`.

use vstd::prelude::*;
use vstd::string::*;

verus! {

/// The character of a decimal digit.
pub open spec fn digit_char(d: nat) -> char
    recommends
        d < 10,
{
    if d == 0 {
        '0'
    } else if d == 1 {
        '1'
    } else if d == 2 {
        '2'
    } else if d == 3 {
        '3'
    } else if d == 4 {
        '4'
    } else if d == 5 {
        '5'
    } else if d == 6 {
        '6'
    } else if d == 7 {
        '7'
    } else if d == 8 {
        '8'
    } else {
        '9'
    }
}

/// The canonical decimal text of a number: no sign, no leading zero but for
/// zero itself.
pub open spec fn decimal(n: nat) -> Seq<char>
    decreases n,
{
    if n < 10 {
        seq![digit_char(n)]
    } else {
        decimal(n / 10).push(digit_char(n % 10))
    }
}

/// The directory that holds the results of one client label.
pub open spec fn label_dir_of(dir: Seq<char>, label: Seq<char>) -> Seq<char> {
    dir + seq!['/'] + label
}

/// The file name of one node's result for one slot.
pub open spec fn file_name_of(name: Seq<char>, slot: u64) -> Seq<char> {
    name + seq!['_'] + decimal(slot as nat) + seq!['.', 'j', 's', 'o', 'n']
}

/// The full path of one node's result for one slot.
pub open spec fn result_path_of(
    dir: Seq<char>,
    label: Seq<char>,
    name: Seq<char>,
    slot: u64,
) -> Seq<char> {
    label_dir_of(dir, label) + seq!['/'] + file_name_of(name, slot)
}

fn digit_text(d: u64) -> (text: &'static str)
    requires
        d < 10,
    ensures
        text@ == seq![digit_char(d as nat)],
{
    proof {
        reveal_strlit("0");
        reveal_strlit("1");
        reveal_strlit("2");
        reveal_strlit("3");
        reveal_strlit("4");
        reveal_strlit("5");
        reveal_strlit("6");
        reveal_strlit("7");
        reveal_strlit("8");
        reveal_strlit("9");
    }
    let text = if d == 0 {
        "0"
    } else if d == 1 {
        "1"
    } else if d == 2 {
        "2"
    } else if d == 3 {
        "3"
    } else if d == 4 {
        "4"
    } else if d == 5 {
        "5"
    } else if d == 6 {
        "6"
    } else if d == 7 {
        "7"
    } else if d == 8 {
        "8"
    } else {
        "9"
    };
    assert(text@ =~= seq![digit_char(d as nat)]);
    text
}

fn push_decimal(text: &mut String, n: u64)
    ensures
        final(text)@ == old(text)@ + decimal(n as nat),
    decreases n,
{
    if n >= 10 {
        push_decimal(text, n / 10);
    }
    text.append(digit_text(n % 10));
    assert(final(text)@ =~= old(text)@ + decimal(n as nat));
}

/// Renders a number as its canonical decimal text.
pub fn decimal_string(n: u64) -> (text: String)
    ensures
        text@ == decimal(n as nat),
{
    let mut text = String::new();
    push_decimal(&mut text, n);
    assert(text@ =~= decimal(n as nat));
    text
}

/// Builds the directory path for a client label under the persistence
/// directory.
pub fn label_dir(dir: &str, label: &str) -> (path: String)
    ensures
        path@ == label_dir_of(dir@, label@),
{
    proof {
        reveal_strlit("/");
    }
    let path = String::from_str(dir).concat("/").concat(label);
    assert(path@ =~= label_dir_of(dir@, label@));
    path
}

/// Builds the file name `<name>_<slot>.json`.
pub fn file_name(name: &str, slot: u64) -> (file: String)
    ensures
        file@ == file_name_of(name@, slot),
{
    proof {
        reveal_strlit("_");
        reveal_strlit(".json");
    }
    let mut file = String::from_str(name).concat("_");
    push_decimal(&mut file, slot);
    let file = file.concat(".json");
    assert(file@ =~= file_name_of(name@, slot));
    file
}

/// Builds the path `<dir>/<label>/<name>_<slot>.json`.
pub fn result_path(dir: &str, label: &str, name: &str, slot: u64) -> (path: String)
    ensures
        path@ == result_path_of(dir@, label@, name@, slot),
{
    proof {
        reveal_strlit("/");
    }
    let file = file_name(name, slot);
    let path = label_dir(dir, label).concat("/").concat(file.as_str());
    assert(path@ =~= result_path_of(dir@, label@, name@, slot));
    path
}

} // verus!
