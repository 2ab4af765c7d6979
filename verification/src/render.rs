//! Turns one entry into one line of the tree.

use vstd::prelude::*;

use crate::entry::{Entry, EntryKind, EntryView};

verus! {

/// The character that stands for the digit `d`.
pub open spec fn digit(d: nat) -> char
    recommends
        d < 10,
{
    if d == 0 {
        '0'
    } else if d == 1 {
        '1'
    } else if d == 2 {
        '2'
    } else if d == 3 {
        '3'
    } else if d == 4 {
        '4'
    } else if d == 5 {
        '5'
    } else if d == 6 {
        '6'
    } else if d == 7 {
        '7'
    } else if d == 8 {
        '8'
    } else {
        '9'
    }
}

/// The decimal numeral of `n`, without leading zeros.
pub open spec fn decimal(n: nat) -> Seq<char>
    decreases n,
{
    if n < 10 {
        seq![digit(n)]
    } else {
        decimal(n / 10).push(digit(n % 10))
    }
}

/// What follows a file's name when sizes are shown: the size in whole
/// kilobytes, rounded down.
pub open spec fn size_suffix(size: nat) -> Seq<char> {
    " ["@ + decimal(size / 1024) + "KB]"@
}

/// The branch markers in front of an entry at `depth`: one marker, and one
/// nested marker more for each level below the first.
pub open spec fn indent(depth: nat) -> Seq<char>
    decreases depth,
{
    if depth <= 1 {
        "|--"@
    } else {
        indent((depth - 1) as nat) + "   |--"@
    }
}

/// The text shown for a name; a name that is not text is shown as a fixed
/// placeholder.
pub open spec fn shown_name(name: Option<Seq<char>>) -> Seq<char> {
    match name {
        Some(name) => name,
        None => "未知文件"@,
    }
}

/// What stands behind the branch markers. The full path wins over
/// everything else; a size is shown only for files.
pub open spec fn label(entry: EntryView, show_path: bool, show_size: bool) -> Seq<char> {
    if show_path {
        entry.path
    } else if entry.kind == EntryKind::File && show_size {
        shown_name(entry.name) + size_suffix(entry.size)
    } else {
        shown_name(entry.name)
    }
}

/// The line of an entry.
pub open spec fn line_of(entry: EntryView, show_path: bool, show_size: bool) -> Seq<char> {
    indent(entry.depth) + label(entry, show_path, show_size)
}

fn digit_text(d: u64) -> (text: &'static str)
    requires
        d < 10,
    ensures
        text@ == seq![digit(d as nat)],
{
    proof {
        reveal_strlit("0");
        reveal_strlit("1");
        reveal_strlit("2");
        reveal_strlit("3");
        reveal_strlit("4");
        reveal_strlit("5");
        reveal_strlit("6");
        reveal_strlit("7");
        reveal_strlit("8");
        reveal_strlit("9");
    }
    if d == 0 {
        "0"
    } else if d == 1 {
        "1"
    } else if d == 2 {
        "2"
    } else if d == 3 {
        "3"
    } else if d == 4 {
        "4"
    } else if d == 5 {
        "5"
    } else if d == 6 {
        "6"
    } else if d == 7 {
        "7"
    } else if d == 8 {
        "8"
    } else {
        "9"
    }
}

/// The line that stands for the root, above the lines of the entries.
pub fn root_line() -> (line: String)
    ensures
        line@ == "."@,
{
    String::from_str(".")
}

/// Writes `n` in decimal.
pub fn decimal_string(n: u64) -> (text: String)
    ensures
        text@ == decimal(n as nat),
    decreases n,
{
    if n < 10 {
        String::from_str(digit_text(n))
    } else {
        let mut text = decimal_string(n / 10);
        text.append(digit_text(n % 10));
        text
    }
}

/// Writes the branch markers of an entry at `depth`.
pub fn indent_string(depth: usize) -> (text: String)
    requires
        depth >= 1,
    ensures
        text@ == indent(depth as nat),
{
    let mut text = String::from_str("|--");
    let mut level: usize = 1;
    while level < depth
        invariant
            1 <= level <= depth,
            text@ == indent(level as nat),
        decreases depth - level,
    {
        text.append("   |--");
        level = level + 1;
    }
    text
}

/// Renders the line of `entry`: its branch markers, then its path if
/// `show_path` is set, else its name, followed for a file by its size if
/// `show_size` is set.
pub fn display_file(entry: &Entry, show_path: bool, show_size: bool) -> (line: String)
    requires
        entry.depth >= 1,
    ensures
        line@ == line_of(entry@, show_path, show_size),
        show_path ==> line@ == indent(entry@.depth) + entry@.path,
{
    let mut line = indent_string(entry.depth);
    if show_path {
        line.append(entry.path.as_str());
        return line;
    }
    match &entry.name {
        Some(name) => line.append(name.as_str()),
        None => line.append("未知文件"),
    }
    if show_size {
        match entry.kind() {
            EntryKind::File => {
                line.append(" [");
                let kilobytes = decimal_string(entry.size() / 1024);
                line.append(kilobytes.as_str());
                line.append("KB]");
            },
            _ => {},
        }
    }
    line
}

} // verus!
