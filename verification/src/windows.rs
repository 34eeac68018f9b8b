use vstd::prelude::*;
use crate::model::Window;
use crate::text::{
    contains, contains_text, decimal_digits, decimal_string, lowercase_of, pad_right, pad_to,
    parse_u64, parse_u64_spec, push_text, repeat_char, to_lowercase,
};

verus! {

/// The title shown for a window that reports none.
pub open spec fn unknown_title() -> Seq<char> {
    "Unknown"@
}

/// A window's title, or the empty text when it reports none.
pub open spec fn title_text(w: Window) -> Seq<char> {
    match w.title {
        Some(t) => t@,
        None => Seq::empty(),
    }
}

/// Whether window `w`'s title, in lowercase, contains `needle`.
pub open spec fn title_matches(w: Window, needle: Seq<char>) -> bool {
    contains_text(lowercase_of(title_text(w)), needle)
}

/// The window a command-line argument names: a number is taken as a window id
/// as it stands; any other text picks the first window whose lowercase title
/// contains the lowercase text.
pub open spec fn window_target_ok(arg: Seq<char>, windows: Seq<Window>, r: Option<u64>) -> bool {
    match parse_u64_spec(arg) {
        Some(id) => r == Some(id),
        None => match r {
            Some(id) => exists|i: int|
                0 <= i < windows.len() && windows[i].id == id && title_matches(
                    windows[i],
                    lowercase_of(arg),
                ) && forall|j: int|
                    0 <= j < i ==> !title_matches(#[trigger] windows[j], lowercase_of(arg)),
            None => forall|i: int|
                0 <= i < windows.len() ==> !title_matches(#[trigger] windows[i], lowercase_of(arg)),
        },
    }
}

/// The index of the first text in `hays` that contains `needle`.
pub fn first_containing(hays: &Vec<String>, needle: &str) -> (r: Option<usize>)
    ensures
        match r {
            Some(i) => i < hays.len() && contains_text(hays@[i as int]@, needle@) && forall|j: int|
                0 <= j < i ==> !contains_text(#[trigger] hays@[j]@, needle@),
            None => forall|j: int|
                0 <= j < hays.len() ==> !contains_text(#[trigger] hays@[j]@, needle@),
        },
{
    let mut i: usize = 0;
    while i < hays.len()
        invariant
            i <= hays.len(),
            forall|j: int| 0 <= j < i ==> !contains_text(#[trigger] hays@[j]@, needle@),
        decreases hays.len() - i,
    {
        if contains(hays[i].as_str(), needle) {
            return Some(i);
        }
        i += 1;
    }
    None
}

/// The lowercase title of each window (the empty text for a window without one).
pub fn lowered_titles(windows: &Vec<Window>) -> (r: Vec<String>)
    ensures
        r.len() == windows.len(),
        forall|i: int| 0 <= i < r.len() ==> r@[i]@ == lowercase_of(title_text(#[trigger] windows@[i])),
{
    let mut out: Vec<String> = Vec::new();
    let mut i: usize = 0;
    while i < windows.len()
        invariant
            i <= windows.len(),
            out.len() == i,
            forall|k: int| 0 <= k < i ==> out@[k]@ == lowercase_of(title_text(#[trigger] windows@[k])),
        decreases windows.len() - i,
    {
        let t = match &windows[i].title {
            Some(t) => to_lowercase(t.as_str()),
            None => to_lowercase(""),
        };
        proof {
            if windows@[i as int].title.is_none() {
                reveal_strlit("");
                assert(""@ =~= Seq::<char>::empty());
            }
        }
        out.push(t);
        i += 1;
    }
    out
}

/// Resolves a window argument (an id, or part of a title in any case) to a
/// window id, or `None` when no window's title contains it.
pub fn resolve_window(arg: &str, windows: &Vec<Window>) -> (r: Option<u64>)
    ensures
        window_target_ok(arg@, windows@, r),
{
    match parse_u64(arg) {
        Some(id) => Some(id),
        None => {
            let needle = to_lowercase(arg);
            let titles = lowered_titles(windows);
            match first_containing(&titles, needle.as_str()) {
                Some(i) => {
                    assert(title_matches(windows@[i as int], lowercase_of(arg@)));
                    assert forall|j: int| 0 <= j < i implies !title_matches(
                        #[trigger] windows@[j],
                        lowercase_of(arg@),
                    ) by {
                        assert(titles@[j]@ == lowercase_of(title_text(windows@[j])));
                    }
                    Some(windows[i].id)
                },
                None => {
                    assert forall|j: int| 0 <= j < windows.len() implies !title_matches(
                        #[trigger] windows@[j],
                        lowercase_of(arg@),
                    ) by {
                        assert(titles@[j]@ == lowercase_of(title_text(windows@[j])));
                    }
                    None
                },
            }
        },
    }
}


/// The title a window is listed under: its own, or `Unknown`.
pub open spec fn listed_title(w: Window) -> Seq<char> {
    match w.title {
        Some(t) => t@,
        None => unknown_title(),
    }
}

/// One line of the window list: the id left-aligned in ten columns, a bar,
/// and the title.
pub open spec fn list_row_spec(w: Window) -> Seq<char> {
    pad_right(decimal_digits(w.id as nat), 10) + " | "@ + listed_title(w)
}

/// The header line of the window list.
pub open spec fn list_header_spec() -> Seq<char> {
    pad_right("WINDOW ID"@, 10) + " | "@ + "TITLE"@
}

/// The rule under the header of the window list.
pub open spec fn list_rule_spec() -> Seq<char> {
    repeat_char('-', 10) + "-+-"@ + repeat_char('-', 50)
}

/// The lines the window list prints: a blank line, the header, the rule, one
/// line per window in the order given, and a closing blank line.
pub open spec fn list_lines_spec(windows: Seq<Window>) -> Seq<Seq<char>> {
    seq![Seq::<char>::empty(), list_header_spec(), list_rule_spec()] + windows.map_values(
        |w: Window| list_row_spec(w),
    ) + seq![Seq::<char>::empty()]
}

/// The list line of one window.
pub fn list_row(w: &Window) -> (line: String)
    ensures
        line@ == list_row_spec(*w),
{
    let mut line = decimal_string(w.id);
    pad_to(&mut line, ' ', 10);
    push_text(&mut line, " | ");
    match &w.title {
        Some(t) => push_text(&mut line, t.as_str()),
        None => push_text(&mut line, "Unknown"),
    }
    line
}

/// The lines of the window list, header and rule included.
pub fn list_lines(windows: &Vec<Window>) -> (lines: Vec<String>)
    ensures
        lines@.map_values(|l: String| l@) == list_lines_spec(windows@),
{
    let mut lines: Vec<String> = Vec::new();
    lines.push(String::new());
    let mut header = "WINDOW ID".to_owned();
    pad_to(&mut header, ' ', 10);
    push_text(&mut header, " | ");
    push_text(&mut header, "TITLE");
    lines.push(header);
    let mut rule = String::new();
    pad_to(&mut rule, '-', 10);
    push_text(&mut rule, "-+-");
    let mut tail = String::new();
    pad_to(&mut tail, '-', 50);
    push_text(&mut rule, tail.as_str());
    proof {
        assert(Seq::<char>::empty() + repeat_char('-', 10) =~= repeat_char('-', 10));
        assert(Seq::<char>::empty() + repeat_char('-', 50) =~= repeat_char('-', 50));
    }
    lines.push(rule);
    let ghost head = seq![Seq::<char>::empty(), list_header_spec(), list_rule_spec()];
    assert(lines@.map_values(|l: String| l@) =~= head);
    let mut i: usize = 0;
    while i < windows.len()
        invariant
            i <= windows.len(),
            lines@.map_values(|l: String| l@) =~= head + windows@.take(i as int).map_values(
                |w: Window| list_row_spec(w),
            ),
        decreases windows.len() - i,
    {
        let row = list_row(&windows[i]);
        let ghost before = lines@;
        lines.push(row);
        assert(lines@.map_values(|l: String| l@) =~= before.map_values(|l: String| l@).push(row@));
        i += 1;
        assert(windows@.take(i as int).map_values(|w: Window| list_row_spec(w)) =~= windows@.take(
            (i - 1) as int,
        ).map_values(|w: Window| list_row_spec(w)).push(row@));
    }
    lines.push(String::new());
    assert(windows@.take(i as int) =~= windows@);
    lines
}


/// The title a window pane shows: the window's own, or `Unknown`.
pub fn display_title(w: &Window) -> (t: String)
    ensures
        t@ == listed_title(*w),
{
    match &w.title {
        Some(t) => t.clone(),
        None => "Unknown".to_owned(),
    }
}


/// A line of the window list starts with the window's id in decimal, filled
/// with spaces to ten characters, then ` | `, then the window's title (or
/// `Unknown`); an id longer than ten digits is not cut.
pub proof fn lemma_list_row_layout(w: Window)
    ensures
        ({
            let row = list_row_spec(w);
            let d = decimal_digits(w.id as nat);
            let col: int = if d.len() >= 10 { d.len() as int } else { 10 };
            &&& row.len() == col + 3 + listed_title(w).len()
            &&& row.take(d.len() as int) == d
            &&& forall|k: int| d.len() <= k < col ==> row[k] == ' '
            &&& row.subrange(col, col + 3) == " | "@
            &&& row.skip(col + 3) == listed_title(w)
            &&& (w.title is None ==> listed_title(w) == "Unknown"@)
        }),
{
    reveal_strlit(" | ");
    let row = list_row_spec(w);
    let d = decimal_digits(w.id as nat);
    let col: int = if d.len() >= 10 { d.len() as int } else { 10 };
    let padded = pad_right(d, 10);
    assert(padded.len() == col);
    assert(row == padded + " | "@ + listed_title(w));
    assert(row.take(d.len() as int) =~= d);
    assert(row.subrange(col, col + 3) =~= " | "@);
    assert(row.skip(col + 3) =~= listed_title(w));
}

/// The window list prints a blank line, the header, the rule, one line per
/// window in the order given, and a closing blank line.
pub proof fn lemma_list_lines_layout(windows: Seq<Window>)
    ensures
        list_lines_spec(windows).len() == windows.len() + 4,
        list_lines_spec(windows)[0].len() == 0,
        list_lines_spec(windows)[1] == list_header_spec(),
        list_lines_spec(windows)[2] == list_rule_spec(),
        forall|i: int| 0 <= i < windows.len() ==> list_lines_spec(windows)[3 + i] == list_row_spec(
            #[trigger] windows[i],
        ),
        list_lines_spec(windows).last().len() == 0,
        list_rule_spec().len() == 63,
        forall|k: int| 0 <= k < 63 && k != 11 ==> list_rule_spec()[k] == '-',
        list_rule_spec()[11] == '+',
{
    reveal_strlit("-+-");
}

/// Looking a window up by title gives the first window whose title matches:
/// a match in the first window wins, and windows added after a match never
/// change the answer.
pub proof fn lemma_first_title_match_wins(
    arg: Seq<char>,
    windows: Seq<Window>,
    more: Seq<Window>,
    r1: Option<u64>,
    r2: Option<u64>,
)
    requires
        window_target_ok(arg, windows, r1),
        window_target_ok(arg, windows + more, r2),
    ensures
        r1 is Some ==> r2 == r1,
        (parse_u64_spec(arg) is None && windows.len() > 0 && title_matches(windows[0], lowercase_of(arg)))
            ==> r1 == Some(windows[0].id),
        (parse_u64_spec(arg) is None && r1 is Some) ==> exists|i: int|
            0 <= i < windows.len() && windows[i].id == r1.unwrap() && title_matches(windows[i], lowercase_of(arg)),
{
    let all = windows + more;
    if parse_u64_spec(arg) is None {
        if r1 is Some {
            let i = choose|i: int|
                0 <= i < windows.len() && windows[i].id == r1.unwrap() && title_matches(
                    windows[i],
                    lowercase_of(arg),
                ) && forall|j: int|
                    0 <= j < i ==> !title_matches(#[trigger] windows[j], lowercase_of(arg));
            assert(all[i] == windows[i]);
            match r2 {
                Some(id2) => {
                    let i2 = choose|i2: int|
                        0 <= i2 < all.len() && all[i2].id == id2 && title_matches(
                            all[i2],
                            lowercase_of(arg),
                        ) && forall|j: int|
                            0 <= j < i2 ==> !title_matches(#[trigger] all[j], lowercase_of(arg));
                    if i2 < i {
                        assert(windows[i2] == all[i2]);
                    } else if i2 > i {
                        assert(!title_matches(all[i], lowercase_of(arg)));
                    }
                },
                None => {
                    assert(!title_matches(all[i], lowercase_of(arg)));
                },
            }
        }
        if windows.len() > 0 && title_matches(windows[0], lowercase_of(arg)) {
            match r1 {
                Some(id1) => {
                    let i = choose|i: int|
                        0 <= i < windows.len() && windows[i].id == id1 && title_matches(
                            windows[i],
                            lowercase_of(arg),
                        ) && forall|j: int|
                            0 <= j < i ==> !title_matches(#[trigger] windows[j], lowercase_of(arg));
                    if i > 0 {
                        assert(!title_matches(windows[0], lowercase_of(arg)));
                    }
                },
                None => {
                    assert(!title_matches(windows[0], lowercase_of(arg)));
                },
            }
        }
    }
}

} // verus!
