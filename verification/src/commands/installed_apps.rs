//! Making sense of what operating systems record about installed programs.

use crate::common::html::{is_white_space, is_whitespace};
use crate::text::text_of;
use crate::text::{
    chars_of, contains_text, has_text, lowercase_text, occurs_at, str_eq, string_of_range,
};
use vstd::prelude::*;

verus! {

/// A program found on the machine.
#[derive(Debug, Clone)]
pub struct InstalledApp {
    pub name: String,
    pub display_name: String,
    pub path: String,
    /// The program's icon as a base64-encoded PNG, once it has been fetched.
    pub icon_base64: Option<String>,
    pub publisher: Option<String>,
    pub version: Option<String>,
}

/// The index just past the white space that stands in `s` from `from` on.
pub open spec fn space_run(s: Seq<char>, from: int) -> int
    decreases s.len() - from,
{
    if 0 <= from < s.len() && is_white_space(s[from]) {
        space_run(s, from + 1)
    } else {
        from
    }
}

/// The length of `s` without the white space at its end.
pub open spec fn trimmed_len(s: Seq<char>) -> int
    decreases s.len(),
{
    if s.len() > 0 && is_white_space(s.last()) {
        trimmed_len(s.drop_last())
    } else {
        s.len() as int
    }
}

/// `s` without the white space at either end.
pub open spec fn trimmed(s: Seq<char>) -> Seq<char> {
    if space_run(s, 0) >= trimmed_len(s) {
        Seq::empty()
    } else {
        s.subrange(space_run(s, 0), trimmed_len(s))
    }
}

/// The index of the first `c` in `s` at or after `from`, or the length of `s`.
pub open spec fn next_index_of(s: Seq<char>, c: char, from: int) -> int
    decreases s.len() - from,
{
    if 0 <= from < s.len() && s[from] != c {
        next_index_of(s, c, from + 1)
    } else if from > s.len() {
        s.len() as int
    } else {
        from
    }
}

/// The index of the first white space in `s` at or after `from`, or the
/// length of `s`.
pub open spec fn word_end(s: Seq<char>, from: int) -> int
    decreases s.len() - from,
{
    if 0 <= from < s.len() && !is_white_space(s[from]) {
        word_end(s, from + 1)
    } else {
        from
    }
}

/// `text` ends with `suffix`.
pub open spec fn finishes_with(text: Seq<char>, suffix: Seq<char>) -> bool {
    text.len() >= suffix.len() && occurs_at(text, suffix, text.len() - suffix.len())
}

/// The first and last index of `chars` without the white space at either end.
fn trim_bounds(chars: &Vec<char>) -> (bounds: (usize, usize))
    ensures
        bounds.0 <= bounds.1 <= chars@.len(),
        chars@.subrange(bounds.0 as int, bounds.1 as int) == trimmed(chars@),
{
    let mut start: usize = 0;
    while start < chars.len() && is_whitespace(chars[start])
        invariant
            start <= chars@.len(),
            space_run(chars@, 0) == space_run(chars@, start as int),
        decreases chars@.len() - start,
    {
        start += 1;
    }
    let mut end: usize = chars.len();
    assert(chars@.take(end as int) == chars@);
    while end > 0 && is_whitespace(chars[end - 1])
        invariant
            end <= chars@.len(),
            trimmed_len(chars@) == trimmed_len(chars@.take(end as int)),
        decreases end,
    {
        proof {
            assert(chars@.take(end as int).drop_last() == chars@.take(end - 1));
            assert(chars@.take(end as int).last() == chars@[end - 1]);
        }
        end -= 1;
    }
    proof {
        if end > 0 {
            assert(chars@.take(end as int).last() == chars@[end - 1]);
        }
        assert(trimmed_len(chars@) == end);
    }
    if start >= end {
        assert(chars@.subrange(end as int, end as int) == Seq::<char>::empty());
        (end, end)
    } else {
        (start, end)
    }
}

/// `text` without the white space at either end.
pub fn trim(text: &str) -> (short: String)
    ensures
        short@ == trimmed(text@),
{
    let chars = chars_of(text);
    let (start, end) = trim_bounds(&chars);
    string_of_range(&chars, start, end)
}

/// Whether `text` ends with `suffix`.
pub fn ends_with(text: &str, suffix: &str) -> (yes: bool)
    ensures
        yes == finishes_with(text@, suffix@),
{
    let t = chars_of(text);
    let s = chars_of(suffix);
    if t.len() < s.len() {
        return false;
    }
    crate::text::matches_at(&t, &s, t.len() - s.len())
}

/// The index of the first `c` in `chars` at or after `from`.
fn find_char(chars: &Vec<char>, c: char, from: usize) -> (at: usize)
    requires
        from <= chars@.len(),
    ensures
        at == next_index_of(chars@, c, from as int),
        from <= at <= chars@.len(),
        at < chars@.len() ==> chars@[at as int] == c,
{
    let mut at: usize = from;
    while at < chars.len() && chars[at] != c
        invariant
            from <= at <= chars@.len(),
            next_index_of(chars@, c, from as int) == next_index_of(chars@, c, at as int),
        decreases chars@.len() - at,
    {
        at += 1;
    }
    at
}

/// What stands between a leading double quote and the next one, if `s`
/// begins with a double quote and has another.
pub open spec fn quoted(s: Seq<char>) -> Option<Seq<char>> {
    if s.len() > 0 && s[0] == '"' && next_index_of(s, '"', 1) < s.len() {
        Some(s.subrange(1, next_index_of(s, '"', 1)))
    } else {
        None
    }
}

/// The program that an icon setting points at: the setting without the
/// white space around it, without the double quotes around its path, and
/// without the icon index that may follow a comma.
pub open spec fn cleaned_path(path: Seq<char>) -> Seq<char> {
    let inner = match quoted(trimmed(path)) {
        Some(q) => q,
        None => trimmed(path),
    };
    inner.take(next_index_of(inner, ',', 0))
}

/// The path of the program that an icon setting points at.
pub fn clean_path(path: &str) -> (clean: String)
    ensures
        clean@ == cleaned_path(path@),
{
    let all = chars_of(path);
    let (start, end) = trim_bounds(&all);
    let short = string_of_range(&all, start, end);
    let chars = chars_of(short.as_str());
    let inner: Vec<char> = if chars.len() > 0 && chars[0] == '"' {
        let close = find_char(&chars, '"', 1);
        if close < chars.len() {
            chars_of(string_of_range(&chars, 1, close).as_str())
        } else {
            chars
        }
    } else {
        chars
    };
    let comma = find_char(&inner, ',', 0);
    let clean = string_of_range(&inner, 0, comma);
    assert(inner@.subrange(0, comma as int) == inner@.take(comma as int));
    clean
}

/// The first word of `s`: what stands between the white space at its start
/// and the next white space.
pub open spec fn first_word(s: Seq<char>) -> Seq<char> {
    s.subrange(space_run(s, 0), word_end(s, space_run(s, 0)))
}

/// The program that an uninstall command belongs to, or nothing where the
/// command only names an uninstaller. A quoted path is taken as it stands,
/// unless it mentions `uninst`; otherwise the first word is taken if it
/// ends in `.exe`, unless it mentions `uninst`. Letter case does not matter.
pub open spec fn program_of_uninstall(command: Seq<char>) -> Seq<char> {
    let short = trimmed(command);
    match quoted(short) {
        Some(path) => if contains_text(lowercase_text(path), "uninst"@) || contains_text(
            lowercase_text(path),
            "uninstall"@,
        ) {
            Seq::empty()
        } else {
            path
        },
        None => {
            let word = first_word(short);
            if finishes_with(lowercase_text(word), ".exe"@) && !contains_text(
                lowercase_text(word),
                "uninst"@,
            ) {
                word
            } else {
                Seq::empty()
            }
        },
    }
}

/// The first word of `chars`.
fn first_word_of(chars: &Vec<char>) -> (word: String)
    ensures
        word@ == first_word(chars@),
{
    let mut start: usize = 0;
    while start < chars.len() && is_whitespace(chars[start])
        invariant
            start <= chars@.len(),
            space_run(chars@, 0) == space_run(chars@, start as int),
        decreases chars@.len() - start,
    {
        start += 1;
    }
    let mut end: usize = start;
    while end < chars.len() && !is_whitespace(chars[end])
        invariant
            start <= end <= chars@.len(),
            word_end(chars@, start as int) == word_end(chars@, end as int),
        decreases chars@.len() - end,
    {
        end += 1;
    }
    string_of_range(chars, start, end)
}

/// Takes the path of the program out of an uninstall command.
pub fn extract_path_from_uninstall_string(uninstall_string: &str) -> (path: String)
    ensures
        path@ == program_of_uninstall(uninstall_string@),
{
    let short = trim(uninstall_string);
    let chars = chars_of(short.as_str());
    if chars.len() > 0 && chars[0] == '"' {
        let close = find_char(&chars, '"', 1);
        if close < chars.len() {
            let quoted_path = string_of_range(&chars, 1, close);
            let lower = quoted_path.as_str().to_lowercase();
            if has_text(lower.as_str(), "uninst") || has_text(lower.as_str(), "uninstall") {
                return String::new();
            }
            return quoted_path;
        }
    }
    let word = first_word_of(&chars);
    let lower = word.as_str().to_lowercase();
    if ends_with(lower.as_str(), ".exe") {
        if has_text(lower.as_str(), "uninst") {
            return String::new();
        }
        return word;
    }
    String::new()
}

/// `s` without any `%` that is followed by `c`, and without that `c`.
pub open spec fn without_code(s: Seq<char>, c: char) -> Seq<char>
    decreases s.len(),
{
    if s.len() == 0 {
        Seq::empty()
    } else if s.len() >= 2 && s[0] == '%' && s[1] == c {
        without_code(s.skip(2), c)
    } else {
        seq![s[0]] + without_code(s.skip(1), c)
    }
}

/// A launch command without the field codes that stand for files, addresses,
/// and the like: each kind of code is taken out in turn, and then the white
/// space at either end.
pub open spec fn launch_command(command: Seq<char>) -> Seq<char> {
    trimmed(
        without_code(
            without_code(
                without_code(
                    without_code(
                        without_code(
                            without_code(
                                without_code(
                                    without_code(
                                        without_code(
                                            without_code(without_code(command, 'f'), 'u'),
                                            'F',
                                        ),
                                        'U',
                                    ),
                                    'd',
                                ),
                                'D',
                            ),
                            'n',
                        ),
                        'N',
                    ),
                    'k',
                ),
                'v',
            ),
            'c',
        ),
    )
}

/// Takes one kind of field code out of a command.
fn remove_code(chars: &Vec<char>, c: char) -> (rest: Vec<char>)
    ensures
        rest@ == without_code(chars@, c),
{
    let mut rest: Vec<char> = Vec::new();
    let mut i: usize = 0;
    assert(chars@.skip(0) == chars@);
    assert(Seq::<char>::empty() + without_code(chars@, c) == without_code(chars@, c));
    while i < chars.len()
        invariant
            i <= chars@.len(),
            without_code(chars@, c) == rest@ + without_code(chars@.skip(i as int), c),
        decreases chars@.len() - i,
    {
        let ghost tail = chars@.skip(i as int);
        assert(tail[0] == chars@[i as int]);
        if chars[i] == '%' && i + 1 < chars.len() && chars[i + 1] == c {
            assert(tail[1] == chars@[i + 1]);
            assert(tail.skip(2) == chars@.skip(i + 2));
            i += 2;
        } else {
            if i + 1 < chars.len() {
                assert(tail[1] == chars@[i + 1]);
            }
            assert(tail.skip(1) == chars@.skip(i + 1));
            let ghost before = rest@;
            rest.push(chars[i]);
            assert(before + (seq![chars@[i as int]] + without_code(chars@.skip(i + 1), c))
                == rest@ + without_code(chars@.skip(i + 1), c));
            i += 1;
        }
    }
    assert(chars@.skip(i as int) == Seq::<char>::empty());
    assert(rest@ + Seq::<char>::empty() == rest@);
    rest
}

/// A launch command without its field codes.
pub fn clean_launch_command(command: &str) -> (clean: String)
    ensures
        clean@ == launch_command(command@),
{
    let chars = chars_of(command);
    let chars = remove_code(&chars, 'f');
    let chars = remove_code(&chars, 'u');
    let chars = remove_code(&chars, 'F');
    let chars = remove_code(&chars, 'U');
    let chars = remove_code(&chars, 'd');
    let chars = remove_code(&chars, 'D');
    let chars = remove_code(&chars, 'n');
    let chars = remove_code(&chars, 'N');
    let chars = remove_code(&chars, 'k');
    let chars = remove_code(&chars, 'v');
    let chars = remove_code(&chars, 'c');
    let (start, end) = trim_bounds(&chars);
    string_of_range(&chars, start, end)
}

/// What has been read from a desktop entry file so far.
pub struct DesktopProgress {
    pub name: Option<Seq<char>>,
    pub command: Option<Seq<char>>,
    pub comment: Option<Seq<char>>,
    /// The lines being read belong to the `[Desktop Entry]` group.
    pub in_entry: bool,
}

/// The effect of one line on the reading. Blank lines and comments are
/// passed over; a group header opens or closes the `[Desktop Entry]` group;
/// inside that group, a line `key=value` with the key `Name`, `Exec` or
/// `Comment` sets that value, white space around key and value aside.
pub open spec fn desktop_step(state: DesktopProgress, line: Seq<char>) -> DesktopProgress {
    let t = trimmed(line);
    if t.len() == 0 || t[0] == '#' {
        state
    } else if t == "[Desktop Entry]"@ {
        DesktopProgress { in_entry: true, ..state }
    } else if t[0] == '[' {
        DesktopProgress { in_entry: false, ..state }
    } else if !state.in_entry || next_index_of(t, '=', 0) >= t.len() {
        state
    } else {
        let key = trimmed(t.take(next_index_of(t, '=', 0)));
        let value = trimmed(t.skip(next_index_of(t, '=', 0) + 1));
        if key == "Name"@ {
            DesktopProgress { name: Some(value), ..state }
        } else if key == "Exec"@ {
            DesktopProgress { command: Some(value), ..state }
        } else if key == "Comment"@ {
            DesktopProgress { comment: Some(value), ..state }
        } else {
            state
        }
    }
}

/// What a desktop entry file says, line by line.
pub open spec fn desktop_progress(lines: Seq<Seq<char>>) -> DesktopProgress
    decreases lines.len(),
{
    if lines.len() == 0 {
        DesktopProgress { name: None, command: None, comment: None, in_entry: false }
    } else {
        desktop_step(desktop_progress(lines.drop_last()), lines.last())
    }
}

/// What an `InstalledApp` says.
pub struct AppModel {
    pub name: Seq<char>,
    pub display_name: Seq<char>,
    pub path: Seq<char>,
    pub icon_base64: Option<Seq<char>>,
    pub publisher: Option<Seq<char>>,
    pub version: Option<Seq<char>>,
}

impl View for InstalledApp {
    type V = AppModel;

    open spec fn view(&self) -> AppModel {
        AppModel {
            name: self.name@,
            display_name: self.display_name@,
            path: self.path@,
            icon_base64: text_of(self.icon_base64),
            publisher: text_of(self.publisher),
            version: text_of(self.version),
        }
    }
}

/// The program that a desktop entry file describes: it needs a name and a
/// launch command; its comment stands for the publisher.
pub open spec fn desktop_app(content: Seq<char>) -> Option<AppModel> {
    let read = desktop_progress(crate::commands::updater::split_on(content, '\n'));
    match (read.name, read.command) {
        (Some(name), Some(command)) => Some(
            AppModel {
                name,
                display_name: name,
                path: launch_command(command),
                icon_base64: None,
                publisher: read.comment,
                version: None,
            },
        ),
        _ => None,
    }
}

/// The reading of a desktop entry file, as it runs.
struct DesktopState {
    name: Option<String>,
    command: Option<String>,
    comment: Option<String>,
    in_entry: bool,
}

impl View for DesktopState {
    type V = DesktopProgress;

    closed spec fn view(&self) -> DesktopProgress {
        DesktopProgress {
            name: text_of(self.name),
            command: text_of(self.command),
            comment: text_of(self.comment),
            in_entry: self.in_entry,
        }
    }
}

impl DesktopState {
    fn step(&mut self, line: &str)
        ensures
            final(self)@ == desktop_step(old(self)@, line@),
    {
        let short = trim(line);
        let t = chars_of(short.as_str());
        if t.len() == 0 || t[0] == '#' {
            return ;
        }
        if str_eq(short.as_str(), "[Desktop Entry]") {
            self.in_entry = true;
            return ;
        }
        if t[0] == '[' {
            self.in_entry = false;
            return ;
        }
        if !self.in_entry {
            return ;
        }
        let at = find_char(&t, '=', 0);
        if at >= t.len() {
            return ;
        }
        let key = trim(string_of_range(&t, 0, at).as_str());
        let value = trim(string_of_range(&t, at + 1, t.len()).as_str());
        proof {
            assert(t@.subrange(0, at as int) == t@.take(at as int));
            assert(t@.subrange(at + 1, t@.len() as int) == t@.skip(at + 1));
        }
        if str_eq(key.as_str(), "Name") {
            self.name = Some(value);
        } else if str_eq(key.as_str(), "Exec") {
            self.command = Some(value);
        } else if str_eq(key.as_str(), "Comment") {
            self.comment = Some(value);
        }
    }
}

/// Reads a desktop entry file into the program it describes.
pub fn parse_desktop_file(content: &str) -> (app: Option<InstalledApp>)
    ensures
        match app {
            Some(a) => desktop_app(content@) == Some(a@),
            None => desktop_app(content@) is None,
        },
{
    let lines = crate::commands::updater::split_text(content, '\n');
    let ghost model = lines@.map_values(|p: String| p@);
    let mut state = DesktopState { name: None, command: None, comment: None, in_entry: false };
    let mut i: usize = 0;
    assert(model.take(0) =~= Seq::<Seq<char>>::empty());
    while i < lines.len()
        invariant
            i <= lines@.len(),
            model == lines@.map_values(|p: String| p@),
            state@ == desktop_progress(model.take(i as int)),
        decreases lines@.len() - i,
    {
        proof {
            assert(model.take(i + 1).drop_last() =~= model.take(i as int));
            assert(model.take(i + 1).last() == lines@[i as int]@);
        }
        state.step(lines[i].as_str());
        i += 1;
    }
    proof {
        assert(model.take(i as int) =~= model);
    }
    match (state.name, state.command) {
        (Some(name), Some(command)) => Some(
            InstalledApp {
                name: name.clone(),
                display_name: name,
                path: clean_launch_command(command.as_str()),
                icon_base64: None,
                publisher: state.comment,
                version: None,
            },
        ),
        _ => None,
    }
}

} // verus!
