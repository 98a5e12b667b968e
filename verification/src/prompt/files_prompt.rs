//! The file checklist: which rows are checked, which row has the focus, and
//! what each key does to them.

use crate::color::{paint, painted_as, reset_code, reset_display, Color};
use crate::git::{GitStatus, GitStatusType, StatusEntry};
use crate::string::{dashes, decimal, decimal_text, repeated};
use crate::term_buffer::{apply_writes, diff, lemma_diff_shows_next, shows, writes_of, Batch};
use crate::Config;
use crate::TermBuffer;
use vstd::prelude::*;

verus! {

/// A key as the checklist tells keys apart.
#[derive(Debug, Clone, Copy, PartialEq, Eq, Structural)]
pub enum KeyPress {
    Char(char),
    Ctrl(char),
    Enter,
    Esc,
    Up,
    Down,
    /// Any other key or event.
    Other,
}

/// How a run of the checklist ends.
#[derive(Debug)]
pub enum FilesPromptResult {
    /// Confirmed, with the names of the checked files.
    Files(Vec<String>),
    /// Cancelled.
    Escape,
    /// Aborted.
    Terminate,
}

/// What is to happen after a key was handled.
#[derive(Debug)]
pub enum Step {
    /// The state may have changed: draw the checklist again.
    Redraw,
    /// The key means nothing here: nothing changed, nothing is drawn.
    Ignored,
    /// Show the diff of the named files (of all files, if none is named), then
    /// draw the checklist again.
    Diff(Vec<String>),
    /// The run is over.
    Finished(FilesPromptResult),
}

/// The end of a run, as a mathematical value.
pub ghost enum Ending {
    Files(Seq<Seq<char>>),
    Escape,
    Terminate,
}

/// A step, as a mathematical value.
pub ghost enum Outcome {
    Redraw,
    Ignored,
    Diff(Seq<Seq<char>>),
    Finished(Ending),
}

impl View for FilesPromptResult {
    type V = Ending;

    open spec fn view(&self) -> Ending {
        match self {
            FilesPromptResult::Files(names) => Ending::Files(names.deep_view()),
            FilesPromptResult::Escape => Ending::Escape,
            FilesPromptResult::Terminate => Ending::Terminate,
        }
    }
}

impl View for Step {
    type V = Outcome;

    open spec fn view(&self) -> Outcome {
        match self {
            Step::Redraw => Outcome::Redraw,
            Step::Ignored => Outcome::Ignored,
            Step::Diff(names) => Outcome::Diff(names.deep_view()),
            Step::Finished(result) => Outcome::Finished(result@),
        }
    }
}

/// The row that has the focus: the "select all" row above the files, or the
/// row of one file, counted from 0.
#[derive(Debug, Clone, Copy, PartialEq, Eq, Structural)]
pub enum Row {
    SelectAll,
    File(usize),
}

/// The state of the checklist: one flag per file, the index of the focused
/// row (0 is the "select all" row, `i + 1` the row of file `i`), and the files.
pub ghost struct Selection {
    pub checked: Seq<bool>,
    pub focus: int,
    pub files: Seq<StatusEntry>,
}

/// Whether every flag is set.
pub open spec fn all_set(flags: Seq<bool>) -> bool {
    forall|i: int| 0 <= i < flags.len() ==> flags[i]
}

/// The names of the files whose flag is set, in the order of the files.
pub open spec fn checked_names(files: Seq<StatusEntry>, checked: Seq<bool>) -> Seq<Seq<char>>
    recommends
        checked.len() == files.len(),
    decreases files.len(),
{
    if files.len() == 0 || checked.len() != files.len() {
        Seq::empty()
    } else {
        let front = checked_names(files.drop_last(), checked.drop_last());
        if checked.last() {
            front.push(files.last().file_name)
        } else {
            front
        }
    }
}

impl Selection {
    /// One flag per file, and the focus on one of the rows.
    pub open spec fn wf(self) -> bool {
        &&& self.checked.len() == self.files.len()
        &&& 0 <= self.focus <= self.files.len()
    }

    /// The state in which a run starts: nothing checked, focus on "select all".
    pub open spec fn initial(files: Seq<StatusEntry>) -> Selection {
        Selection { checked: Seq::new(files.len(), |i: int| false), focus: 0, files }
    }

    /// The state after a key.
    pub open spec fn after(self, key: KeyPress) -> Selection {
        match key {
            KeyPress::Char(' ') => {
                if self.focus == 0 {
                    let value = !all_set(self.checked);
                    Selection { checked: Seq::new(self.checked.len(), |i: int| value), ..self }
                } else {
                    Selection {
                        checked: self.checked.update(
                            self.focus - 1,
                            !self.checked[self.focus - 1],
                        ),
                        ..self
                    }
                }
            },
            KeyPress::Up => Selection {
                focus: if self.focus == 0 {
                    0
                } else {
                    self.focus - 1
                },
                ..self
            },
            KeyPress::Down => Selection {
                focus: if self.focus >= self.files.len() {
                    self.files.len() as int
                } else {
                    self.focus + 1
                },
                ..self
            },
            _ => self,
        }
    }

    /// The files that a diff requested in this state is about: none, meaning
    /// all, on the "select all" row, else the focused file.
    pub open spec fn diff_names(self) -> Seq<Seq<char>> {
        if self.focus == 0 {
            Seq::empty()
        } else {
            seq![self.files[self.focus - 1].file_name]
        }
    }

    /// What a key asks for in this state.
    pub open spec fn outcome(self, key: KeyPress) -> Outcome {
        match key {
            KeyPress::Ctrl('c') => Outcome::Finished(Ending::Terminate),
            KeyPress::Esc => Outcome::Finished(Ending::Escape),
            KeyPress::Enter => Outcome::Finished(
                Ending::Files(checked_names(self.files, self.checked)),
            ),
            KeyPress::Char('d') => Outcome::Diff(self.diff_names()),
            KeyPress::Char(' ') => Outcome::Redraw,
            KeyPress::Up => Outcome::Redraw,
            KeyPress::Down => Outcome::Redraw,
            _ => Outcome::Ignored,
        }
    }
}

impl Selection {
    /// The state in which a run that is fed `keys` leaves the checklist:
    /// the one that the keys up to and including the first that ends the
    /// run have made, or all keys if none ends it.
    pub open spec fn after_run(self, keys: Seq<KeyPress>) -> Selection
        decreases keys.len(),
    {
        if keys.len() == 0 {
            self
        } else if self.outcome(keys[0]) is Finished {
            self.after(keys[0])
        } else {
            self.after(keys[0]).after_run(keys.skip(1))
        }
    }

    /// How a run that is fed `keys` ends: as the first key that ends it
    /// says, in the state that the keys before it have left; not at all if
    /// no key ends it.
    pub open spec fn ending(self, keys: Seq<KeyPress>) -> Option<Ending>
        decreases keys.len(),
    {
        if keys.len() == 0 {
            None
        } else {
            match self.outcome(keys[0]) {
                Outcome::Finished(ending) => Some(ending),
                _ => self.after(keys[0]).ending(keys.skip(1)),
            }
        }
    }
}

/// Whether a key ends the run.
pub open spec fn is_final_key(key: KeyPress) -> bool {
    key == KeyPress::Ctrl('c') || key == KeyPress::Esc || key == KeyPress::Enter
}

/// No key takes the state out of its bounds: there stays one flag per file,
/// the focus stays on a row, and the files stay as they are.
pub proof fn lemma_key_keeps_state_valid(s: Selection, key: KeyPress)
    requires
        s.wf(),
    ensures
        s.after(key).wf(),
        s.after(key).files == s.files,
{
}

/// Space on the "select all" row goes by whether all files are checked now:
/// if some file is unchecked it checks them all, and a second Space then
/// unchecks them all.
pub proof fn lemma_space_on_select_all(s: Selection)
    requires
        s.wf(),
        s.focus == 0,
    ensures
        s.after(KeyPress::Char(' ')).checked == Seq::new(
            s.checked.len(),
            |i: int| !all_set(s.checked),
        ),
        s.after(KeyPress::Char(' ')).focus == 0,
        !all_set(s.checked) ==> {
            let once = s.after(KeyPress::Char(' '));
            let twice = once.after(KeyPress::Char(' '));
            &&& all_set(once.checked)
            &&& twice.checked == Seq::new(s.checked.len(), |i: int| false)
            &&& !all_set(twice.checked)
        },
{
    if !all_set(s.checked) {
        let once = s.after(KeyPress::Char(' '));
        let twice = once.after(KeyPress::Char(' '));
        assert(all_set(once.checked));
        assert(twice.checked =~= Seq::new(s.checked.len(), |i: int| false));
        let i = choose|i: int| 0 <= i < s.checked.len() && !s.checked[i];
        assert(!twice.checked[i]);
    }
}

/// Space on the row of a file flips the flag of that file and leaves every
/// other flag, the focus and the files as they were.
pub proof fn lemma_space_on_file(s: Selection, r: int)
    requires
        s.wf(),
        1 <= r <= s.files.len(),
        s.focus == r,
    ensures
        s.after(KeyPress::Char(' ')).checked.len() == s.checked.len(),
        s.after(KeyPress::Char(' ')).checked[r - 1] == !s.checked[r - 1],
        forall|i: int|
            0 <= i < s.checked.len() && i != r - 1 ==> s.after(KeyPress::Char(' ')).checked[i]
                == s.checked[i],
        s.after(KeyPress::Char(' ')).focus == s.focus,
        s.after(KeyPress::Char(' ')).files == s.files,
{
}

/// Up stops at the first row and Down at the last; between them each undoes
/// the other.
pub proof fn lemma_focus_moves(s: Selection)
    requires
        s.wf(),
    ensures
        s.focus == 0 ==> s.after(KeyPress::Up).focus == 0,
        s.focus == s.files.len() ==> s.after(KeyPress::Down).focus == s.files.len(),
        s.focus > 0 ==> s.after(KeyPress::Up).focus == s.focus - 1,
        s.focus < s.files.len() ==> s.after(KeyPress::Down).focus == s.focus + 1,
        0 < s.focus < s.files.len() ==> s.after(KeyPress::Up).after(KeyPress::Down) == s,
        0 < s.focus < s.files.len() ==> s.after(KeyPress::Down).after(KeyPress::Up) == s,
        s.after(KeyPress::Up).checked == s.checked,
        s.after(KeyPress::Down).checked == s.checked,
{
}

/// Enter yields the names of the checked files wherever the focus is.
pub proof fn lemma_enter_ignores_focus(s: Selection, t: Selection)
    requires
        s.files == t.files,
        s.checked == t.checked,
    ensures
        s.outcome(KeyPress::Enter) == Outcome::Finished(
            Ending::Files(checked_names(s.files, s.checked)),
        ),
        s.outcome(KeyPress::Enter) == t.outcome(KeyPress::Enter),
{
}

/// Whether `name` is the name of a checked file.
pub open spec fn names_checked_file(
    files: Seq<StatusEntry>,
    checked: Seq<bool>,
    name: Seq<char>,
) -> bool {
    exists|i: int| 0 <= i < files.len() && checked[i] && (#[trigger] files[i]).file_name == name
}

/// The names that Enter yields are those of the checked files and of no
/// other: each checked file's name is among them, and each of them is the
/// name of a checked file.
pub proof fn lemma_checked_names_members(files: Seq<StatusEntry>, checked: Seq<bool>)
    requires
        checked.len() == files.len(),
    ensures
        forall|i: int|
            0 <= i < files.len() && checked[i] ==> checked_names(files, checked).contains(
                (#[trigger] files[i]).file_name,
            ),
        forall|k: int|
            0 <= k < checked_names(files, checked).len() ==> names_checked_file(
                files,
                checked,
                #[trigger] checked_names(files, checked)[k],
            ),
        checked_names(files, checked).len() <= files.len(),
    decreases files.len(),
{
    if files.len() > 0 {
        let front_files = files.drop_last();
        let front_flags = checked.drop_last();
        lemma_checked_names_members(front_files, front_flags);
        let front = checked_names(front_files, front_flags);
        let names = checked_names(files, checked);
        let last = files.len() - 1;
        assert(names == if checked[last] {
            front.push(files[last].file_name)
        } else {
            front
        });
        assert forall|i: int| 0 <= i < files.len() && checked[i] implies names.contains(
            (#[trigger] files[i]).file_name,
        ) by {
            if i < last {
                assert(front_files[i] == files[i]);
                assert(front_flags[i] == checked[i]);
                assert(front.contains(front_files[i].file_name));
                let k = choose|k: int| 0 <= k < front.len() && front[k] == files[i].file_name;
                assert(names[k] == files[i].file_name);
            } else {
                assert(names[front.len() as int] == files[i].file_name);
            }
        }
        assert forall|k: int| 0 <= k < names.len() implies names_checked_file(
            files,
            checked,
            #[trigger] names[k],
        ) by {
            if k < front.len() {
                assert(names[k] == front[k]);
                assert(names_checked_file(front_files, front_flags, front[k]));
                let i = choose|i: int|
                    0 <= i < front_files.len() && front_flags[i] && (
                    #[trigger] front_files[i]).file_name == front[k];
                assert(front_files[i] == files[i]);
                assert(checked[i] && files[i].file_name == names[k]);
            } else {
                assert(checked[last] && files[last].file_name == names[k]);
            }
        }
    }
}

/// A step ends the run on exactly three keys, each with its own ending; the
/// state is as it was, and every other key lets the run go on.
pub proof fn lemma_run_ends_one_way(s: Selection, key: KeyPress)
    ensures
        s.outcome(key) is Finished <==> is_final_key(key),
        key == KeyPress::Ctrl('c') <==> s.outcome(key) == Outcome::Finished(Ending::Terminate),
        key == KeyPress::Esc <==> s.outcome(key) == Outcome::Finished(Ending::Escape),
        key == KeyPress::Enter <==> s.outcome(key) == Outcome::Finished(
            Ending::Files(checked_names(s.files, s.checked)),
        ),
        is_final_key(key) ==> s.after(key) == s,
        s.outcome(key) is Ignored ==> s.after(key) == s,
{
}


/// A run ends if and only if one of its keys is one of the three that end
/// it, and then in exactly one of the three ways.
pub proof fn lemma_run_ending(s: Selection, keys: Seq<KeyPress>)
    ensures
        s.ending(keys).is_some() <==> exists|k: int|
            0 <= k < keys.len() && is_final_key(#[trigger] keys[k]),
        s.ending(keys).is_some() ==> {
            let ending = s.ending(keys).unwrap();
            ||| ending is Terminate && !(ending is Escape) && !(ending is Files)
            ||| ending is Escape && !(ending is Terminate) && !(ending is Files)
            ||| ending is Files && !(ending is Terminate) && !(ending is Escape)
        },
    decreases keys.len(),
{
    if keys.len() > 0 {
        let rest = keys.skip(1);
        lemma_run_ends_one_way(s, keys[0]);
        lemma_run_ending(s.after(keys[0]), rest);
        if is_final_key(keys[0]) {
        } else if s.ending(keys).is_some() {
            let k = choose|k: int| 0 <= k < rest.len() && is_final_key(#[trigger] rest[k]);
            assert(is_final_key(keys[k + 1]));
        } else {
            assert forall|k: int| 0 <= k < keys.len() implies !is_final_key(
                #[trigger] keys[k],
            ) by {
                if k > 0 {
                    assert(keys[k] == rest[k - 1]);
                }
            }
        }
    }
}

/// The most files that the checklist lists in full.
pub const MAX_ROWS: usize = 15;

/// How many of `n` files are listed: all of them up to `MAX_ROWS`; beyond
/// that three fewer than `MAX_ROWS`, which leaves room for the "select all"
/// row and the line that counts the rest.
pub open spec fn shown_files(n: nat) -> nat {
    if n > MAX_ROWS {
        (MAX_ROWS - 3) as nat
    } else {
        n
    }
}

/// One row of the checklist as it is to be drawn.
#[derive(Debug)]
pub struct FileRow {
    pub name: String,
    pub status: GitStatusType,
    pub checked: bool,
    pub focused: bool,
}

/// A row, as a mathematical value.
pub ghost struct RowView {
    pub name: Seq<char>,
    pub status: GitStatusType,
    pub checked: bool,
    pub focused: bool,
}

impl View for FileRow {
    type V = RowView;

    open spec fn view(&self) -> RowView {
        RowView {
            name: self.name@,
            status: self.status,
            checked: self.checked,
            focused: self.focused,
        }
    }
}

/// The label of the "select all" row.
pub open spec fn select_all_label() -> Seq<char> {
    "<all>"@
}

impl Selection {
    /// The row at `index`: the "select all" row at 0, which counts as checked
    /// when every file is, and the row of file `index - 1` after it.
    pub open spec fn row(self, index: int) -> RowView {
        if index == 0 {
            RowView {
                name: select_all_label(),
                status: GitStatusType::Unchanged,
                checked: all_set(self.checked),
                focused: self.focus == 0,
            }
        } else {
            RowView {
                name: self.files[index - 1].file_name,
                status: self.files[index - 1].status(),
                checked: self.checked[index - 1],
                focused: self.focus == index,
            }
        }
    }
}

/// The checkbox of a row.
pub open spec fn check_mark(checked: bool) -> Seq<char> {
    if checked {
        seq!['☑']
    } else {
        seq!['□']
    }
}

/// The one-character sign of a status.
pub open spec fn status_mark(status: GitStatusType) -> Seq<char> {
    match status {
        GitStatusType::Untracked => seq!['+'],
        GitStatusType::Modified => seq!['•'],
        GitStatusType::Deleted => seq!['-'],
        _ => seq![' '],
    }
}

/// The colour of a status sign.
pub open spec fn status_color(status: GitStatusType) -> Color {
    match status {
        GitStatusType::Untracked => Color::Rgb { r: 96, g: 218, b: 177 },
        GitStatusType::Modified => Color::Rgb { r: 96, g: 112, b: 218 },
        GitStatusType::Deleted => Color::Rgb { r: 218, g: 96, b: 118 },
        _ => Color::White,
    }
}

/// The colour of a row's checkbox and name.
pub open spec fn line_color(focused: bool) -> Color {
    if focused {
        Color::Blue
    } else {
        Color::White
    }
}

/// A row's line, put together from its three styled parts.
pub open spec fn row_text(mark: Seq<char>, status: Seq<char>, name: Seq<char>) -> Seq<char> {
    mark + seq![' '] + status + seq![' '] + name + reset_code()
}

/// Whether a line draws the given row: its three parts are the row's
/// checkbox, status sign and name; checkbox and name are painted in the
/// colour that the focus gives the row, the sign in the colour of the status.
pub open spec fn draws_row(line: Seq<char>, row: RowView) -> bool {
    exists|mark: Seq<char>, status: Seq<char>, name: Seq<char>|
        {
            &&& line == #[trigger] row_text(mark, status, name)
            &&& painted_as(mark, check_mark(row.checked), line_color(row.focused))
            &&& painted_as(status, status_mark(row.status), status_color(row.status))
            &&& painted_as(name, row.name, line_color(row.focused))
        }
}

/// The instruction above the rows.
pub open spec fn prompt_text() -> Seq<char> {
    "Toggle files to commit (with <space>, or tap 'd' for diff):"@
}

/// The block between banner and rows: a blank line, the instruction, and a
/// rule as long as the instruction.
pub open spec fn instruction_block() -> Seq<Seq<char>> {
    seq![Seq::empty(), prompt_text(), repeated('-', prompt_text().len()) + reset_code()]
}

/// The line that counts the files that are not listed.
pub open spec fn summary_text(rest: nat) -> Seq<char> {
    "and "@ + decimal_text(rest) + " more"@
}

/// The lines below the rows: the count of the unlisted files, if there are any.
pub open spec fn summary_lines(n: nat) -> Seq<Seq<char>> {
    if shown_files(n) < n {
        seq![summary_text((n - shown_files(n)) as nat)]
    } else {
        Seq::empty()
    }
}

/// The checklist's frame for `n` files: banner, instruction block, rows,
/// summary.
pub open spec fn checklist_frame(
    banner: Seq<Seq<char>>,
    rows: Seq<Seq<char>>,
    n: nat,
) -> Seq<Seq<char>> {
    banner + instruction_block() + rows + summary_lines(n)
}

/// Whether `frame` is the checklist's frame in state `state` under `banner`:
/// below banner and instructions, the "select all" row and the listed files
/// are drawn in order, one line each, and the rest is counted.
pub open spec fn is_checklist_frame(
    frame: Seq<Seq<char>>,
    banner: Seq<Seq<char>>,
    state: Selection,
) -> bool {
    exists|rows: Seq<Seq<char>>|
        {
            &&& frame == #[trigger] checklist_frame(banner, rows, state.files.len())
            &&& rows.len() == shown_files(state.files.len()) + 1
            &&& forall|i: int| 0 <= i < rows.len() ==> draws_row(#[trigger] rows[i], state.row(i))
        }
}

/// The sum of two counts, or the largest count there is where the sum is
/// larger still.
pub open spec fn clamped_sum(a: int, b: int) -> int {
    if a + b > usize::MAX {
        usize::MAX as int
    } else {
        a + b
    }
}

/// However many files there are, the listed files and the line that counts
/// the rest never take more than `MAX_ROWS` lines; when that line is there,
/// the "select all" row fits as well.
pub proof fn lemma_rows_within_cap(n: nat)
    ensures
        shown_files(n) <= n,
        shown_files(n) + summary_lines(n).len() <= MAX_ROWS,
        n > MAX_ROWS ==> 1 + shown_files(n) + summary_lines(n).len() < MAX_ROWS,
        n > MAX_ROWS ==> summary_lines(n) == seq![summary_text((n - (MAX_ROWS - 3)) as nat)],
        n <= MAX_ROWS ==> shown_files(n) == n && summary_lines(n).len() == 0,
{
}

impl FileRow {
    /// The checkbox.
    pub fn mark(&self) -> (text: &'static str)
        ensures
            text@ == check_mark(self.checked),
    {
        proof {
            reveal_strlit("☑");
            reveal_strlit("□");
        }
        let text = if self.checked {
            "☑"
        } else {
            "□"
        };
        assert(text@ =~= check_mark(self.checked));
        text
    }

    /// The status sign and its colour.
    pub fn status_sign(&self) -> (sign: (&'static str, Color))
        ensures
            sign.0@ == status_mark(self.status),
            sign.1 == status_color(self.status),
    {
        proof {
            reveal_strlit("+");
            reveal_strlit("•");
            reveal_strlit("-");
            reveal_strlit(" ");
        }
        let sign = match self.status {
            GitStatusType::Untracked => ("+", Color::Rgb { r: 96, g: 218, b: 177 }),
            GitStatusType::Modified => ("•", Color::Rgb { r: 96, g: 112, b: 218 }),
            GitStatusType::Deleted => ("-", Color::Rgb { r: 218, g: 96, b: 118 }),
            _ => (" ", Color::White),
        };
        assert(sign.0@ =~= status_mark(self.status));
        sign
    }

    /// The colour of checkbox and name.
    pub fn color(&self) -> (color: Color)
        ensures
            color == line_color(self.focused),
    {
        if self.focused {
            Color::Blue
        } else {
            Color::White
        }
    }

    /// Draws the row: checkbox, status sign and name, each painted in its
    /// colour. The painting is the terminal library's, so what is known of
    /// the line is what it shows, not the colour codes in it.
    pub fn render(&self) -> (line: String)
        ensures
            draws_row(line@, self@),
    {
        let mark = paint(self.mark(), self.color());
        let sign = self.status_sign();
        let status = paint(sign.0, sign.1);
        let name = paint(self.name.as_str(), self.color());
        let line = row_line(mark.as_str(), status.as_str(), name.as_str());
        assert(line@ == row_text(mark@, status@, name@));
        line
    }
}

/// Puts a row's line together from its three styled parts.
pub fn row_line(mark: &str, status: &str, name: &str) -> (line: String)
    ensures
        line@ == row_text(mark@, status@, name@),
{
    proof {
        reveal_strlit(" ");
    }
    let mut line = mark.to_owned();
    line.append(" ");
    line.append(status);
    line.append(" ");
    line.append(name);
    line.append(reset_display().as_str());
    assert(line@ =~= row_text(mark@, status@, name@));
    line
}

/// The line that counts the files that are not listed.
pub fn summary_line(rest: usize) -> (line: String)
    ensures
        line@ == summary_text(rest as nat),
{
    let mut line = "and ".to_owned();
    line.append(decimal(rest).as_str());
    line.append(" more");
    line
}

/// How many of `n` files are listed.
pub fn shown_rows(n: usize) -> (shown: usize)
    ensures
        shown == shown_files(n as nat),
{
    if n > MAX_ROWS {
        MAX_ROWS - 3
    } else {
        n
    }
}

/// crossterm's input event, carried through as it came.
#[verifier::external_type_specification]
#[verifier::external_body]
pub struct ExInputEvent(crossterm::InputEvent);

/// The key that an input event of the terminal stands for. It is the
/// event's own: the same event always stands for the same key.
pub uninterp spec fn key_in(event: crossterm::InputEvent) -> KeyPress;

/// Tells the variants of `crossterm::InputEvent` and `crossterm::KeyEvent`
/// apart and hands on the character that a `Char` or `Ctrl` key carries. The
/// result depends on the event alone, and that is all that is claimed of it:
/// an event is opaque to the proofs.
#[verifier::external_body]
fn key_of(event: &crossterm::InputEvent) -> (key: KeyPress)
    ensures
        key == key_in(*event),
{
    match event {
        crossterm::InputEvent::Keyboard(crossterm::KeyEvent::Char(c)) => KeyPress::Char(*c),
        crossterm::InputEvent::Keyboard(crossterm::KeyEvent::Ctrl(c)) => KeyPress::Ctrl(*c),
        crossterm::InputEvent::Keyboard(crossterm::KeyEvent::Enter) => KeyPress::Enter,
        crossterm::InputEvent::Keyboard(crossterm::KeyEvent::Esc) => KeyPress::Esc,
        crossterm::InputEvent::Keyboard(crossterm::KeyEvent::Up) => KeyPress::Up,
        crossterm::InputEvent::Keyboard(crossterm::KeyEvent::Down) => KeyPress::Down,
        _ => KeyPress::Other,
    }
}

/// The sum of two counts, clamped to the largest count.
fn clamped_add(a: usize, b: usize) -> (sum: usize)
    ensures
        sum == clamped_sum(a as int, b as int),
{
    if a > usize::MAX - b {
        usize::MAX
    } else {
        a + b
    }
}

/// The checklist over the files of a status list.
#[derive(Debug)]
pub struct FilesPrompt<'a> {
    config: &'a Config,
    checked: Vec<bool>,
    focused_index: usize,
    options: GitStatus,
}

impl<'a> View for FilesPrompt<'a> {
    type V = Selection;

    closed spec fn view(&self) -> Selection {
        Selection {
            checked: self.checked@,
            focus: self.focused_index as int,
            files: self.options@,
        }
    }
}

impl<'a> FilesPrompt<'a> {
    pub fn new(config: &'a Config, options: GitStatus) -> (prompt: Self)
        ensures
            prompt@ == Selection::initial(options@),
            prompt@.wf(),
            prompt.config() == config,
    {
        let mut checked: Vec<bool> = Vec::new();
        let n = options.len();
        for i in 0..n
            invariant
                n == options@.len(),
                checked@ == Seq::new(i as nat, |k: int| false),
        {
            checked.push(false);
            assert(checked@ =~= Seq::new((i + 1) as nat, |k: int| false));
        }
        FilesPrompt { config, checked, focused_index: 0, options }
    }

    /// The settings that the checklist was made with.
    pub closed spec fn config(&self) -> &Config {
        self.config
    }

    /// The settings that the checklist was made with.
    pub fn settings(&self) -> (config: &'a Config)
        ensures
            config == self.config(),
    {
        self.config
    }

    /// The files on offer.
    pub fn options(&self) -> (options: &GitStatus)
        ensures
            options@ == self@.files,
    {
        &self.options
    }

    /// The index of the focused row: 0 for "select all", `i + 1` for file `i`.
    pub fn focused_index(&self) -> (index: usize)
        ensures
            index == self@.focus,
    {
        self.focused_index
    }

    /// The focused row.
    pub fn focused_row(&self) -> (row: Row)
        ensures
            row == if self@.focus == 0 {
                Row::SelectAll
            } else {
                Row::File((self@.focus - 1) as usize)
            },
    {
        if self.focused_index == 0 {
            Row::SelectAll
        } else {
            Row::File(self.focused_index - 1)
        }
    }

    /// Whether file `index` is checked.
    pub fn is_checked(&self, index: usize) -> (checked: bool)
        requires
            index < self@.checked.len(),
        ensures
            checked == self@.checked[index as int],
    {
        self.checked[index]
    }

    /// Whether every file is checked.
    pub fn all_checked(&self) -> (all: bool)
        ensures
            all == all_set(self@.checked),
    {
        for k in 0..self.checked.len()
            invariant
                forall|i: int| 0 <= i < k ==> self.checked@[i],
        {
            if !self.checked[k] {
                return false;
            }
        }
        true
    }

    /// The names of the checked files, in the order of the files.
    pub fn selected(&self) -> (names: Vec<String>)
        requires
            self@.wf(),
        ensures
            names.deep_view() == checked_names(self@.files, self@.checked),
    {
        let mut names: Vec<String> = Vec::new();
        let n = self.options.len();
        let ghost files = self.options@;
        let ghost checked = self.checked@;
        for i in 0..n
            invariant
                n == files.len(),
                files == self.options@,
                checked == self.checked@,
                checked.len() == files.len(),
                names.deep_view() == checked_names(files.take(i as int), checked.take(i as int)),
        {
            proof {
                assert(files.take(i + 1).drop_last() == files.take(i as int));
                assert(checked.take(i + 1).drop_last() == checked.take(i as int));
            }
            if self.checked[i] {
                let ghost before = names.deep_view();
                let name = self.options.0[i].file_name().to_owned();
                names.push(name);
                assert(names.deep_view() == before.push(name@));
            }
        }
        proof {
            assert(files.take(n as int) == files);
            assert(checked.take(n as int) == checked);
        }
        names
    }

    /// Handles one key: changes the state as the key asks, and says what is
    /// to happen next.
    pub fn handle_key(&mut self, key: KeyPress) -> (step: Step)
        requires
            old(self)@.wf(),
        ensures
            final(self)@ == old(self)@.after(key),
            final(self)@.wf(),
            final(self).config() == old(self).config(),
            step@ == old(self)@.outcome(key),
    {
        match key {
            KeyPress::Ctrl('c') => Step::Finished(FilesPromptResult::Terminate),
            KeyPress::Esc => Step::Finished(FilesPromptResult::Escape),
            KeyPress::Enter => Step::Finished(FilesPromptResult::Files(self.selected())),
            KeyPress::Char('d') => {
                let mut names: Vec<String> = Vec::new();
                match self.focused_row() {
                    Row::SelectAll => {},
                    Row::File(index) => {
                        names.push(self.options.0[index].file_name().to_owned());
                    },
                }
                assert(names.deep_view() =~= self@.diff_names());
                Step::Diff(names)
            },
            KeyPress::Char(' ') => {
                match self.focused_row() {
                    Row::SelectAll => {
                        let value = !self.all_checked();
                        let n = self.checked.len();
                        for i in 0..n
                            invariant
                                n == self.checked@.len(),
                                n == old(self).checked@.len(),
                                self.focused_index == old(self).focused_index,
                                self.options == old(self).options,
                                self.config == old(self).config,
                                forall|k: int| 0 <= k < i ==> self.checked@[k] == value,
                        {
                            self.checked[i] = value;
                        }
                        assert(self.checked@ =~= Seq::new(n as nat, |k: int| value));
                    },
                    Row::File(index) => {
                        let flag = self.checked[index];
                        self.checked[index] = !flag;
                    },
                }
                Step::Redraw
            },
            KeyPress::Up => {
                if self.focused_index > 0 {
                    self.focused_index = self.focused_index - 1;
                }
                Step::Redraw
            },
            KeyPress::Down => {
                if self.focused_index < self.options.len() {
                    self.focused_index = self.focused_index + 1;
                }
                Step::Redraw
            },
            _ => Step::Ignored,
        }
    }

    /// Handles one input event of the terminal: the key that it stands for
    /// is handled as `handle_key` says.
    pub fn handle_event(&mut self, event: &crossterm::InputEvent) -> (step: Step)
        requires
            old(self)@.wf(),
        ensures
            final(self)@ == old(self)@.after(key_in(*event)),
            final(self)@.wf(),
            final(self).config() == old(self).config(),
            step@ == old(self)@.outcome(key_in(*event)),
    {
        let key = key_of(event);
        self.handle_key(key)
    }

    /// The row at `index` as it is to be drawn.
    pub fn row(&self, index: usize) -> (row: FileRow)
        requires
            self@.wf(),
            index <= self@.files.len(),
        ensures
            row@ == self@.row(index as int),
    {
        if index == 0 {
            FileRow {
                name: "<all>".to_owned(),
                status: GitStatusType::Unchanged,
                checked: self.all_checked(),
                focused: self.focused_index == 0,
            }
        } else {
            let item = &self.options.0[index - 1];
            FileRow {
                name: item.file_name().to_owned(),
                status: *item.status(),
                checked: self.checked[index - 1],
                focused: self.focused_index == index,
            }
        }
    }

    /// Draws the checklist: pushes the banner, the instruction block, one
    /// line per listed row and the count of the unlisted files into the
    /// buffer, aims the cursor at the focused row, renders the frame and
    /// flushes it. The batch that comes back is what the terminal has to be
    /// given; on a screen that shows the buffer's previous frame it leaves
    /// the new frame.
    pub fn draw(&self, banner: &Vec<String>, buffer: &mut TermBuffer) -> (batch: Batch)
        requires
            self@.wf(),
        ensures
            final(buffer).previous().len() >= old(buffer).pending().len(),
            final(buffer).previous().take(old(buffer).pending().len() as int) == old(
                buffer,
            ).pending(),
            is_checklist_frame(
                final(buffer).previous().skip(old(buffer).pending().len() as int),
                banner.deep_view(),
                self@,
            ),
            final(buffer).pending() == Seq::<Seq<char>>::empty(),
            final(buffer).ops() == Seq::<crate::term_buffer::Write>::empty(),
            writes_of(batch.ops@) == diff(old(buffer).previous(), final(buffer).previous()),
            batch.cursor.0 == 0,
            batch.cursor.1 == clamped_sum(
                old(buffer).pending().len() + banner.len() + instruction_block().len(),
                self@.focus,
            ),
            final(buffer).cursor() == batch.cursor,
            forall|screen: Seq<Seq<char>>| #[trigger]
                shows(screen, old(buffer).previous()) ==> shows(
                    apply_writes(screen, writes_of(batch.ops@)),
                    final(buffer).previous(),
                ),
    {
        let ghost base = buffer.pending();
        let ghost head = banner.deep_view();
        let ghost shown_before = buffer.previous();
        for i in 0..banner.len()
            invariant
                head == banner.deep_view(),
                buffer.previous() == shown_before,
                buffer.pending() == base + head.take(i as int),
        {
            buffer.push_line(banner[i].clone());
            assert(head.take(i + 1) == head.take(i as int).push(banner[i as int]@));
            assert(buffer.pending() == base + head.take(i + 1));
        }
        assert(head.take(banner.len() as int) == head);

        proof {
            reveal_strlit("");
        }
        let prompt_pre = "Toggle files to commit (with <space>, or tap 'd' for diff):";
        let mut rule = dashes(prompt_pre.unicode_len());
        rule.append(reset_display().as_str());
        buffer.push_line("".to_owned());
        buffer.push_line(prompt_pre.to_owned());
        buffer.push_line(rule);
        assert(buffer.pending() == base + head + instruction_block()) by {
            assert(""@ =~= Seq::<char>::empty());
            assert(base + head + instruction_block() =~= (base + head).push(Seq::empty()).push(
                prompt_text(),
            ).push(repeated('-', prompt_text().len()) + reset_code()));
        }

        let y_offset = clamped_add(buffer.lines(), self.focused_index);

        let total = self.options.len();
        let take = shown_rows(total);
        let ghost top = base + head + instruction_block();
        let ghost rows: Seq<Seq<char>> = Seq::empty();
        for i in 0..(take + 1)
            invariant
                self@.wf(),
                total == self@.files.len(),
                take == shown_files(total as nat),
                take <= total,
                buffer.previous() == shown_before,
                buffer.pending() == top + rows,
                rows.len() == i,
                forall|k: int| 0 <= k < rows.len() ==> draws_row(#[trigger] rows[k], self@.row(k)),
        {
            let line = self.row(i).render();
            proof {
                rows = rows.push(line@);
            }
            buffer.push_line(line);
            assert(buffer.pending() == top + rows);
        }

        if take < total {
            buffer.push_line(summary_line(total - take));
        }
        let ghost frame = buffer.pending();
        proof {
            let lines = checklist_frame(head, rows, total as nat);
            assert(frame =~= base + lines) by {
                assert(top + rows =~= base + (head + instruction_block() + rows));
            }
            assert(frame.skip(base.len() as int) =~= lines);
            assert(frame.take(base.len() as int) =~= base);
        }

        buffer.set_next_cursor((0, y_offset));
        buffer.render_frame();
        let batch = buffer.flush();
        proof {
            assert forall|screen: Seq<Seq<char>>| #[trigger]
                shows(screen, shown_before) implies shows(
                apply_writes(screen, writes_of(batch.ops@)),
                frame,
            ) by {
                lemma_diff_shows_next(screen, shown_before, frame);
            }
        }
        batch
    }

    /// Feeds the checklist a script of keys, in order, until one ends the
    /// run. Nothing is drawn and no diff is shown.
    pub fn play(&mut self, keys: &Vec<KeyPress>) -> (result: Option<FilesPromptResult>)
        requires
            old(self)@.wf(),
        ensures
            final(self)@ == old(self)@.after_run(keys@),
            final(self)@.wf(),
            final(self).config() == old(self).config(),
            final(self)@.files == old(self)@.files,
            match result {
                Some(ending) => old(self)@.ending(keys@) == Some(ending@),
                None => old(self)@.ending(keys@).is_none(),
            },
    {
        assert(keys@.skip(0) == keys@);
        for i in 0..keys.len()
            invariant
                self@.wf(),
                self.config() == old(self).config(),
                self@.files == old(self)@.files,
                old(self)@.ending(keys@) == self@.ending(keys@.skip(i as int)),
                old(self)@.after_run(keys@) == self@.after_run(keys@.skip(i as int)),
        {
            proof {
                assert(keys@.skip(i as int)[0] == keys@[i as int]);
                assert(keys@.skip(i as int).skip(1) == keys@.skip(i + 1));
            }
            match self.handle_key(keys[i]) {
                Step::Finished(ending) => {
                    return Some(ending);
                },
                _ => {},
            }
        }
        assert(keys@.skip(keys.len() as int).len() == 0);
        None
    }
}

} // verus!
