//! The file-status model: what one line of `git status --porcelain` says about
//! a file, and the ordered list of such entries that the checklist shows.

use vstd::prelude::*;

verus! {

/// The change category that git reports for one side (index or working tree)
/// of a file.
#[derive(Debug, Clone, Copy, PartialEq, Eq, Structural)]
pub enum GitStatusType {
    Added,
    Modified,
    Renamed,
    Untracked,
    Deleted,
    /// No change on that side.
    Unchanged,
}

/// What a status entry holds, as a mathematical value.
pub ghost struct StatusEntry {
    pub file_name: Seq<char>,
    pub staged: Option<GitStatusType>,
    pub unstaged: Option<GitStatusType>,
}

/// One file of the status list.
#[derive(Debug, Clone)]
pub struct GitStatusItem {
    file_name: String,
    staged: Option<GitStatusType>,
    unstaged: Option<GitStatusType>,
}

/// The status list, in the order in which git reported the files.
#[derive(Debug, Clone)]
pub struct GitStatus(pub Vec<GitStatusItem>);

/// The category that a porcelain status letter stands for, if any.
pub open spec fn status_of_char(ch: char) -> Option<GitStatusType> {
    if ch == 'A' {
        Some(GitStatusType::Added)
    } else if ch == 'M' {
        Some(GitStatusType::Modified)
    } else if ch == 'R' {
        Some(GitStatusType::Renamed)
    } else if ch == 'D' {
        Some(GitStatusType::Deleted)
    } else if ch == '?' {
        Some(GitStatusType::Untracked)
    } else {
        None
    }
}

/// The staged category of a porcelain line's first letter: as
/// `status_of_char`, but an untracked file has nothing staged.
pub open spec fn staged_of_char(ch: char) -> Option<GitStatusType> {
    match status_of_char(ch) {
        Some(GitStatusType::Untracked) => None,
        other => other,
    }
}

/// The entry that one porcelain line describes: two status letters, one
/// separator, then the file name. A line without a file name describes nothing.
pub open spec fn parse_entry(line: Seq<char>) -> Option<StatusEntry> {
    if line.len() <= 3 {
        None
    } else {
        Some(
            StatusEntry {
                file_name: line.skip(3),
                staged: staged_of_char(line[0]),
                unstaged: status_of_char(line[1]),
            },
        )
    }
}

/// The entries that a sequence of porcelain lines describes, in line order;
/// lines that describe nothing are left out.
pub open spec fn parse_entries(lines: Seq<Seq<char>>) -> Seq<StatusEntry>
    decreases lines.len(),
{
    if lines.len() == 0 {
        Seq::empty()
    } else {
        let front = parse_entries(lines.drop_last());
        match parse_entry(lines.last()) {
            Some(entry) => front.push(entry),
            None => front,
        }
    }
}

impl GitStatusType {
    pub fn from_char(ch: char) -> (status: Option<Self>)
        ensures
            status == status_of_char(ch),
    {
        match ch {
            'A' => Some(GitStatusType::Added),
            'M' => Some(GitStatusType::Modified),
            'R' => Some(GitStatusType::Renamed),
            'D' => Some(GitStatusType::Deleted),
            '?' => Some(GitStatusType::Untracked),
            _ => None,
        }
    }
}

impl View for GitStatusItem {
    type V = StatusEntry;

    closed spec fn view(&self) -> StatusEntry {
        StatusEntry { file_name: self.file_name@, staged: self.staged, unstaged: self.unstaged }
    }
}

impl StatusEntry {
    /// The category shown for the entry: its unstaged one, or `Unchanged`.
    pub open spec fn status(self) -> GitStatusType {
        match self.unstaged {
            Some(kind) => kind,
            None => GitStatusType::Unchanged,
        }
    }
}

impl GitStatusItem {
    /// The file name as it is stored; this is what converting an entry into
    /// a `String` yields.
    pub closed spec fn name(&self) -> String {
        self.file_name
    }

    /// The stored name reads as the entry's file name.
    pub proof fn lemma_name(&self)
        ensures
            self.name()@ == self@.file_name,
    {
    }

    pub fn new(file_name: String) -> (item: Self)
        ensures
            item@ == (StatusEntry { file_name: file_name@, staged: None, unstaged: None }),
    {
        GitStatusItem { file_name, staged: None, unstaged: None }
    }

    pub fn file_name(&self) -> (name: &str)
        ensures
            name@ == self@.file_name,
    {
        self.file_name.as_str()
    }

    pub fn status(&self) -> (kind: &GitStatusType)
        ensures
            *kind == self@.status(),
    {
        match &self.unstaged {
            Some(kind) => kind,
            None => &GitStatusType::Unchanged,
        }
    }

    /// Whether the file has a staged change.
    pub fn is_staged(&self) -> (staged: bool)
        ensures
            staged == self@.staged.is_some(),
    {
        self.staged.is_some()
    }

    /// Whether the file has an unstaged change.
    pub fn is_unstaged(&self) -> (unstaged: bool)
        ensures
            unstaged == self@.unstaged.is_some(),
    {
        self.unstaged.is_some()
    }

    /// Reads one line of `git status --porcelain`.
    pub fn parse(line: &str) -> (item: Option<Self>)
        ensures
            match item {
                Some(it) => parse_entry(line@) == Some(it@),
                None => parse_entry(line@).is_none(),
            },
    {
        let n = line.unicode_len();
        if n <= 3 {
            return None;
        }
        let staged = match GitStatusType::from_char(line.get_char(0)) {
            Some(GitStatusType::Untracked) => None,
            other => other,
        };
        let unstaged = GitStatusType::from_char(line.get_char(1));
        let file_name = line.substring_char(3, n).to_owned();
        assert(file_name@ == line@.skip(3));
        Some(GitStatusItem { file_name, staged, unstaged })
    }
}

impl From<&GitStatusItem> for String {
    fn from(item: &GitStatusItem) -> (name: String) {
        item.file_name.clone()
    }
}

impl vstd::std_specs::convert::FromSpecImpl<&GitStatusItem> for String {
    open spec fn obeys_from_spec() -> bool {
        true
    }

    open spec fn from_spec(item: &GitStatusItem) -> String {
        item.name()
    }
}

impl From<GitStatusItem> for String {
    fn from(item: GitStatusItem) -> (name: String) {
        item.file_name
    }
}

impl vstd::std_specs::convert::FromSpecImpl<GitStatusItem> for String {
    open spec fn obeys_from_spec() -> bool {
        true
    }

    open spec fn from_spec(item: GitStatusItem) -> String {
        item.name()
    }
}

impl View for GitStatus {
    type V = Seq<StatusEntry>;

    open spec fn view(&self) -> Seq<StatusEntry> {
        Seq::new(self.0@.len(), |i: int| self.0@[i]@)
    }
}

impl GitStatus {
    /// Reads the output of `git status --porcelain`, one line per element.
    pub fn parse(lines: &Vec<String>) -> (status: Self)
        ensures
            status@ == parse_entries(lines.deep_view()),
    {
        let mut items: Vec<GitStatusItem> = Vec::new();
        let ghost all = lines.deep_view();
        for i in 0..lines.len()
            invariant
                all == lines.deep_view(),
                all.len() == lines.len(),
                GitStatus(items)@ == parse_entries(all.take(i as int)),
        {
            proof {
                assert(all.take(i + 1).drop_last() == all.take(i as int));
                assert(all.take(i + 1).last() == lines[i as int]@);
            }
            let ghost before = GitStatus(items)@;
            match GitStatusItem::parse(lines[i].as_str()) {
                Some(item) => {
                    items.push(item);
                    assert(GitStatus(items)@ == before.push(item@));
                },
                None => {},
            }
        }
        assert(all.take(lines.len() as int) == all);
        GitStatus(items)
    }

    pub fn iter(&self) -> (items: &Vec<GitStatusItem>)
        ensures
            *items == self.0,
    {
        &self.0
    }

    pub fn any_staged(&self) -> (any: bool)
        ensures
            any == exists|i: int| 0 <= i < self@.len() && (#[trigger] self@[i]).staged.is_some(),
    {
        for k in 0..self.0.len()
            invariant
                forall|i: int| 0 <= i < k ==> !(#[trigger] self@[i]).staged.is_some(),
        {
            if self.0[k].is_staged() {
                assert(self@[k as int].staged.is_some());
                return true;
            }
        }
        false
    }

    pub fn any_unstaged(&self) -> (any: bool)
        ensures
            any == exists|i: int| 0 <= i < self@.len() && (#[trigger] self@[i]).unstaged.is_some(),
    {
        for k in 0..self.0.len()
            invariant
                forall|i: int| 0 <= i < k ==> !(#[trigger] self@[i]).unstaged.is_some(),
        {
            if self.0[k].is_unstaged() {
                assert(self@[k as int].unstaged.is_some());
                return true;
            }
        }
        false
    }

    pub fn len(&self) -> (n: usize)
        ensures
            n == self@.len(),
    {
        self.0.len()
    }
}

} // verus!
