use vstd::prelude::*;
use vstd::string::StringExecFns;

verus! {

/// A line holds no newline character.
pub open spec fn single_line(l: Seq<char>) -> bool {
    forall|i: int| 0 <= i < l.len() ==> l[i] != '\n'
}

/// What the log file receives for one line: the line and a newline.
pub open spec fn record_of(l: Seq<char>) -> Seq<char> {
    l.push('\n')
}

/// The text of a file made of `lines`, each followed by a newline.
pub open spec fn text_of(lines: Seq<Seq<char>>) -> Seq<char>
    decreases lines.len(),
{
    if lines.len() == 0 {
        Seq::empty()
    } else {
        text_of(lines.drop_last()) + record_of(lines.last())
    }
}

/// `text` is exactly the file made of `lines`, none of which holds a newline.
pub open spec fn holds_lines(text: Seq<char>, lines: Seq<Seq<char>>) -> bool {
    &&& text == text_of(lines)
    &&& forall|i: int| 0 <= i < lines.len() ==> single_line(#[trigger] lines[i])
}

/// The text of a file that held `text` after `lines` were appended one by
/// one, in order, each as `LogFile::append_line` appends it.
pub open spec fn appended(text: Seq<char>, lines: Seq<Seq<char>>) -> Seq<char>
    decreases lines.len(),
{
    if lines.len() == 0 {
        text
    } else {
        appended(text, lines.drop_last()) + record_of(lines.last())
    }
}

/// The diagnostic reported when the log file cannot be opened or written.
pub open spec fn failure_note(cause: Seq<char>) -> Seq<char> {
    "Couldn't write to file: "@ + cause
}

/// The text appended to the log file for `line`: the line and a newline.
pub fn file_record(line: &str) -> (r: String)
    ensures
        r@ == record_of(line@),
{
    proof {
        reveal_strlit("\n");
    }
    let mut out = String::from_str(line);
    out.append("\n");
    assert(out@ =~= record_of(line@));
    out
}

/// The diagnostic for a failed write to the log file, given its cause.
pub fn write_failure_note(cause: &str) -> (r: String)
    ensures
        r@ == failure_note(cause@),
{
    let mut out = String::from_str("Couldn't write to file: ");
    out.append(cause);
    out
}

/// The contents of an append-only log file: text is only ever added at
/// its end, one newline-terminated line at a time.
pub struct LogFile {
    text: String,
}

impl View for LogFile {
    type V = Seq<char>;

    closed spec fn view(&self) -> Seq<char> {
        self.text@
    }
}

impl LogFile {
    /// A log file that does not exist yet: no content.
    pub fn new() -> (r: LogFile)
        ensures
            r@ == Seq::<char>::empty(),
    {
        LogFile { text: String::new() }
    }

    /// A log file that already holds `text`.
    pub fn with_contents(text: String) -> (r: LogFile)
        ensures
            r@ == text@,
    {
        LogFile { text }
    }

    /// Appends `line` and a newline; what was there stays as it was.
    pub fn append_line(&mut self, line: &str)
        ensures
            final(self)@ == old(self)@ + record_of(line@),
    {
        let record = file_record(line);
        self.text.append(record.as_str());
    }

    /// The whole text of the file.
    pub fn contents(&self) -> (r: &str)
        ensures
            r@ == self@,
    {
        self.text.as_str()
    }
}

} // verus!
