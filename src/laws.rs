use vstd::prelude::*;

use crate::format::{decimal_of, digit_char, log_line};
use crate::severity::{label_of, Severity};
use crate::sink::{appended, holds_lines, record_of, single_line, text_of};

verus! {

/// The text of a file of lines is empty or ends with a newline.
proof fn lemma_text_ends_with_newline(lines: Seq<Seq<char>>)
    ensures
        text_of(lines).len() == 0 <==> lines.len() == 0,
        text_of(lines).len() > 0 ==> text_of(lines).last() == '\n',
    decreases lines.len(),
{
    if lines.len() > 0 {
        lemma_text_ends_with_newline(lines.drop_last());
    }
}

/// Of two splittings of one text into "earlier lines, last line, newline",
/// the first cannot have the shorter last line.
proof fn lemma_last_line_not_shorter(t1: Seq<char>, l1: Seq<char>, t2: Seq<char>, l2: Seq<char>)
    requires
        t1 + record_of(l1) == t2 + record_of(l2),
        t1.len() == 0 || t1.last() == '\n',
        single_line(l2),
    ensures
        l1.len() >= l2.len(),
{
    if l1.len() < l2.len() {
        let text = t1 + record_of(l1);
        assert(text.len() == t1.len() + l1.len() + 1);
        assert(text.len() == t2.len() + l2.len() + 1);
        assert(t1.len() > 0);
        let p = t1.len() - 1;
        assert(text[p] == t1[p]);
        assert(text[p] == (t2 + record_of(l2))[p]);
        assert((t2 + record_of(l2))[p] == l2[p - t2.len()]);
    }
}

/// A text that is made of newline-free lines is made of them in one way
/// only: the number of lines and each of them are fixed by the text.
pub proof fn lemma_lines_unique(a: Seq<Seq<char>>, b: Seq<Seq<char>>)
    requires
        holds_lines(text_of(a), a),
        holds_lines(text_of(a), b),
    ensures
        a == b,
    decreases a.len(),
{
    lemma_text_ends_with_newline(a);
    lemma_text_ends_with_newline(b);
    if a.len() == 0 {
        assert(a =~= b);
    } else {
        let t1 = text_of(a.drop_last());
        let t2 = text_of(b.drop_last());
        let l1 = a.last();
        let l2 = b.last();
        lemma_text_ends_with_newline(a.drop_last());
        lemma_text_ends_with_newline(b.drop_last());
        assert(single_line(a[a.len() - 1]));
        assert(single_line(b[b.len() - 1]));
        lemma_last_line_not_shorter(t1, l1, t2, l2);
        lemma_last_line_not_shorter(t2, l2, t1, l1);
        let text = text_of(a);
        assert(t1 =~= text.subrange(0, t1.len() as int));
        assert(t2 =~= text.subrange(0, t2.len() as int));
        assert(l1 =~= text.subrange(t1.len() as int, text.len() - 1));
        assert(l2 =~= text.subrange(t2.len() as int, text.len() - 1));
        assert forall|i: int| 0 <= i < a.drop_last().len() implies single_line(
            #[trigger] a.drop_last()[i],
        ) by {
            assert(a.drop_last()[i] == a[i]);
        }
        assert forall|i: int| 0 <= i < b.drop_last().len() implies single_line(
            #[trigger] b.drop_last()[i],
        ) by {
            assert(b.drop_last()[i] == b[i]);
        }
        lemma_lines_unique(a.drop_last(), b.drop_last());
        assert(a =~= a.drop_last().push(l1));
        assert(b =~= b.drop_last().push(l2));
    }
}

/// Appending lines one by one adds their text after what was there.
proof fn lemma_appended_is_concat(text: Seq<char>, lines: Seq<Seq<char>>)
    ensures
        appended(text, lines) == text + text_of(lines),
    decreases lines.len(),
{
    if lines.len() > 0 {
        lemma_appended_is_concat(text, lines.drop_last());
        assert(appended(text, lines) =~= text + text_of(lines));
    }
}

/// The text of two runs of lines is the text of the first followed by the
/// text of the second.
proof fn lemma_text_of_concat(a: Seq<Seq<char>>, b: Seq<Seq<char>>)
    ensures
        text_of(a + b) == text_of(a) + text_of(b),
    decreases b.len(),
{
    if b.len() == 0 {
        assert(a + b =~= a);
        assert(text_of(a) + text_of(b) =~= text_of(a));
    } else {
        lemma_text_of_concat(a, b.drop_last());
        assert((a + b).drop_last() =~= a + b.drop_last());
        assert((a + b).last() == b.last());
        assert(text_of(a + b) =~= text_of(a) + text_of(b));
    }
}

/// Appending never changes what the file held before: the old text is a
/// prefix of the new one, unchanged.
pub proof fn lemma_append_only(text: Seq<char>, lines: Seq<Seq<char>>)
    ensures
        appended(text, lines).len() >= text.len(),
        appended(text, lines).subrange(0, text.len() as int) == text,
{
    lemma_appended_is_concat(text, lines);
    assert(appended(text, lines).subrange(0, text.len() as int) =~= text);
}

/// Appending `n` newline-free lines, in order, to a file of lines leaves a
/// file of the old lines followed by the new ones in the order of the
/// calls: exactly `n` more lines, and no other reading of the text.
pub proof fn lemma_appends_accumulate(old_lines: Seq<Seq<char>>, new_lines: Seq<Seq<char>>)
    requires
        forall|i: int| 0 <= i < old_lines.len() ==> single_line(#[trigger] old_lines[i]),
        forall|i: int| 0 <= i < new_lines.len() ==> single_line(#[trigger] new_lines[i]),
    ensures
        holds_lines(appended(text_of(old_lines), new_lines), old_lines + new_lines),
        forall|lines: Seq<Seq<char>>|
            holds_lines(appended(text_of(old_lines), new_lines), lines) ==> lines == old_lines
                + new_lines,
        (old_lines + new_lines).len() == old_lines.len() + new_lines.len(),
{
    lemma_appended_is_concat(text_of(old_lines), new_lines);
    lemma_text_of_concat(old_lines, new_lines);
    let all = old_lines + new_lines;
    assert forall|i: int| 0 <= i < all.len() implies single_line(#[trigger] all[i]) by {
        if i < old_lines.len() {
            assert(all[i] == old_lines[i]);
        } else {
            assert(all[i] == new_lines[i - old_lines.len()]);
        }
    }
    assert forall|lines: Seq<Seq<char>>|
        holds_lines(appended(text_of(old_lines), new_lines), lines) implies lines == all by {
        lemma_lines_unique(all, lines);
    }
}

/// The decimal numeral of a number holds no newline.
proof fn lemma_decimal_single_line(n: nat)
    ensures
        single_line(decimal_of(n)),
    decreases n,
{
    if n >= 10 {
        lemma_decimal_single_line(n / 10);
    }
    assert forall|i: int| 0 <= i < decimal_of(n).len() implies decimal_of(n)[i] != '\n' by {
        if n >= 10 {
            let d = decimal_of(n / 10);
            if i < d.len() {
                assert(decimal_of(n)[i] == d[i]);
            }
        }
    }
}

/// A log line is one line of the file when the call site's file name and
/// the message hold no newline.
pub proof fn lemma_log_line_single(sev: Severity, file: Seq<char>, line: nat, msg: Seq<char>)
    requires
        single_line(file),
        single_line(msg),
    ensures
        single_line(log_line(sev, file, line, msg)),
{
    lemma_decimal_single_line(line);
    let s = log_line(sev, file, line, msg);
    let a = label_of(sev) + seq![':', '['];
    let b = a + file + seq![':'];
    let c = b + decimal_of(line) + seq![']', ':', ' '];
    assert(s == c + msg);
    assert forall|i: int| 0 <= i < s.len() implies s[i] != '\n' by {
        if i >= c.len() {
            assert(s[i] == msg[i - c.len()]);
        } else if i >= b.len() + decimal_of(line).len() {
        } else if i >= b.len() {
            assert(s[i] == decimal_of(line)[i - b.len()]);
        } else if i >= a.len() + file.len() {
        } else if i >= a.len() {
            assert(s[i] == file[i - a.len()]);
        } else {
            assert(s[i] == a[i]);
        }
    }
}

/// One logging call on a file of lines leaves the same file with one more
/// line at its end, `SEVERITY:[FILE:LINE]: MESSAGE` for that call.
pub proof fn lemma_logged_call_appends_its_line(
    old_lines: Seq<Seq<char>>,
    sev: Severity,
    file: Seq<char>,
    line: nat,
    msg: Seq<char>,
)
    requires
        forall|i: int| 0 <= i < old_lines.len() ==> single_line(#[trigger] old_lines[i]),
        single_line(file),
        single_line(msg),
    ensures
        holds_lines(
            text_of(old_lines) + record_of(log_line(sev, file, line, msg)),
            old_lines.push(log_line(sev, file, line, msg)),
        ),
        forall|lines: Seq<Seq<char>>|
            holds_lines(text_of(old_lines) + record_of(log_line(sev, file, line, msg)), lines)
                ==> lines == old_lines.push(log_line(sev, file, line, msg)),
{
    let l = log_line(sev, file, line, msg);
    lemma_log_line_single(sev, file, line, msg);
    let new_lines = seq![l];
    assert(new_lines.drop_last() =~= Seq::<Seq<char>>::empty());
    assert(new_lines.last() == l);
    assert(appended(text_of(old_lines), new_lines.drop_last()) == text_of(old_lines));
    assert(appended(text_of(old_lines), new_lines) == text_of(old_lines) + record_of(l));
    assert(old_lines + new_lines =~= old_lines.push(l));
    lemma_appends_accumulate(old_lines, new_lines);
}

} // verus!
