//! The settings a `clippy.toml` makes: its lines, trimmed, without the blank
//! ones and the comments.

use vstd::prelude::*;
use vstd::string::{StrSliceExecFns, StringExecFns};

use crate::text::joined;

verus! {

/// Unicode's White_Space property, which is what `str::trim` strips.
pub open spec fn is_whitespace(c: char) -> bool {
    let u = c as u32;
    ||| 0x09 <= u <= 0x0d
    ||| u == 0x20
    ||| u == 0x85
    ||| u == 0xa0
    ||| u == 0x1680
    ||| 0x2000 <= u <= 0x200a
    ||| u == 0x2028
    ||| u == 0x2029
    ||| u == 0x202f
    ||| u == 0x205f
    ||| u == 0x3000
}

/// Whether `c` is white space.
pub fn whitespace(c: char) -> (b: bool)
    ensures
        b == is_whitespace(c),
{
    let u = c as u32;
    (0x09 <= u && u <= 0x0d) || u == 0x20 || u == 0x85 || u == 0xa0 || u == 0x1680 || (0x2000
        <= u && u <= 0x200a) || u == 0x2028 || u == 0x2029 || u == 0x202f || u == 0x205f || u
        == 0x3000
}

/// `s` without its leading white space.
pub open spec fn trim_start(s: Seq<char>) -> Seq<char>
    decreases s.len(),
{
    if s.len() > 0 && is_whitespace(s[0]) {
        trim_start(s.drop_first())
    } else {
        s
    }
}

/// `s` without its trailing white space.
pub open spec fn trim_end(s: Seq<char>) -> Seq<char>
    decreases s.len(),
{
    if s.len() > 0 && is_whitespace(s.last()) {
        trim_end(s.drop_last())
    } else {
        s
    }
}

/// `s` without white space at either end.
pub open spec fn trim(s: Seq<char>) -> Seq<char> {
    trim_end(trim_start(s))
}

/// `s` read left to right, split at each newline: the lines finished so
/// far, and the one still open.
pub open spec fn scan_lines(s: Seq<char>) -> (Seq<Seq<char>>, Seq<char>)
    decreases s.len(),
{
    if s.len() == 0 {
        (Seq::empty(), Seq::empty())
    } else {
        let (done, open) = scan_lines(s.drop_last());
        if s.last() == '\n' {
            (done.push(open), Seq::empty())
        } else {
            (done, open.push(s.last()))
        }
    }
}

/// The pieces of `s` between newlines, the last one included.
pub open spec fn lines_of(s: Seq<char>) -> Seq<Seq<char>> {
    scan_lines(s).0.push(scan_lines(s).1)
}

/// Whether a trimmed line is a setting: not blank, and not a comment.
pub open spec fn is_setting(line: Seq<char>) -> bool {
    line.len() > 0 && line[0] != '#'
}

/// The settings among `lines`, each trimmed, in order.
pub open spec fn settings_among(lines: Seq<Seq<char>>) -> Seq<Seq<char>>
    decreases lines.len(),
{
    if lines.len() == 0 {
        Seq::empty()
    } else {
        let before = settings_among(lines.drop_last());
        if is_setting(trim(lines.last())) {
            before.push(trim(lines.last()))
        } else {
            before
        }
    }
}

/// The settings a configuration file's text makes, in order.
pub open spec fn settings_of(text: Seq<char>) -> Seq<Seq<char>> {
    settings_among(lines_of(text))
}

/// The views of some strings.
pub open spec fn views(strings: Seq<String>) -> Seq<Seq<char>> {
    strings.map_values(|s: String| s@)
}

/// The chars of `text` from `from` to `to`, trimmed.
fn trimmed(text: &str, from: usize, to: usize) -> (t: String)
    requires
        from <= to <= text@.len(),
    ensures
        t@ == trim(text@.subrange(from as int, to as int)),
{
    let ghost whole = text@.subrange(from as int, to as int);
    let mut a = from;
    while a < to && whitespace(text.get_char(a))
        invariant
            from <= a <= to,
            to <= text@.len(),
            whole == text@.subrange(from as int, to as int),
            trim_start(whole) == trim_start(text@.subrange(a as int, to as int)),
        decreases to - a,
    {
        proof {
            let rest = text@.subrange(a as int, to as int);
            assert(rest.drop_first() =~= text@.subrange(a + 1, to as int));
        }
        a = a + 1;
    }
    proof {
        let rest = text@.subrange(a as int, to as int);
        if a < to {
            assert(rest[0] == text@[a as int]);
        }
    }
    let mut b = to;
    while b > a && whitespace(text.get_char(b - 1))
        invariant
            from <= a <= b <= to,
            to <= text@.len(),
            whole == text@.subrange(from as int, to as int),
            trim_start(whole) == text@.subrange(a as int, to as int),
            trim(whole) == trim_end(text@.subrange(a as int, b as int)),
        decreases b - a,
    {
        proof {
            let rest = text@.subrange(a as int, b as int);
            assert(rest.drop_last() =~= text@.subrange(a as int, b - 1));
        }
        b = b - 1;
    }
    proof {
        let rest = text@.subrange(a as int, b as int);
        if b > a {
            assert(rest.last() == text@[b - 1]);
        }
    }
    String::from_str(text.substring_char(a, b))
}


/// Whether a trimmed line is a setting.
fn setting(line: &String) -> (b: bool)
    ensures
        b == is_setting(line@),
{
    let l = line.as_str();
    l.unicode_len() > 0 && l.get_char(0) != '#'
}

/// The settings a configuration file's `text` makes: every line trimmed,
/// blank lines and `#` comments left out, in order.
pub fn settings(text: &str) -> (r: Vec<String>)
    ensures
        views(r@) == settings_of(text@),
{
    let n = text.unicode_len();
    let mut out: Vec<String> = Vec::new();
    let mut start: usize = 0;
    let mut i: usize = 0;
    let ghost mut done: Seq<Seq<char>> = Seq::empty();
    proof {
        assert(text@.take(0) =~= Seq::<char>::empty());
        assert(text@.subrange(0, 0) =~= Seq::<char>::empty());
        assert(views(out@) =~= Seq::<Seq<char>>::empty());
    }
    while i < n
        invariant
            n == text@.len(),
            start <= i <= n,
            scan_lines(text@.take(i as int)) == (done, text@.subrange(start as int, i as int)),
            views(out@) == settings_among(done),
        decreases n - i,
    {
        proof {
            assert(text@.take(i + 1).drop_last() =~= text@.take(i as int));
            assert(text@.take(i + 1).last() == text@[i as int]);
        }
        if text.get_char(i) == '\n' {
            let line = trimmed(text, start, i);
            let keep = setting(&line);
            proof {
                let finished = text@.subrange(start as int, i as int);
                let d2 = done.push(finished);
                assert(d2.drop_last() =~= done);
                assert(d2.last() == finished);
            }
            if keep {
                let ghost before = out@;
                out.push(line);
                proof {
                    assert(views(out@) =~= views(before).push(line@));
                }
            }
            proof {
                done = done.push(text@.subrange(start as int, i as int));
                assert(text@.subrange((i + 1) as int, (i + 1) as int) =~= Seq::<char>::empty());
            }
            start = i + 1;
        } else {
            proof {
                assert(text@.subrange(start as int, i + 1) =~= text@.subrange(
                    start as int,
                    i as int,
                ).push(text@[i as int]));
            }
        }
        i = i + 1;
    }
    let last = trimmed(text, start, n);
    let keep = setting(&last);
    proof {
        assert(text@.take(n as int) =~= text@);
        let lines = done.push(text@.subrange(start as int, n as int));
        assert(lines.drop_last() =~= done);
    }
    if keep {
        let ghost before = out@;
        out.push(last);
        proof {
            assert(views(out@) =~= views(before).push(last@));
        }
    }
    out
}

/// Whether two lists of settings are the same, in the same order.
pub fn same_settings(a: &Vec<String>, b: &Vec<String>) -> (r: bool)
    ensures
        r == (views(a@) == views(b@)),
{
    if a.len() != b.len() {
        proof {
            assert(views(a@).len() != views(b@).len());
        }
        return false;
    }
    let mut i: usize = 0;
    while i < a.len()
        invariant
            a@.len() == b@.len(),
            i <= a@.len(),
            forall|j: int| 0 <= j < i ==> a@[j]@ == b@[j]@,
        decreases a@.len() - i,
    {
        if a[i] != b[i] {
            proof {
                assert(views(a@)[i as int] != views(b@)[i as int]);
            }
            return false;
        }
        i = i + 1;
    }
    proof {
        assert(views(a@) =~= views(b@));
    }
    true
}


/// Whether `s` holds no newline: it is a single line.
pub open spec fn one_line(s: Seq<char>) -> bool {
    forall|i: int| 0 <= i < s.len() ==> s[i] != '\n'
}

proof fn lemma_scan_split(x: Seq<char>, y: Seq<char>)
    ensures
        scan_lines(x + seq!['\n'] + y) == (
            scan_lines(x).0.push(scan_lines(x).1) + scan_lines(y).0,
            scan_lines(y).1,
        ),
    decreases y.len(),
{
    let t = x + seq!['\n'] + y;
    if y.len() == 0 {
        assert(t.drop_last() =~= x);
        assert(scan_lines(x).0.push(scan_lines(x).1) + Seq::<Seq<char>>::empty() =~= scan_lines(
            x,
        ).0.push(scan_lines(x).1));
    } else {
        assert(t.drop_last() =~= x + seq!['\n'] + y.drop_last());
        assert(t.last() == y.last());
        lemma_scan_split(x, y.drop_last());
        let a = scan_lines(x).0.push(scan_lines(x).1);
        let (dy, oy) = scan_lines(y.drop_last());
        if y.last() == '\n' {
            assert((a + dy).push(oy) =~= a + dy.push(oy));
        }
    }
}

/// Splitting at a newline splits the lines: the lines of `x`, a newline and
/// `y` are the lines of `x` followed by the lines of `y`.
pub proof fn lemma_lines_split(x: Seq<char>, y: Seq<char>)
    ensures
        lines_of(x + seq!['\n'] + y) == lines_of(x) + lines_of(y),
{
    lemma_scan_split(x, y);
    let a = scan_lines(x).0.push(scan_lines(x).1);
    assert((a + scan_lines(y).0).push(scan_lines(y).1) =~= a + scan_lines(y).0.push(
        scan_lines(y).1,
    ));
}

/// A single line is one line.
pub proof fn lemma_one_line(l: Seq<char>)
    requires
        one_line(l),
    ensures
        lines_of(l) == seq![l],
    decreases l.len(),
{
    lemma_scan_one_line(l);
}

proof fn lemma_scan_one_line(l: Seq<char>)
    requires
        one_line(l),
    ensures
        scan_lines(l) == (Seq::<Seq<char>>::empty(), l),
    decreases l.len(),
{
    if l.len() > 0 {
        assert(one_line(l.drop_last()));
        lemma_scan_one_line(l.drop_last());
        assert(l.drop_last().push(l.last()) =~= l);
    } else {
        assert(l =~= Seq::<char>::empty());
    }
}

/// The settings among two runs of lines are those of the first, then those
/// of the second.
pub proof fn lemma_settings_among_append(a: Seq<Seq<char>>, b: Seq<Seq<char>>)
    ensures
        settings_among(a + b) == settings_among(a) + settings_among(b),
    decreases b.len(),
{
    if b.len() == 0 {
        assert(a + b =~= a);
        assert(settings_among(a) + Seq::<Seq<char>>::empty() =~= settings_among(a));
    } else {
        lemma_settings_among_append(a, b.drop_last());
        assert((a + b).drop_last() =~= a + b.drop_last());
        assert((a + b).last() == b.last());
        if is_setting(trim(b.last())) {
            assert((settings_among(a) + settings_among(b.drop_last())).push(trim(b.last()))
                =~= settings_among(a) + settings_among(b.drop_last()).push(trim(b.last())));
        }
    }
}

/// A blank line or a comment, anywhere among the lines, makes no setting:
/// adding or removing one leaves the settings as they were.
pub proof fn law_blank_or_comment_line_adds_nothing(
    a: Seq<Seq<char>>,
    l: Seq<char>,
    b: Seq<Seq<char>>,
)
    requires
        !is_setting(trim(l)),
    ensures
        settings_among(a + seq![l] + b) == settings_among(a + b),
{
    lemma_settings_among_append(a + seq![l], b);
    lemma_settings_among_append(a, seq![l]);
    lemma_settings_among_append(a, b);
    assert(seq![l].drop_last() =~= Seq::<Seq<char>>::empty());
    assert(seq![l].last() == l);
    assert(settings_among(Seq::<Seq<char>>::empty()) =~= Seq::<Seq<char>>::empty());
    assert(settings_among(seq![l]) =~= Seq::<Seq<char>>::empty());
    assert(settings_among(a) + Seq::<Seq<char>>::empty() =~= settings_among(a));
}

/// White space around a line is no part of its setting: a line replaced by
/// one that trims to the same leaves the settings as they were.
pub proof fn law_whitespace_around_a_line_changes_nothing(
    a: Seq<Seq<char>>,
    l1: Seq<char>,
    l2: Seq<char>,
    b: Seq<Seq<char>>,
)
    requires
        trim(l1) == trim(l2),
    ensures
        settings_among(a + seq![l1] + b) == settings_among(a + seq![l2] + b),
{
    lemma_settings_among_append(a + seq![l1], b);
    lemma_settings_among_append(a + seq![l2], b);
    lemma_settings_among_append(a, seq![l1]);
    lemma_settings_among_append(a, seq![l2]);
    assert(seq![l1].drop_last() =~= Seq::<Seq<char>>::empty());
    assert(seq![l2].drop_last() =~= Seq::<Seq<char>>::empty());
}

/// In a file's text: a blank or comment line added between two lines makes
/// no difference to its settings.
pub proof fn law_text_blank_or_comment_line_adds_nothing(
    x: Seq<char>,
    l: Seq<char>,
    y: Seq<char>,
)
    requires
        one_line(l),
        !is_setting(trim(l)),
    ensures
        settings_of(x + seq!['\n'] + l + seq!['\n'] + y) == settings_of(x + seq!['\n'] + y),
{
    assert(x + seq!['\n'] + l + seq!['\n'] + y =~= x + seq!['\n'] + (l + seq!['\n'] + y));
    lemma_lines_split(x, l + seq!['\n'] + y);
    lemma_lines_split(l, y);
    lemma_lines_split(x, y);
    lemma_one_line(l);
    assert(lines_of(x) + (seq![l] + lines_of(y)) =~= lines_of(x) + seq![l] + lines_of(y));
    law_blank_or_comment_line_adds_nothing(lines_of(x), l, lines_of(y));
}

/// In a file's text: white space added or removed around a line makes no
/// difference to its settings.
pub proof fn law_text_whitespace_around_a_line_changes_nothing(
    x: Seq<char>,
    l1: Seq<char>,
    l2: Seq<char>,
    y: Seq<char>,
)
    requires
        one_line(l1),
        one_line(l2),
        trim(l1) == trim(l2),
    ensures
        settings_of(x + seq!['\n'] + l1 + seq!['\n'] + y) == settings_of(
            x + seq!['\n'] + l2 + seq!['\n'] + y,
        ),
{
    assert(x + seq!['\n'] + l1 + seq!['\n'] + y =~= x + seq!['\n'] + (l1 + seq!['\n'] + y));
    assert(x + seq!['\n'] + l2 + seq!['\n'] + y =~= x + seq!['\n'] + (l2 + seq!['\n'] + y));
    lemma_lines_split(x, l1 + seq!['\n'] + y);
    lemma_lines_split(x, l2 + seq!['\n'] + y);
    lemma_lines_split(l1, y);
    lemma_lines_split(l2, y);
    lemma_one_line(l1);
    lemma_one_line(l2);
    assert(lines_of(x) + (seq![l1] + lines_of(y)) =~= lines_of(x) + seq![l1] + lines_of(y));
    assert(lines_of(x) + (seq![l2] + lines_of(y)) =~= lines_of(x) + seq![l2] + lines_of(y));
    law_whitespace_around_a_line_changes_nothing(lines_of(x), l1, l2, lines_of(y));
}


/// Whether no line of `ls` holds a newline.
pub open spec fn all_one_line(ls: Seq<Seq<char>>) -> bool {
    forall|i: int| 0 <= i < ls.len() ==> one_line(#[trigger] ls[i])
}

/// A file's text made of `ls`: its lines with a newline between each two.
pub open spec fn text_of(ls: Seq<Seq<char>>) -> Seq<char> {
    joined(ls, seq!['\n'])
}

proof fn lemma_lines_of_text(ls: Seq<Seq<char>>)
    requires
        ls.len() > 0,
        all_one_line(ls),
    ensures
        lines_of(text_of(ls)) == ls,
    decreases ls.len(),
{
    if ls.len() == 1 {
        lemma_one_line(ls[0]);
        assert(seq![ls[0]] =~= ls);
    } else {
        let dl = ls.drop_last();
        assert(all_one_line(dl)) by {
            assert forall|i: int| 0 <= i < dl.len() implies one_line(#[trigger] dl[i]) by {
                assert(dl[i] == ls[i]);
            }
        }
        lemma_lines_of_text(dl);
        assert(one_line(ls[ls.len() - 1]));
        lemma_one_line(ls.last());
        lemma_lines_split(text_of(dl), ls.last());
        assert(dl + seq![ls.last()] =~= ls);
    }
}

/// The settings of a text made of lines are the settings among those lines.
pub proof fn lemma_settings_of_text(ls: Seq<Seq<char>>)
    requires
        all_one_line(ls),
    ensures
        settings_of(text_of(ls)) == settings_among(ls),
{
    if ls.len() == 0 {
        let e = Seq::<char>::empty();
        assert(text_of(ls) == e);
        assert(lines_of(e) =~= seq![e]);
        assert(trim_start(e) == e);
        assert(trim_end(e) == e);
        assert(seq![e].drop_last() =~= Seq::<Seq<char>>::empty());
        assert(seq![e].last() == e);
        assert(trim(e) == e);
        assert(!is_setting(trim(e)));
        assert(settings_among(Seq::<Seq<char>>::empty()) =~= Seq::<Seq<char>>::empty());
        assert(settings_among(seq![e]) =~= Seq::<Seq<char>>::empty());
        assert(ls =~= Seq::<Seq<char>>::empty());
    } else {
        lemma_lines_of_text(ls);
    }
}

/// An edit of a file's lines, as (kind, index, line): kind 0 inserts `line`
/// before index `at`, kind 1 removes the line at `at`, and kind 2 replaces the
/// line at `at` by `line`.
pub open spec fn apply_edit(ls: Seq<Seq<char>>, e: (nat, int, Seq<char>)) -> Seq<Seq<char>> {
    let (kind, at, line) = e;
    if kind == 0 {
        ls.take(at) + seq![line] + ls.skip(at)
    } else if kind == 1 {
        ls.take(at) + ls.skip(at + 1)
    } else {
        ls.update(at, line)
    }
}

/// Whether an edit only pads: it inserts or removes a blank or comment line,
/// anywhere, the first and the last line included, or changes only the white
/// space around a line.
pub open spec fn padding_edit(ls: Seq<Seq<char>>, e: (nat, int, Seq<char>)) -> bool {
    let (kind, at, line) = e;
    if kind == 0 {
        0 <= at <= ls.len() && one_line(line) && !is_setting(trim(line))
    } else if kind == 1 {
        0 <= at < ls.len() && !is_setting(trim(ls[at]))
    } else {
        kind == 2 && 0 <= at < ls.len() && one_line(line) && trim(line) == trim(ls[at])
    }
}

/// `edits` applied to `ls` one after another.
pub open spec fn apply_edits(ls: Seq<Seq<char>>, edits: Seq<(nat, int, Seq<char>)>) -> Seq<
    Seq<char>,
>
    decreases edits.len(),
{
    if edits.len() == 0 {
        ls
    } else {
        apply_edits(apply_edit(ls, edits[0]), edits.drop_first())
    }
}

/// Whether every one of `edits`, applied in turn, only pads.
pub open spec fn padding_edits(ls: Seq<Seq<char>>, edits: Seq<(nat, int, Seq<char>)>) -> bool
    decreases edits.len(),
{
    edits.len() == 0 || (padding_edit(ls, edits[0]) && padding_edits(
        apply_edit(ls, edits[0]),
        edits.drop_first(),
    ))
}

proof fn lemma_padding_edit(ls: Seq<Seq<char>>, e: (nat, int, Seq<char>))
    requires
        padding_edit(ls, e),
    ensures
        settings_among(apply_edit(ls, e)) == settings_among(ls),
        all_one_line(ls) ==> all_one_line(apply_edit(ls, e)),
{
    let (kind, at, line) = e;
    let r = apply_edit(ls, e);
    if kind == 0 {
        assert(ls.take(at) + ls.skip(at) =~= ls);
        law_blank_or_comment_line_adds_nothing(ls.take(at), line, ls.skip(at));
        if all_one_line(ls) {
            assert forall|i: int| 0 <= i < r.len() implies one_line(#[trigger] r[i]) by {
                if i < at {
                    assert(r[i] == ls[i]);
                } else if i > at {
                    assert(r[i] == ls[i - 1]);
                }
            }
        }
    } else if kind == 1 {
        assert(ls.take(at) + seq![ls[at]] + ls.skip(at + 1) =~= ls);
        law_blank_or_comment_line_adds_nothing(ls.take(at), ls[at], ls.skip(at + 1));
        if all_one_line(ls) {
            assert forall|i: int| 0 <= i < r.len() implies one_line(#[trigger] r[i]) by {
                if i < at {
                    assert(r[i] == ls[i]);
                } else {
                    assert(r[i] == ls[i + 1]);
                }
            }
        }
    } else {
        assert(ls.take(at) + seq![ls[at]] + ls.skip(at + 1) =~= ls);
        assert(ls.take(at) + seq![line] + ls.skip(at + 1) =~= r);
        law_whitespace_around_a_line_changes_nothing(ls.take(at), ls[at], line, ls.skip(at + 1));
        if all_one_line(ls) {
            assert forall|i: int| 0 <= i < r.len() implies one_line(#[trigger] r[i]) by {
                if i != at {
                    assert(r[i] == ls[i]);
                }
            }
        }
    }
}

/// Any number of padding edits leave the settings among the lines as they
/// were: blank lines and comments added or removed anywhere, first and last
/// lines included, and white space changed around any line.
pub proof fn law_padding_edits_keep_settings(ls: Seq<Seq<char>>, edits: Seq<(nat, int, Seq<char>)>)
    requires
        padding_edits(ls, edits),
    ensures
        settings_among(apply_edits(ls, edits)) == settings_among(ls),
        all_one_line(ls) ==> all_one_line(apply_edits(ls, edits)),
    decreases edits.len(),
{
    if edits.len() > 0 {
        lemma_padding_edit(ls, edits[0]);
        law_padding_edits_keep_settings(apply_edit(ls, edits[0]), edits.drop_first());
    }
}

/// In a file's text: any number of padding edits to its lines leave its
/// settings as they were.
pub proof fn law_text_padding_edits_keep_settings(
    ls: Seq<Seq<char>>,
    edits: Seq<(nat, int, Seq<char>)>,
)
    requires
        all_one_line(ls),
        padding_edits(ls, edits),
    ensures
        settings_of(text_of(apply_edits(ls, edits))) == settings_of(text_of(ls)),
{
    law_padding_edits_keep_settings(ls, edits);
    lemma_settings_of_text(ls);
    lemma_settings_of_text(apply_edits(ls, edits));
}

} // verus!
