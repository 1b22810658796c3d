//! The environment manifest, and the scanner that reads its entries from
//! the text with their trailing comments kept.

use crate::dependency::Section;
use crate::text::{
    char_is_space, find_char, from_chars, is_space, lemma_trim_ends, split_on, to_chars, trim,
    trim_window, window_equals,
};
use vstd::prelude::*;

verus! {

/// An environment manifest. An absent optional list and an empty one both
/// stand for no entries.
#[derive(Clone, Debug, PartialEq, Eq)]
pub struct Manifest {
    pub name: String,
    pub python_version: Option<String>,
    pub channels: Option<Vec<String>>,
    pub dependencies: Vec<String>,
    pub pip: Option<Vec<String>>,
}

/// The entries of the two lists of a manifest, each as written, comment
/// included, in the order of the text.
#[derive(Clone, Debug, PartialEq, Eq)]
pub struct RawSections {
    pub dependencies: Vec<String>,
    pub pip: Vec<String>,
}

/// Whether a line is blank or holds only a comment.
pub open spec fn is_blank(line: Seq<char>) -> bool {
    trim(line).len() == 0 || trim(line)[0] == '#'
}

/// The list that a line opens, if it is a header.
pub open spec fn header_of(line: Seq<char>) -> Option<Section> {
    if trim(line) == "dependencies:"@ {
        Some(Section::Dependencies)
    } else if trim(line) == "pip:"@ {
        Some(Section::Pip)
    } else {
        None
    }
}

/// Whether a line is a list item: trimmed, it begins with `-`.
pub open spec fn is_item(line: Seq<char>) -> bool {
    trim(line).len() > 0 && trim(line)[0] == '-'
}

/// The entry of a list item: the line trimmed, without its leading dash,
/// trimmed again.
pub open spec fn line_entry(line: Seq<char>) -> Seq<char> {
    trim(trim(line).drop_first())
}

/// Whether a line begins with neither `-` nor whitespace.
pub open spec fn is_dedent(line: Seq<char>) -> bool {
    line.len() > 0 && line[0] != '-' && !is_space(line[0])
}

/// The list that is open after a line, given the one open before it. Blank
/// lines and comments change nothing; a header opens its list; inside a
/// list an item keeps it open, and any other line closes it exactly if it
/// is a dedent.
pub open spec fn section_after(current: Option<Section>, line: Seq<char>) -> Option<Section> {
    if is_blank(line) {
        current
    } else if header_of(line) is Some {
        header_of(line)
    } else if current is None {
        None
    } else if is_item(line) {
        current
    } else if is_dedent(line) {
        None
    } else {
        current
    }
}

/// What a line adds to the list `want`: its entry, if the line is an item
/// with a non-empty entry while `want` is open.
pub open spec fn entry_on(current: Option<Section>, line: Seq<char>, want: Section) -> Seq<
    Seq<char>,
> {
    if !is_blank(line) && header_of(line) is None && current == Some(want) && is_item(line)
        && line_entry(line).len() > 0 {
        seq![line_entry(line)]
    } else {
        Seq::<Seq<char>>::empty()
    }
}

/// The entries that `lines` add to the list `want`, in order, where
/// `current` is open before the first line.
pub open spec fn scan_lines(lines: Seq<Seq<char>>, current: Option<Section>, want: Section) -> Seq<
    Seq<char>,
>
    decreases lines.len(),
{
    if lines.len() == 0 {
        Seq::<Seq<char>>::empty()
    } else {
        entry_on(current, lines[0], want) + scan_lines(
            lines.drop_first(),
            section_after(current, lines[0]),
            want,
        )
    }
}

/// The entries of the list `want` in a manifest text, in the order of the
/// text. Lines end at `\n`.
pub open spec fn scanned(text: Seq<char>, want: Section) -> Seq<Seq<char>> {
    scan_lines(split_on(text, '\n'), None, want)
}

/// Whether a text has characters and no whitespace at either end.
pub open spec fn is_entry(e: Seq<char>) -> bool {
    e.len() > 0 && !is_space(e[0]) && !is_space(e.last())
}

/// Every entry that lines add to a list has characters and no whitespace
/// at either end.
proof fn lemma_scan_lines_entries(lines: Seq<Seq<char>>, current: Option<Section>, want: Section)
    ensures
        forall|k: int|
            0 <= k < scan_lines(lines, current, want).len() ==> is_entry(
                #[trigger] scan_lines(lines, current, want)[k],
            ),
    decreases lines.len(),
{
    if lines.len() > 0 {
        let head = entry_on(current, lines[0], want);
        let tail = scan_lines(lines.drop_first(), section_after(current, lines[0]), want);
        lemma_scan_lines_entries(lines.drop_first(), section_after(current, lines[0]), want);
        lemma_trim_ends(trim(lines[0]).drop_first());
        assert forall|k: int| 0 <= k < (head + tail).len() implies is_entry(
            #[trigger] (head + tail)[k],
        ) by {
            if k >= head.len() {
                assert((head + tail)[k] == tail[k - head.len()]);
            }
        }
    }
}

/// What is read from a manifest text is an entry: no item with nothing
/// after its dash is kept, and no entry has whitespace around it.
pub proof fn lemma_scanned_entries(text: Seq<char>, want: Section)
    ensures
        forall|k: int|
            0 <= k < scanned(text, want).len() ==> is_entry(#[trigger] scanned(text, want)[k]),
{
    lemma_scan_lines_entries(split_on(text, '\n'), None, want);
}

/// Reads the line in the window of `v` from `start` to `end`: appends its
/// entry to the open list, if it has one, and returns the list that is open
/// after it.
fn scan_line(
    v: &Vec<char>,
    start: usize,
    end: usize,
    current: Option<Section>,
    dep_header: &Vec<char>,
    pip_header: &Vec<char>,
    deps: &mut Vec<String>,
    pip: &mut Vec<String>,
) -> (next: Option<Section>)
    requires
        start <= end <= v.len(),
        dep_header@ == "dependencies:"@,
        pip_header@ == "pip:"@,
    ensures
        next == section_after(current, v@.subrange(start as int, end as int)),
        final(deps).deep_view() == old(deps).deep_view() + entry_on(
            current,
            v@.subrange(start as int, end as int),
            Section::Dependencies,
        ),
        final(pip).deep_view() == old(pip).deep_view() + entry_on(
            current,
            v@.subrange(start as int, end as int),
            Section::Pip,
        ),
{
    let ghost line = v@.subrange(start as int, end as int);
    let ghost deps0 = deps.deep_view();
    let ghost pip0 = pip.deep_view();
    let ghost none = Seq::<Seq<char>>::empty();
    assert(deps0 + none =~= deps0);
    assert(pip0 + none =~= pip0);
    let (a, b) = trim_window(v, start, end);
    if a == b || v[a] == '#' {
        return current;
    }
    if window_equals(v, a, b, dep_header) {
        return Some(Section::Dependencies);
    }
    if window_equals(v, a, b, pip_header) {
        return Some(Section::Pip);
    }
    match current {
        None => None,
        Some(section) => {
            if v[a] == '-' {
                let (x, y) = trim_window(v, a + 1, b);
                assert(v@.subrange(a as int, b as int).drop_first() =~= v@.subrange(
                    a + 1,
                    b as int,
                ));
                if y > x {
                    let entry = from_chars(v, x, y);
                    match section {
                        Section::Dependencies => {
                            deps.push(entry);
                            assert(deps.deep_view() =~= deps0 + seq![line_entry(line)]);
                        },
                        Section::Pip => {
                            pip.push(entry);
                            assert(pip.deep_view() =~= pip0 + seq![line_entry(line)]);
                        },
                    }
                }
                current
            } else if v[start] != '-' && !char_is_space(v[start]) {
                None
            } else {
                current
            }
        },
    }
}

/// The entries of the two lists of a manifest text. A list opens at a line
/// that is exactly `dependencies:` or `pip:` once trimmed and closes at the
/// first later line that is not blank, not a comment and begins with
/// neither `-` nor whitespace.
pub fn scan_manifest(text: &str) -> (r: RawSections)
    ensures
        r.dependencies.deep_view() == scanned(text@, Section::Dependencies),
        r.pip.deep_view() == scanned(text@, Section::Pip),
{
    let v = to_chars(text);
    let n: usize = v.len();
    let dep_header = to_chars("dependencies:");
    let pip_header = to_chars("pip:");
    let mut deps: Vec<String> = Vec::new();
    let mut pip: Vec<String> = Vec::new();
    let mut current: Option<Section> = None;
    let mut pos: usize = 0;
    let mut done = false;
    assert(v@.subrange(0, n as int) =~= text@);
    assert(deps.deep_view() + scanned(text@, Section::Dependencies) =~= scanned(
        text@,
        Section::Dependencies,
    ));
    assert(pip.deep_view() + scanned(text@, Section::Pip) =~= scanned(text@, Section::Pip));
    while !done
        invariant
            pos <= n == v.len(),
            dep_header@ == "dependencies:"@,
            pip_header@ == "pip:"@,
            done ==> deps.deep_view() == scanned(text@, Section::Dependencies),
            done ==> pip.deep_view() == scanned(text@, Section::Pip),
            !done ==> deps.deep_view() + scan_lines(
                split_on(v@.subrange(pos as int, n as int), '\n'),
                current,
                Section::Dependencies,
            ) == scanned(text@, Section::Dependencies),
            !done ==> pip.deep_view() + scan_lines(
                split_on(v@.subrange(pos as int, n as int), '\n'),
                current,
                Section::Pip,
            ) == scanned(text@, Section::Pip),
        decreases n - pos + (if done { 0int } else { 1int }),
    {
        let ghost w = v@.subrange(pos as int, n as int);
        let ghost deps0 = deps.deep_view();
        let ghost pip0 = pip.deep_view();
        let e = find_char(&v, pos, n, '\n');
        let ghost line = v@.subrange(pos as int, e as int);
        let next = scan_line(&v, pos, e, current, &dep_header, &pip_header, &mut deps, &mut pip);
        assert(line =~= w.take(e - pos));
        if e == n {
            proof {
                assert(line =~= w);
                assert(split_on(w, '\n') == seq![w]);
                lemma_scan_one(w, current, Section::Dependencies);
                lemma_scan_one(w, current, Section::Pip);
            }
            done = true;
        } else {
            proof {
                let rest = split_on(w.skip(e - pos + 1), '\n');
                let lines = seq![line] + rest;
                assert(split_on(w, '\n') == lines);
                assert(lines.drop_first() =~= rest);
                assert(w.skip(e - pos + 1) =~= v@.subrange(e + 1, n as int));
                assert(deps.deep_view() + scan_lines(rest, next, Section::Dependencies) =~= deps0
                    + scan_lines(lines, current, Section::Dependencies));
                assert(pip.deep_view() + scan_lines(rest, next, Section::Pip) =~= pip0
                    + scan_lines(lines, current, Section::Pip));
            }
            pos = e + 1;
        }
        current = next;
    }
    RawSections { dependencies: deps, pip }
}

/// A single line adds exactly its own entry.
proof fn lemma_scan_one(line: Seq<char>, current: Option<Section>, want: Section)
    ensures
        scan_lines(seq![line], current, want) == entry_on(current, line, want),
{
    let rest = seq![line].drop_first();
    assert(rest =~= Seq::<Seq<char>>::empty());
    assert(scan_lines(rest, section_after(current, line), want).len() == 0);
    assert(scan_lines(seq![line], current, want) =~= entry_on(current, line, want));
}

} // verus!
