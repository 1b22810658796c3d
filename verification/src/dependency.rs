//! One manifest entry to the package specifiers it stands for on a platform.

use crate::platform::PlatformTag;
use crate::text::{
    contains_sub, find_char, from_chars, has_sub, index_of, joined, lemma_split_on,
    lowercase_of, split_on, str_to_lowercase, to_chars, trim, trim_window, window_starts_with,
};
use vstd::prelude::*;

verus! {

/// The list of the manifest that an entry was written in.
#[derive(Clone, Copy, Debug, PartialEq, Eq, Structural)]
pub enum Section {
    Dependencies,
    Pip,
}

/// Whether a lower-cased comment carries a marker that names `tag`.
pub open spec fn has_marker(comment: Seq<char>, tag: PlatformTag) -> bool {
    match tag {
        PlatformTag::Windows => has_sub(comment, "[win]"@),
        PlatformTag::Linux => has_sub(comment, "[linux]"@),
        PlatformTag::MacOS => has_sub(comment, "[osx]"@) || has_sub(comment, "[darwin]"@),
    }
}

/// Whether a lower-cased comment carries a marker for a platform other than
/// `current`. Each platform's marker is looked for on its own, so a comment
/// that names two platforms excludes the entry everywhere.
pub open spec fn marker_excludes(comment: Seq<char>, current: PlatformTag) -> bool {
    ||| has_marker(comment, PlatformTag::Windows) && current != PlatformTag::Windows
    ||| has_marker(comment, PlatformTag::Linux) && current != PlatformTag::Linux
    ||| has_marker(comment, PlatformTag::MacOS) && current != PlatformTag::MacOS
}

/// A specifier as a list: itself where it has characters, nothing where not.
pub open spec fn emitted(spec_part: Seq<char>) -> Seq<Seq<char>> {
    if spec_part.len() == 0 {
        Seq::<Seq<char>>::empty()
    } else {
        seq![spec_part]
    }
}

/// Each piece trimmed, in order, without those that trimming leaves empty.
pub open spec fn trimmed_non_empty(pieces: Seq<Seq<char>>) -> Seq<Seq<char>>
    decreases pieces.len(),
{
    if pieces.len() == 0 {
        Seq::<Seq<char>>::empty()
    } else {
        emitted(trim(pieces[0])) + trimmed_non_empty(pieces.drop_first())
    }
}

/// The members of a pip group, given what follows its `pip:`.
pub open spec fn pip_members(rest: Seq<char>) -> Seq<Seq<char>> {
    trimmed_non_empty(split_on(rest, ','))
}

/// What follows the `pip:` of a pip group.
pub open spec fn pip_rest(entry: Seq<char>) -> Seq<char> {
    entry.skip("pip:"@.len() as int)
}

/// Whether an entry is a pip group: it is one in the dependency list, where
/// it begins with `pip:`.
pub open spec fn is_pip_group(entry: Seq<char>, section: Section) -> bool {
    section == Section::Dependencies && "pip:"@.is_prefix_of(entry)
}

/// What an entry with a comment gives: nothing where the lower-cased comment
/// names another platform, else the part before the comment.
pub open spec fn commented_spec(
    spec_part: Seq<char>,
    comment_lower: Seq<char>,
    current: PlatformTag,
) -> Seq<Seq<char>> {
    if marker_excludes(comment_lower, current) {
        Seq::<Seq<char>>::empty()
    } else {
        emitted(spec_part)
    }
}

/// The specifiers that one entry stands for on the platform `current`. The
/// first rule that fits decides: a pip group gives its members whatever the
/// platform; an entry with a `#` is split there and filtered by the markers
/// of its comment; any other entry gives itself, trimmed.
pub open spec fn normalize_spec(entry: Seq<char>, section: Section, current: PlatformTag) -> Seq<
    Seq<char>,
> {
    if is_pip_group(entry, section) {
        pip_members(pip_rest(entry))
    } else {
        let h = index_of(entry, '#');
        if 0 <= h < entry.len() {
            commented_spec(trim(entry.take(h)), lowercase_of(trim(entry.skip(h))), current)
        } else {
            emitted(trim(entry))
        }
    }
}

/// A piece that keeps characters once trimmed is in the trimmed list.
proof fn lemma_trimmed_piece_kept(pieces: Seq<Seq<char>>, k: int)
    requires
        0 <= k < pieces.len(),
        trim(pieces[k]).len() > 0,
    ensures
        trimmed_non_empty(pieces).contains(trim(pieces[k])),
    decreases k,
{
    let head = emitted(trim(pieces[0]));
    let tail = trimmed_non_empty(pieces.drop_first());
    if k == 0 {
        assert((head + tail)[0] == trim(pieces[0]));
    } else {
        lemma_trimmed_piece_kept(pieces.drop_first(), k - 1);
        let j = choose|j: int| 0 <= j < tail.len() && tail[j] == trim(pieces[k]);
        assert((head + tail)[head.len() + j] == trim(pieces[k]));
    }
}

/// A pip group gives every piece between its commas that keeps characters
/// once trimmed, and gives the same list on every platform. The pieces are
/// what stands between the commas: none holds a comma, and joined by commas
/// they are what follows `pip:`.
pub proof fn lemma_pip_group_members(entry: Seq<char>, current: PlatformTag, other: PlatformTag)
    requires
        is_pip_group(entry, Section::Dependencies),
    ensures
        forall|k: int|
            #![trigger split_on(pip_rest(entry), ',')[k]]
            0 <= k < split_on(pip_rest(entry), ',').len() && trim(
                split_on(pip_rest(entry), ',')[k],
            ).len() > 0 ==> normalize_spec(entry, Section::Dependencies, current).contains(
                trim(split_on(pip_rest(entry), ',')[k]),
            ),
        forall|k: int|
            #![trigger split_on(pip_rest(entry), ',')[k]]
            0 <= k < split_on(pip_rest(entry), ',').len() ==> index_of(
                split_on(pip_rest(entry), ',')[k],
                ',',
            ) == split_on(pip_rest(entry), ',')[k].len(),
        joined(split_on(pip_rest(entry), ','), ',') == pip_rest(entry),
        normalize_spec(entry, Section::Dependencies, current) == normalize_spec(
            entry,
            Section::Dependencies,
            other,
        ),
{
    let pieces = split_on(pip_rest(entry), ',');
    lemma_split_on(pip_rest(entry), ',');
    assert forall|k: int| 0 <= k < pieces.len() && trim(#[trigger] pieces[k]).len()
        > 0 implies normalize_spec(entry, Section::Dependencies, current).contains(
        trim(pieces[k]),
    ) by {
        lemma_trimmed_piece_kept(pieces, k);
    }
}

/// An entry with a comment that is no pip group is kept exactly on the
/// platform its marker names: with no marker it gives the part before the
/// comment on every platform; with markers for one platform only it gives
/// that part there and nothing elsewhere.
pub proof fn lemma_marker_filter(
    entry: Seq<char>,
    section: Section,
    current: PlatformTag,
    named: PlatformTag,
)
    requires
        !is_pip_group(entry, section),
        0 <= index_of(entry, '#') < entry.len(),
    ensures
        ({
            let h = index_of(entry, '#');
            let spec_part = trim(entry.take(h));
            let comment = lowercase_of(trim(entry.skip(h)));
            let list = normalize_spec(entry, section, current);
            &&& (forall|t: PlatformTag| !has_marker(comment, t)) ==> list == emitted(spec_part)
            &&& has_marker(comment, named) && (forall|t: PlatformTag|
                has_marker(comment, t) ==> t == named) ==> list == if current == named {
                emitted(spec_part)
            } else {
                Seq::<Seq<char>>::empty()
            }
        }),
{
    let comment = lowercase_of(trim(entry.skip(index_of(entry, '#'))));
    if forall|t: PlatformTag| !has_marker(comment, t) {
        assert(!has_marker(comment, PlatformTag::Windows));
        assert(!has_marker(comment, PlatformTag::Linux));
        assert(!has_marker(comment, PlatformTag::MacOS));
    }
    if forall|t: PlatformTag| has_marker(comment, t) ==> t == named {
        assert(has_marker(comment, PlatformTag::Windows) ==> PlatformTag::Windows == named);
        assert(has_marker(comment, PlatformTag::Linux) ==> PlatformTag::Linux == named);
        assert(has_marker(comment, PlatformTag::MacOS) ==> PlatformTag::MacOS == named);
    }
}

/// Whether an entry begins with one of the schemes that mark it as a
/// location or an editable install rather than a name and a version.
pub open spec fn has_special_scheme(entry: Seq<char>) -> bool {
    ||| "git+"@.is_prefix_of(entry)
    ||| "http://"@.is_prefix_of(entry)
    ||| "https://"@.is_prefix_of(entry)
    ||| "-e "@.is_prefix_of(entry)
}

/// An entry with a special scheme that holds no `#` and has no whitespace
/// around it is given as it stands, character for character, on every
/// platform and in either list.
pub proof fn lemma_special_scheme_verbatim(entry: Seq<char>, section: Section, current: PlatformTag)
    requires
        has_special_scheme(entry),
        index_of(entry, '#') == entry.len(),
        trim(entry) == entry,
    ensures
        normalize_spec(entry, section, current) == seq![entry],
{
    reveal_strlit("pip:");
    reveal_strlit("git+");
    reveal_strlit("http://");
    reveal_strlit("https://");
    reveal_strlit("-e ");
    if "pip:"@.is_prefix_of(entry) {
        assert(entry.subrange(0, 4)[0] == 'p');
        if "git+"@.is_prefix_of(entry) {
            assert(entry.subrange(0, 4)[0] == 'g');
        }
        if "http://"@.is_prefix_of(entry) {
            assert(entry.subrange(0, 7)[0] == 'h');
        }
        if "https://"@.is_prefix_of(entry) {
            assert(entry.subrange(0, 8)[0] == 'h');
        }
        if "-e "@.is_prefix_of(entry) {
            assert(entry.subrange(0, 3)[0] == '-');
        }
    }
    assert(entry.len() > 0);
}

/// Whether a lower-cased comment excludes its entry on the platform
/// `current`.
pub fn excluded_by_markers(comment_lower: &str, current: PlatformTag) -> (b: bool)
    ensures
        b == marker_excludes(comment_lower@, current),
{
    let c = to_chars(comment_lower);
    let win = contains_sub(&c, &to_chars("[win]"));
    let linux = contains_sub(&c, &to_chars("[linux]"));
    let mac = contains_sub(&c, &to_chars("[osx]")) || contains_sub(&c, &to_chars("[darwin]"));
    match current {
        PlatformTag::Windows => linux || mac,
        PlatformTag::Linux => win || mac,
        PlatformTag::MacOS => win || linux,
    }
}

/// The specifiers of an entry that has a comment, from the part before the
/// comment and the comment in lower case.
pub fn filter_commented(spec_part: String, comment_lower: &str, current: PlatformTag) -> (out:
    Vec<String>)
    ensures
        out.deep_view() == commented_spec(spec_part@, comment_lower@, current),
{
    let mut out: Vec<String> = Vec::new();
    if !excluded_by_markers(comment_lower, current) && spec_part.as_str().unicode_len() > 0 {
        out.push(spec_part);
    }
    assert(out.deep_view() =~= commented_spec(spec_part@, comment_lower@, current));
    out
}

/// Appends to `out` the members of the pip group whose text after `pip:` is
/// the window of `v` from `start` to `end`.
fn push_pip_members(v: &Vec<char>, start: usize, end: usize, out: &mut Vec<String>)
    requires
        start <= end <= v.len(),
    ensures
        final(out).deep_view() == old(out).deep_view() + pip_members(
            v@.subrange(start as int, end as int),
        ),
{
    let ghost base = out.deep_view();
    let ghost goal = base + pip_members(v@.subrange(start as int, end as int));
    let mut pos: usize = start;
    let mut done = false;
    while !done
        invariant
            start <= pos <= end <= v.len(),
            done ==> out.deep_view() == goal,
            !done ==> out.deep_view() + pip_members(v@.subrange(pos as int, end as int)) == goal,
        decreases end - pos + (if done { 0int } else { 1int }),
    {
        let ghost w = v@.subrange(pos as int, end as int);
        let ghost before = out.deep_view();
        let c = find_char(v, pos, end, ',');
        let (a, b) = trim_window(v, pos, c);
        assert(v@.subrange(pos as int, c as int) =~= w.take(c - pos));
        if b > a {
            let piece = from_chars(v, a, b);
            out.push(piece);
        }
        assert(out.deep_view() =~= before + emitted(trim(w.take(c - pos))));
        if c == end {
            proof {
                assert(w.take(c - pos) =~= w);
                assert(split_on(w, ',') == seq![w]);
                assert(seq![w].drop_first() =~= Seq::<Seq<char>>::empty());
                assert(trimmed_non_empty(Seq::<Seq<char>>::empty()).len() == 0);
                assert(trimmed_non_empty(seq![w]) =~= emitted(trim(w)));
            }
            done = true;
        } else {
            proof {
                let rest = split_on(w.skip(c - pos + 1), ',');
                let pieces = seq![w.take(c - pos)] + rest;
                assert(split_on(w, ',') == pieces);
                assert(pieces.drop_first() =~= rest);
                assert(w.skip(c - pos + 1) =~= v@.subrange(c + 1, end as int));
                assert(out.deep_view() + pip_members(v@.subrange(c + 1, end as int)) =~= before
                    + pip_members(w));
            }
            pos = c + 1;
        }
    }
}

/// The specifiers that one entry stands for on the platform `current`, in
/// the order in which the entry names them.
pub fn normalize_entry(entry: &str, section: Section, current: PlatformTag) -> (out: Vec<String>)
    ensures
        out.deep_view() == normalize_spec(entry@, section, current),
{
    let v = to_chars(entry);
    let n: usize = v.len();
    assert(v@.subrange(0, n as int) =~= entry@);
    let prefix = to_chars("pip:");
    let grouped = match section {
        Section::Dependencies => window_starts_with(&v, 0, n, &prefix),
        Section::Pip => false,
    };
    if grouped {
        let mut out: Vec<String> = Vec::new();
        let a: usize = prefix.len();
        assert(v@.subrange(a as int, n as int) =~= pip_rest(entry@));
        push_pip_members(&v, a, n, &mut out);
        assert(out.deep_view() =~= normalize_spec(entry@, section, current));
        return out;
    }
    let h = find_char(&v, 0, n, '#');
    if h < n {
        let (a, b) = trim_window(&v, 0, h);
        let (c, d) = trim_window(&v, h, n);
        assert(v@.subrange(0, h as int) =~= entry@.take(h as int));
        assert(v@.subrange(h as int, n as int) =~= entry@.skip(h as int));
        let comment = from_chars(&v, c, d);
        let lower = str_to_lowercase(comment.as_str());
        filter_commented(from_chars(&v, a, b), lower.as_str(), current)
    } else {
        let (a, b) = trim_window(&v, 0, n);
        let mut out: Vec<String> = Vec::new();
        if b > a {
            out.push(from_chars(&v, a, b));
        }
        assert(out.deep_view() =~= emitted(trim(entry@)));
        out
    }
}

} // verus!
