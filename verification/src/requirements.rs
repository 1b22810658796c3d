//! From the entries of a manifest to the package list: every entry
//! normalized in manifest order, and the list written out one specifier to
//! a line.

use crate::dependency::{
    has_special_scheme, lemma_special_scheme_verbatim, normalize_entry, normalize_spec, Section,
};
use crate::manifest::{lemma_scanned_entries, scan_manifest, scanned, Manifest};
use crate::platform::PlatformTag;
use crate::text::{index_of, lemma_trim_ends};
use vstd::prelude::*;

verus! {

/// The specifiers of `entries`, entry after entry.
pub open spec fn resolve_all(entries: Seq<Seq<char>>, section: Section, current: PlatformTag) -> Seq<
    Seq<char>,
>
    decreases entries.len(),
{
    if entries.len() == 0 {
        Seq::<Seq<char>>::empty()
    } else {
        normalize_spec(entries[0], section, current) + resolve_all(
            entries.drop_first(),
            section,
            current,
        )
    }
}

/// The package list of a manifest: what its dependency entries give, then
/// what its pip entries give.
pub open spec fn requirements_of(
    dependencies: Seq<Seq<char>>,
    pip: Seq<Seq<char>>,
    current: PlatformTag,
) -> Seq<Seq<char>> {
    resolve_all(dependencies, Section::Dependencies, current) + resolve_all(
        pip,
        Section::Pip,
        current,
    )
}

/// The entries of an optional list: none where the list is absent.
pub open spec fn entries_or_none(list: Option<Vec<String>>) -> Seq<Seq<char>> {
    match list {
        Some(v) => v.deep_view(),
        None => Seq::<Seq<char>>::empty(),
    }
}

/// The text of a package list: each specifier followed by a line feed.
pub open spec fn rendered(specs: Seq<Seq<char>>) -> Seq<char>
    decreases specs.len(),
{
    if specs.len() == 0 {
        Seq::<char>::empty()
    } else {
        specs[0].push('\n') + rendered(specs.drop_first())
    }
}

/// Resolving keeps the order of the entries and merges nothing: the list of
/// two runs of entries is the list of the first followed by the list of the
/// second.
pub proof fn lemma_resolve_all_concat(
    a: Seq<Seq<char>>,
    b: Seq<Seq<char>>,
    section: Section,
    current: PlatformTag,
)
    ensures
        resolve_all(a + b, section, current) == resolve_all(a, section, current) + resolve_all(
            b,
            section,
            current,
        ),
    decreases a.len(),
{
    if a.len() == 0 {
        assert(a + b =~= b);
        assert(resolve_all(a, section, current) + resolve_all(b, section, current)
            =~= resolve_all(b, section, current));
    } else {
        lemma_resolve_all_concat(a.drop_first(), b, section, current);
        assert((a + b).drop_first() =~= a.drop_first() + b);
        assert(resolve_all(a + b, section, current) =~= resolve_all(a, section, current)
            + resolve_all(b, section, current));
    }
}

/// An entry read from a manifest text that has a special scheme and holds
/// no `#` is given as it stands, character for character, on every
/// platform and from either list.
pub proof fn lemma_scanned_special_scheme_verbatim(
    text: Seq<char>,
    section: Section,
    k: int,
    current: PlatformTag,
)
    requires
        0 <= k < scanned(text, section).len(),
        has_special_scheme(scanned(text, section)[k]),
        index_of(scanned(text, section)[k], '#') == scanned(text, section)[k].len(),
    ensures
        normalize_spec(scanned(text, section)[k], section, current) == seq![
            scanned(text, section)[k],
        ],
{
    let entry = scanned(text, section)[k];
    lemma_scanned_entries(text, section);
    lemma_trim_ends(entry);
    lemma_special_scheme_verbatim(entry, section, current);
}

/// Appends to `out` the specifiers of `entries`, entry after entry.
fn resolve_into(
    entries: &Vec<String>,
    section: Section,
    current: PlatformTag,
    out: &mut Vec<String>,
)
    ensures
        final(out).deep_view() == old(out).deep_view() + resolve_all(
            entries.deep_view(),
            section,
            current,
        ),
{
    let ghost all = entries.deep_view();
    let ghost goal = out.deep_view() + resolve_all(all, section, current);
    let mut i: usize = 0;
    assert(all.skip(0) =~= all);
    while i < entries.len()
        invariant
            i <= entries.len(),
            all == entries.deep_view(),
            out.deep_view() + resolve_all(all.skip(i as int), section, current) == goal,
        decreases entries.len() - i,
    {
        let ghost before = out.deep_view();
        let mut part = normalize_entry(entries[i].as_str(), section, current);
        let ghost added = part.deep_view();
        out.append(&mut part);
        proof {
            assert(out.deep_view() =~= before + added);
            assert(all.skip(i as int)[0] == entries[i as int]@);
            assert(all.skip(i as int).drop_first() =~= all.skip(i + 1));
            assert(out.deep_view() + resolve_all(all.skip(i + 1), section, current) =~= before
                + resolve_all(all.skip(i as int), section, current));
        }
        i = i + 1;
    }
    assert(resolve_all(all.skip(i as int), section, current).len() == 0);
    assert(out.deep_view() =~= goal);
}

/// The package list of two lists of entries on the platform `current`: the
/// specifiers of the dependency entries in their order, then those of the
/// pip entries in theirs. Nothing is sorted and nothing is merged.
pub fn resolve_entries(dependencies: &Vec<String>, pip: &Vec<String>, current: PlatformTag) -> (out:
    Vec<String>)
    ensures
        out.deep_view() == requirements_of(dependencies.deep_view(), pip.deep_view(), current),
{
    let mut out: Vec<String> = Vec::new();
    resolve_into(dependencies, Section::Dependencies, current, &mut out);
    resolve_into(pip, Section::Pip, current, &mut out);
    assert(out.deep_view() =~= requirements_of(
        dependencies.deep_view(),
        pip.deep_view(),
        current,
    ));
    out
}

impl Manifest {
    /// The package list of this manifest on the platform `current`.
    pub fn requirements(&self, current: PlatformTag) -> (out: Vec<String>)
        ensures
            out.deep_view() == requirements_of(
                self.dependencies.deep_view(),
                entries_or_none(self.pip),
                current,
            ),
    {
        match &self.pip {
            Some(pip) => resolve_entries(&self.dependencies, pip, current),
            None => {
                let none: Vec<String> = Vec::new();
                assert(none.deep_view() =~= Seq::<Seq<char>>::empty());
                resolve_entries(&self.dependencies, &none, current)
            },
        }
    }
}

/// The package list of a manifest text on the platform `current`: its
/// entries are read from the text with their comments, then resolved.
pub fn resolve_text(text: &str, current: PlatformTag) -> (out: Vec<String>)
    ensures
        out.deep_view() == requirements_of(
            scanned(text@, Section::Dependencies),
            scanned(text@, Section::Pip),
            current,
        ),
{
    let raw = scan_manifest(text);
    resolve_entries(&raw.dependencies, &raw.pip, current)
}

/// The text of a package list: one specifier to a line, in order.
pub fn render_requirements(specs: &Vec<String>) -> (s: String)
    ensures
        s@ == rendered(specs.deep_view()),
{
    let ghost all = specs.deep_view();
    let mut s = String::new();
    let mut i: usize = 0;
    assert(all.skip(0) =~= all);
    assert(s@ + rendered(all) =~= rendered(all));
    while i < specs.len()
        invariant
            i <= specs.len(),
            all == specs.deep_view(),
            s@ + rendered(all.skip(i as int)) == rendered(all),
        decreases specs.len() - i,
    {
        let ghost before = s@;
        s.append(specs[i].as_str());
        s.push('\n');
        proof {
            assert(all.skip(i as int)[0] == specs[i as int]@);
            assert(all.skip(i as int).drop_first() =~= all.skip(i + 1));
            assert(s@ =~= before + specs[i as int]@.push('\n'));
            assert(s@ + rendered(all.skip(i + 1)) =~= before + rendered(all.skip(i as int)));
        }
        i = i + 1;
    }
    assert(rendered(all.skip(i as int)).len() == 0);
    assert(s@ =~= rendered(all));
    s
}

} // verus!
