//! A browser over several component libraries: category and keyword indexes,
//! scored text search, recent items and favorites.
//!
//! The indexes are association lists in first-seen key order; search results
//! are sorted by score with a stable insertion sort, specified exactly.

use vstd::prelude::*;
use vstd::string::*;
use crate::library::{ComponentType, Library, LibraryComponent, LibraryComponentView,
    LibrarySearchQuery, contains_seq};
use crate::outside::{lower_of, lowercase};
use crate::props::{clone_string, str_eq_string};
use crate::text::{find_chars, str_chars};

verus! {

/// The category label of a component type.
pub open spec fn spec_category_of(t: ComponentType) -> Seq<char> {
    match t {
        ComponentType::Symbol => "symbol"@,
        ComponentType::Footprint => "footprint"@,
        ComponentType::Cell => "cell"@,
        ComponentType::Gate => "gate"@,
        ComponentType::Structure => "structure"@,
        ComponentType::Die => "die"@,
        ComponentType::Component => "component"@,
    }
}

/// The category label of a component type, as text.
pub fn category_of(t: ComponentType) -> (r: &'static str)
    ensures
        r@ == spec_category_of(t),
{
    match t {
        ComponentType::Symbol => "symbol",
        ComponentType::Footprint => "footprint",
        ComponentType::Cell => "cell",
        ComponentType::Gate => "gate",
        ComponentType::Structure => "structure",
        ComponentType::Die => "die",
        ComponentType::Component => "component",
    }
}

/// An index: keys to lists of (library, component) index pairs, in first-seen
/// key order.
pub type IndexView = Seq<(Seq<char>, Seq<(int, int)>)>;

/// First position at or after `i` of an index key.
pub open spec fn index_find(idx: IndexView, key: Seq<char>, i: int) -> Option<int>
    decreases idx.len() - i,
{
    if i < 0 || i >= idx.len() {
        None
    } else if idx[i].0 == key {
        Some(i)
    } else {
        index_find(idx, key, i + 1)
    }
}

/// An entry appended under a key: to the key's existing list, or as a new
/// key at the end.
pub open spec fn index_append(idx: IndexView, key: Seq<char>, entry: (int, int)) -> IndexView {
    match index_find(idx, key, 0) {
        Some(i) => idx.update(i, (idx[i].0, idx[i].1.push(entry))),
        None => idx.push((key, seq![entry])),
    }
}

/// The keyword entries of one component folded into an index.
pub open spec fn spec_index_keywords(
    idx: IndexView,
    keywords: Seq<Seq<char>>,
    entry: (int, int),
    k: int,
) -> IndexView
    decreases k,
{
    if k <= 0 {
        idx
    } else {
        index_append(
            spec_index_keywords(idx, keywords, entry, k - 1),
            lower_of(keywords[k - 1]),
            entry,
        )
    }
}

/// One library's components folded into the category index.
pub open spec fn spec_index_categories(
    idx: IndexView,
    comps: Seq<LibraryComponentView>,
    lib_idx: int,
    j: int,
) -> IndexView
    decreases j,
{
    if j <= 0 {
        idx
    } else {
        index_append(
            spec_index_categories(idx, comps, lib_idx, j - 1),
            spec_category_of(comps[j - 1].component_type),
            (lib_idx, j - 1),
        )
    }
}

/// One library's components folded into the keyword index.
pub open spec fn spec_index_all_keywords(
    idx: IndexView,
    comps: Seq<LibraryComponentView>,
    lib_idx: int,
    j: int,
) -> IndexView
    decreases j,
{
    if j <= 0 {
        idx
    } else {
        let prev = spec_index_all_keywords(idx, comps, lib_idx, j - 1);
        spec_index_keywords(
            prev,
            comps[j - 1].keywords,
            (lib_idx, j - 1),
            comps[j - 1].keywords.len() as int,
        )
    }
}

/// Search result from the library browser.
#[derive(Debug, Clone, PartialEq)]
pub struct BrowserResult {
    /// Library index
    pub library_index: usize,
    /// Library name
    pub library_name: String,
    /// Component index within its library
    pub component_index: usize,
    /// The component
    pub component: LibraryComponent,
    /// Match score; higher is better
    pub match_score: u32,
}

/// Mathematical value of a [`BrowserResult`].
#[verifier::ext_equal]
pub ghost struct BrowserResultView {
    pub library_index: int,
    pub library_name: Seq<char>,
    pub component_index: int,
    pub component: LibraryComponentView,
    pub match_score: int,
}

impl View for BrowserResult {
    type V = BrowserResultView;

    open spec fn view(&self) -> BrowserResultView {
        BrowserResultView {
            library_index: self.library_index as int,
            library_name: self.library_name@,
            component_index: self.component_index as int,
            component: self.component@,
            match_score: self.match_score as int,
        }
    }
}

impl DeepView for BrowserResult {
    type V = BrowserResultView;

    open spec fn deep_view(&self) -> BrowserResultView {
        self.view()
    }
}

/// Library browser over several loaded libraries.
#[derive(Debug)]
pub struct LibraryBrowser {
    /// Loaded libraries
    pub libraries: Vec<Library>,
    /// Category label to component positions
    pub category_index: Vec<(String, Vec<(usize, usize)>)>,
    /// Lower-cased keyword to component positions
    pub keyword_index: Vec<(String, Vec<(usize, usize)>)>,
    /// Most recently used component positions, newest first
    pub recent: Vec<(usize, usize)>,
    /// Favorite component positions
    pub favorites: Vec<(usize, usize)>,
}

/// The index as a mathematical association list.
pub open spec fn index_view(v: Seq<(String, Vec<(usize, usize)>)>) -> IndexView {
    Seq::new(
        v.len(),
        |i: int|
            (
                v[i].0@,
                Seq::new(v[i].1@.len(), |k: int| (v[i].1@[k].0 as int, v[i].1@[k].1 as int)),
            ),
    )
}

/// Append one entry under a key in an association-list index.
fn index_append_exec(index: &mut Vec<(String, Vec<(usize, usize)>)>, key: String, l: usize, c: usize)
    ensures
        index_view(final(index)@) == index_append(
            index_view(old(index)@),
            key@,
            (l as int, c as int),
        ),
{
    let ghost idx = index_view(index@);
    let ghost kv = key@;
    let mut i: usize = 0;
    while i < index.len()
        invariant
            idx == index_view(index@),
            idx == index_view(old(index)@),
            kv == key@,
            0 <= i <= index@.len(),
            index_find(idx, kv, 0) == index_find(idx, kv, i as int),
        decreases index.len() - i,
    {
        if str_eq_string(index[i].0.as_str(), &key) {
            let ghost graw = index@;
            let mut pair = index.remove(i);
            pair.1.push((l, c));
            let ghost merged = pair;
            index.insert(i, pair);
            proof {
                assert(index_find(idx, kv, i as int) == Some(i as int));
                assert(index_view(index@) =~= idx.update(
                    i as int,
                    (idx[i as int].0, idx[i as int].1.push((l as int, c as int))),
                )) by {
                    assert(index@ =~= graw.remove(i as int).insert(i as int, merged));
                    assert forall|m: int| 0 <= m < idx.len() && m != i as int implies
                        index_view(index@)[m] == idx[m] by {
                        assert(index@[m] == graw[m]);
                    }
                    assert(index_view(index@)[i as int].0 == idx[i as int].0);
                    assert(index_view(index@)[i as int].1 =~= idx[i as int].1.push(
                        (l as int, c as int),
                    ));
                }
                assert(index_view(index@) == index_append(idx, kv, (l as int, c as int)));
            }
            return ;
        }
        i = i + 1;
    }
    let ghost graw = index@;
    let mut entries: Vec<(usize, usize)> = Vec::new();
    entries.push((l, c));
    index.push((key, entries));
    proof {
        assert(index_view(index@) =~= idx.push((kv, seq![(l as int, c as int)]))) by {
            assert forall|m: int| 0 <= m < idx.len() implies index_view(index@)[m] == idx[m] by {
                assert(index@[m] == graw[m]);
            }
            assert(index_view(index@)[idx.len() as int].1 =~= seq![(l as int, c as int)]);
        }
    }
}

impl LibraryBrowser {
    /// A browser with no libraries loaded.
    pub fn new() -> (b: LibraryBrowser)
        ensures
            b.libraries@ == Seq::<Library>::empty(),
            index_view(b.category_index@) == Seq::<(Seq<char>, Seq<(int, int)>)>::empty(),
            index_view(b.keyword_index@) == Seq::<(Seq<char>, Seq<(int, int)>)>::empty(),
            b.recent@ == Seq::<(usize, usize)>::empty(),
            b.favorites@ == Seq::<(usize, usize)>::empty(),
    {
        let b = LibraryBrowser {
            libraries: Vec::new(),
            category_index: Vec::new(),
            keyword_index: Vec::new(),
            recent: Vec::new(),
            favorites: Vec::new(),
        };
        proof {
            assert(index_view(b.category_index@) =~= Seq::<(Seq<char>, Seq<(int, int)>)>::empty());
            assert(index_view(b.keyword_index@) =~= Seq::<(Seq<char>, Seq<(int, int)>)>::empty());
        }
        b
    }

    /// Add a library: its components join the category index by their type's
    /// label and the keyword index under each lower-cased keyword.
    pub fn add_library(&mut self, library: Library)
        ensures
            final(self).libraries@ == old(self).libraries@.push(library),
            index_view(final(self).category_index@) == spec_index_categories(
                index_view(old(self).category_index@),
                library.components.deep_view(),
                old(self).libraries@.len() as int,
                library.components.deep_view().len() as int,
            ),
            index_view(final(self).keyword_index@) == spec_index_all_keywords(
                index_view(old(self).keyword_index@),
                library.components.deep_view(),
                old(self).libraries@.len() as int,
                library.components.deep_view().len() as int,
            ),
            final(self).recent@ == old(self).recent@,
            final(self).favorites@ == old(self).favorites@,
    {
        let lib_idx = self.libraries.len();
        let ghost comps = library.components.deep_view();
        let ghost cat0 = index_view(self.category_index@);
        let ghost kw0 = index_view(self.keyword_index@);
        let mut j: usize = 0;
        while j < library.components.len()
            invariant
                lib_idx == old(self).libraries@.len(),
                comps == library.components.deep_view(),
                comps.len() == library.components@.len(),
                0 <= j <= comps.len(),
                cat0 == index_view(old(self).category_index@),
                kw0 == index_view(old(self).keyword_index@),
                self.libraries@ == old(self).libraries@,
                self.recent@ == old(self).recent@,
                self.favorites@ == old(self).favorites@,
                index_view(self.category_index@) == spec_index_categories(
                    cat0,
                    comps,
                    lib_idx as int,
                    j as int,
                ),
                index_view(self.keyword_index@) == spec_index_all_keywords(
                    kw0,
                    comps,
                    lib_idx as int,
                    j as int,
                ),
            decreases library.components.len() - j,
        {
            let component = &library.components[j];
            let category = String::from_str(category_of(component.component_type));
            index_append_exec(&mut self.category_index, category, lib_idx, j);

            let ghost kws = comps[j as int].keywords;
            let mut k: usize = 0;
            while k < component.keywords.len()
                invariant
                    lib_idx == old(self).libraries@.len(),
                    comps == library.components.deep_view(),
                    comps.len() == library.components@.len(),
                    0 <= j < comps.len(),
                    component == &library.components[j as int],
                    kws == comps[j as int].keywords,
                    kws.len() == component.keywords@.len(),
                    0 <= k <= kws.len(),
                    cat0 == index_view(old(self).category_index@),
                    kw0 == index_view(old(self).keyword_index@),
                    self.libraries@ == old(self).libraries@,
                    self.recent@ == old(self).recent@,
                    self.favorites@ == old(self).favorites@,
                    index_view(self.category_index@) == spec_index_categories(
                        cat0,
                        comps,
                        lib_idx as int,
                        j as int + 1,
                    ),
                    index_view(self.keyword_index@) == spec_index_keywords(
                        spec_index_all_keywords(kw0, comps, lib_idx as int, j as int),
                        kws,
                        (lib_idx as int, j as int),
                        k as int,
                    ),
                decreases component.keywords.len() - k,
            {
                let keyword_lower = lowercase(component.keywords[k].as_str());
                index_append_exec(&mut self.keyword_index, keyword_lower, lib_idx, j);
                k = k + 1;
            }
            j = j + 1;
        }
        self.libraries.push(library);
    }

    /// All loaded libraries.
    pub fn libraries(&self) -> (r: &Vec<Library>)
        ensures
            r@ == self.libraries@,
    {
        &self.libraries
    }

    /// The library at an index, if any.
    pub fn get_library(&self, index: usize) -> (r: Option<&Library>)
        ensures
            match r {
                Some(lib) => index < self.libraries@.len() && *lib == self.libraries@[index as int],
                None => index >= self.libraries@.len(),
            },
    {
        if index < self.libraries.len() {
            Some(&self.libraries[index])
        } else {
            None
        }
    }

    /// The first library with the given name, if any.
    pub fn find_library(&self, name: &str) -> (r: Option<&Library>)
        ensures
            match r {
                Some(lib) => exists|i: int|
                    0 <= i < self.libraries@.len() && *lib == self.libraries@[i]
                        && (#[trigger] self.libraries@[i]).metadata.name@ == name@,
                None => forall|i: int|
                    0 <= i < self.libraries@.len() ==> (
                    #[trigger] self.libraries@[i]).metadata.name@ != name@,
            },
    {
        let mut i: usize = 0;
        while i < self.libraries.len()
            invariant
                0 <= i <= self.libraries@.len(),
                forall|m: int|
                    0 <= m < i ==> (#[trigger] self.libraries@[m]).metadata.name@ != name@,
            decreases self.libraries.len() - i,
        {
            if str_eq_string(name, &self.libraries[i].metadata.name) {
                return Some(&self.libraries[i]);
            }
            i = i + 1;
        }
        None
    }

    /// Total component count across all libraries, saturating.
    pub fn total_components(&self) -> (n: usize)
        ensures
            n as int == spec_total_components(self.libraries@, self.libraries@.len() as int),
    {
        let mut n: usize = 0;
        let mut i: usize = 0;
        while i < self.libraries.len()
            invariant
                0 <= i <= self.libraries@.len(),
                n as int == spec_total_components(self.libraries@, i as int),
            decreases self.libraries.len() - i,
        {
            let len = self.libraries[i].components.len();
            if n > usize::MAX - len {
                n = usize::MAX;
            } else {
                n = n + len;
            }
            i = i + 1;
        }
        n
    }

    /// All category labels in the index, in first-seen order.
    pub fn categories(&self) -> (r: Vec<String>)
        ensures
            r.deep_view() =~= Seq::new(
                index_view(self.category_index@).len(),
                |i: int| index_view(self.category_index@)[i].0,
            ),
    {
        let mut out: Vec<String> = Vec::new();
        let mut i: usize = 0;
        proof {
            assert(out.deep_view() =~= Seq::<Seq<char>>::empty());
        }
        while i < self.category_index.len()
            invariant
                0 <= i <= self.category_index@.len(),
                out.deep_view() =~= Seq::new(
                    i as nat,
                    |m: int| index_view(self.category_index@)[m].0,
                ),
            decreases self.category_index.len() - i,
        {
            let ghost prev = out.deep_view();
            out.push(clone_string(&self.category_index[i].0));
            proof {
                assert(out.deep_view() =~= prev.push(index_view(self.category_index@)[i as int].0));
            }
            i = i + 1;
        }
        out
    }

    /// Components under a category label, resolved against the libraries;
    /// stale positions are skipped.
    pub fn by_category(&self, category: &str) -> (r: Vec<&LibraryComponent>)
        ensures
            r.deep_view() == spec_resolved(
                self.libraries@,
                spec_category_entries(
                    index_view(self.category_index@),
                    lower_of(category@),
                ),
                spec_category_entries(
                    index_view(self.category_index@),
                    lower_of(category@),
                ).len() as int,
            ),
    {
        let key = lowercase(category);
        let ghost idx = index_view(self.category_index@);
        let mut i: usize = 0;
        while i < self.category_index.len()
            invariant
                idx == index_view(self.category_index@),
                key@ == lower_of(category@),
                0 <= i <= self.category_index@.len(),
                index_find(idx, key@, 0) == index_find(idx, key@, i as int),
            decreases self.category_index.len() - i,
        {
            if str_eq_string(self.category_index[i].0.as_str(), &key) {
                proof {
                    assert(index_find(idx, key@, 0) == Some(i as int));
                }
                return self.resolve_entries(&self.category_index[i].1);
            }
            i = i + 1;
        }
        proof {
            assert(spec_category_entries(idx, key@) =~= Seq::<(int, int)>::empty());
        }
        Vec::new()
    }

    /// Resolve index pairs to component references, skipping stale positions.
    fn resolve_entries(&self, entries: &Vec<(usize, usize)>) -> (r: Vec<&LibraryComponent>)
        ensures
            r.deep_view() == spec_resolved(
                self.libraries@,
                pairs_view(entries@),
                pairs_view(entries@).len() as int,
            ),
    {
        let ghost ps = pairs_view(entries@);
        let mut out: Vec<&LibraryComponent> = Vec::new();
        let mut k: usize = 0;
        proof {
            assert(out.deep_view() =~= Seq::<LibraryComponentView>::empty());
        }
        while k < entries.len()
            invariant
                ps == pairs_view(entries@),
                ps.len() == entries@.len(),
                0 <= k <= entries@.len(),
                out.deep_view() == spec_resolved(self.libraries@, ps, k as int),
            decreases entries.len() - k,
        {
            let (l, c) = entries[k];
            if l < self.libraries.len() && c < self.libraries[l].components.len() {
                let ghost prev = out.deep_view();
                out.push(&self.libraries[l].components[c]);
                proof {
                    assert(out.deep_view() =~= prev.push(
                        self.libraries@[l as int].components@[c as int]@,
                    ));
                }
            }
            k = k + 1;
        }
        out
    }

    /// Record a component as most recently used; at most twenty are kept.
    pub fn add_recent(&mut self, lib_idx: usize, comp_idx: usize)
        ensures
            final(self).recent@ == take_at_most(
                seq![(lib_idx, comp_idx)] + old(self).recent@.filter(
                    |p: (usize, usize)| p.0 != lib_idx || p.1 != comp_idx,
                ),
                20,
            ),
            final(self).libraries@ == old(self).libraries@,
            final(self).favorites@ == old(self).favorites@,
            index_view(final(self).category_index@) == index_view(old(self).category_index@),
            index_view(final(self).keyword_index@) == index_view(old(self).keyword_index@),
    {
        let ghost pred = |p: (usize, usize)| p.0 != lib_idx || p.1 != comp_idx;
        let mut updated: Vec<(usize, usize)> = Vec::new();
        updated.push((lib_idx, comp_idx));
        let ghost old_recent = self.recent@;
        let mut k: usize = 0;
        proof {
            assert(old_recent.take(0) =~= Seq::<(usize, usize)>::empty());
            Seq::<(usize, usize)>::empty().lemma_all_neg_filter_empty(pred);
            assert(updated@ =~= seq![(lib_idx, comp_idx)] + old_recent.take(0).filter(pred));
        }
        while k < self.recent.len()
            invariant
                old_recent == self.recent@,
                pred == (|p: (usize, usize)| p.0 != lib_idx || p.1 != comp_idx),
                0 <= k <= old_recent.len(),
                updated@ == seq![(lib_idx, comp_idx)] + old_recent.take(k as int).filter(pred),
            decreases self.recent.len() - k,
        {
            proof {
                assert(old_recent.take(k as int + 1) =~= old_recent.take(k as int).push(
                    old_recent[k as int],
                ));
                old_recent.take(k as int).lemma_filter_push(old_recent[k as int], pred);
            }
            let (a, b) = self.recent[k];
            if a != lib_idx || b != comp_idx {
                updated.push((a, b));
                proof {
                    assert(updated@ =~= seq![(lib_idx, comp_idx)] + old_recent.take(
                        k as int + 1,
                    ).filter(pred));
                }
            }
            k = k + 1;
        }
        proof {
            assert(old_recent.take(old_recent.len() as int) =~= old_recent);
        }
        let ghost full = updated@;
        proof {
            assert(updated@ =~= full.take(updated@.len() as int));
        }
        while updated.len() > 20
            invariant
                updated@ == full.take(updated@.len() as int),
                updated@.len() >= 20 || updated@ == full,
                updated@.len() <= full.len(),
            decreases updated.len(),
        {
            updated.pop();
            proof {
                assert(updated@ =~= full.take(updated@.len() as int));
            }
        }
        proof {
            assert(updated@ =~= take_at_most(full, 20));
        }
        self.recent = updated;
    }

    /// Most recently used components, newest first; stale positions skipped.
    pub fn recent(&self) -> (r: Vec<&LibraryComponent>)
        ensures
            r.deep_view() == spec_resolved(
                self.libraries@,
                pairs_view(self.recent@),
                pairs_view(self.recent@).len() as int,
            ),
    {
        self.resolve_entries(&self.recent)
    }

    /// Favorite components, in the order they were added; stale positions
    /// skipped.
    pub fn favorites(&self) -> (r: Vec<&LibraryComponent>)
        ensures
            r.deep_view() == spec_resolved(
                self.libraries@,
                pairs_view(self.favorites@),
                pairs_view(self.favorites@).len() as int,
            ),
    {
        self.resolve_entries(&self.favorites)
    }

    /// Toggle a favorite: removes the position and answers `false` when it
    /// was present, else appends it and answers `true`.
    pub fn toggle_favorite(&mut self, lib_idx: usize, comp_idx: usize) -> (added: bool)
        ensures
            final(self).libraries@ == old(self).libraries@,
            final(self).recent@ == old(self).recent@,
            index_view(final(self).category_index@) == index_view(old(self).category_index@),
            index_view(final(self).keyword_index@) == index_view(old(self).keyword_index@),
            added == !old(self).favorites@.contains((lib_idx, comp_idx)),
            added ==> final(self).favorites@ == old(self).favorites@.push((lib_idx, comp_idx)),
            !added ==> exists|i: int|
                {
                    &&& 0 <= i < old(self).favorites@.len()
                    &&& #[trigger] old(self).favorites@[i] == (lib_idx, comp_idx)
                    &&& final(self).favorites@ == old(self).favorites@.remove(i)
                },
    {
        let mut i: usize = 0;
        while i < self.favorites.len()
            invariant
                self.favorites@ == old(self).favorites@,
                self.libraries@ == old(self).libraries@,
                self.recent@ == old(self).recent@,
                self.category_index@ == old(self).category_index@,
                self.keyword_index@ == old(self).keyword_index@,
                0 <= i <= self.favorites@.len(),
                forall|m: int|
                    0 <= m < i ==> #[trigger] self.favorites@[m] != (lib_idx, comp_idx),
            decreases self.favorites.len() - i,
        {
            let (a, b) = self.favorites[i];
            if a == lib_idx && b == comp_idx {
                self.favorites.remove(i);
                proof {
                    assert(old(self).favorites@[i as int] == (lib_idx, comp_idx));
                    assert(old(self).favorites@.contains((lib_idx, comp_idx)));
                }
                return false;
            }
            i = i + 1;
        }
        proof {
            assert(forall|m: int|
                0 <= m < self.favorites@.len() ==> #[trigger] self.favorites@[m] != (
                lib_idx,
                comp_idx,
            ));
            assert(!old(self).favorites@.contains((lib_idx, comp_idx)));
        }
        self.favorites.push((lib_idx, comp_idx));
        true
    }

    /// Whether a position is a favorite.
    pub fn is_favorite(&self, lib_idx: usize, comp_idx: usize) -> (r: bool)
        ensures
            r == self.favorites@.contains((lib_idx, comp_idx)),
    {
        let mut i: usize = 0;
        while i < self.favorites.len()
            invariant
                0 <= i <= self.favorites@.len(),
                forall|m: int|
                    0 <= m < i ==> #[trigger] self.favorites@[m] != (lib_idx, comp_idx),
            decreases self.favorites.len() - i,
        {
            let (a, b) = self.favorites[i];
            if a == lib_idx && b == comp_idx {
                proof {
                    assert(self.favorites@[i as int] == (lib_idx, comp_idx));
                }
                return true;
            }
            i = i + 1;
        }
        false
    }
}

/// The first `n` elements, or all of them when fewer.
pub open spec fn take_at_most<T>(s: Seq<T>, n: int) -> Seq<T> {
    if s.len() <= n {
        s
    } else {
        s.take(n)
    }
}

/// Pairs of indexes as mathematical integers.
pub open spec fn pairs_view(v: Seq<(usize, usize)>) -> Seq<(int, int)> {
    Seq::new(v.len(), |i: int| (v[i].0 as int, v[i].1 as int))
}

/// The entry list under a key, empty when the key is absent.
pub open spec fn spec_category_entries(idx: IndexView, key: Seq<char>) -> Seq<(int, int)> {
    match index_find(idx, key, 0) {
        Some(i) => idx[i].1,
        None => Seq::empty(),
    }
}

/// The first `k` index pairs resolved to component values; positions outside
/// the libraries contribute nothing.
pub open spec fn spec_resolved(libs: Seq<Library>, ps: Seq<(int, int)>, k: int) -> Seq<
    LibraryComponentView,
>
    decreases k,
{
    if k <= 0 {
        Seq::empty()
    } else {
        let rest = spec_resolved(libs, ps, k - 1);
        let l = ps[k - 1].0;
        let c = ps[k - 1].1;
        if 0 <= l < libs.len() && 0 <= c < libs[l].components@.len() {
            rest.push(libs[l].components@[c]@)
        } else {
            rest
        }
    }
}

/// Total number of components in the first `i` libraries, saturating.
pub open spec fn spec_total_components(libs: Seq<Library>, i: int) -> int
    decreases i,
{
    if i <= 0 {
        0
    } else {
        crate::bom::sat_usize(
            spec_total_components(libs, i - 1) + libs[i - 1].components@.len(),
        )
    }
}


// ---------------------------------------------------------------------------
// Scored search
// ---------------------------------------------------------------------------

/// The result record for one component position.
pub open spec fn spec_result_at(libs: Seq<Library>, l: int, c: int, score: int) -> BrowserResultView {
    BrowserResultView {
        library_index: l,
        library_name: libs[l].metadata.name@,
        component_index: c,
        component: libs[l].components@[c]@,
        match_score: score,
    }
}

/// Whether a position points into the libraries.
pub open spec fn pos_valid(libs: Seq<Library>, l: int, c: int) -> bool {
    0 <= l < libs.len() && 0 <= c < libs[l].components@.len()
}

/// The first `j` entries of one matching keyword folded into seen positions
/// and keyword-phase results.
pub open spec fn spec_kw_entries(
    libs: Seq<Library>,
    entries: Seq<(int, int)>,
    state: (Seq<(int, int)>, Seq<BrowserResultView>),
    j: int,
) -> (Seq<(int, int)>, Seq<BrowserResultView>)
    decreases j,
{
    if j <= 0 {
        state
    } else {
        let prev = spec_kw_entries(libs, entries, state, j - 1);
        let l = entries[j - 1].0;
        let c = entries[j - 1].1;
        if prev.0.contains((l, c)) {
            prev
        } else {
            let seen = prev.0.push((l, c));
            if pos_valid(libs, l, c) {
                (seen, prev.1.push(spec_result_at(libs, l, c, 100)))
            } else {
                (seen, prev.1)
            }
        }
    }
}

/// The first `i` keyword-index pairs folded into the keyword phase: entries
/// of keys containing the query are collected once each.
pub open spec fn spec_kw_phase(
    libs: Seq<Library>,
    idx: IndexView,
    ql: Seq<char>,
    i: int,
) -> (Seq<(int, int)>, Seq<BrowserResultView>)
    decreases i,
{
    if i <= 0 {
        (Seq::empty(), Seq::empty())
    } else {
        let prev = spec_kw_phase(libs, idx, ql, i - 1);
        if contains_seq(idx[i - 1].0, ql) {
            spec_kw_entries(libs, idx[i - 1].1, prev, idx[i - 1].1.len() as int)
        } else {
            prev
        }
    }
}

/// The name/description score of a component: name worth eighty,
/// description forty.
pub open spec fn spec_name_score(c: LibraryComponentView, ql: Seq<char>) -> int {
    (if contains_seq(lower_of(c.name), ql) {
        80int
    } else {
        0int
    }) + (match c.description {
        Some(d) => if contains_seq(lower_of(d), ql) {
            40int
        } else {
            0int
        },
        None => 0int,
    })
}

/// The first `j` components of library `l` folded into the name phase.
pub open spec fn spec_name_lib(
    libs: Seq<Library>,
    ql: Seq<char>,
    seen: Seq<(int, int)>,
    l: int,
    j: int,
    acc: Seq<BrowserResultView>,
) -> Seq<BrowserResultView>
    decreases j,
{
    if j <= 0 {
        acc
    } else {
        let prev = spec_name_lib(libs, ql, seen, l, j - 1, acc);
        if seen.contains((l, j - 1)) {
            prev
        } else {
            let score = spec_name_score(libs[l].components@[j - 1]@, ql);
            if score > 0 {
                prev.push(spec_result_at(libs, l, j - 1, score))
            } else {
                prev
            }
        }
    }
}

/// The first `i` libraries folded into the name phase.
pub open spec fn spec_name_phase(
    libs: Seq<Library>,
    ql: Seq<char>,
    seen: Seq<(int, int)>,
    i: int,
    acc: Seq<BrowserResultView>,
) -> Seq<BrowserResultView>
    decreases i,
{
    if i <= 0 {
        acc
    } else {
        spec_name_lib(
            libs,
            ql,
            seen,
            i - 1,
            libs[i - 1].components@.len() as int,
            spec_name_phase(libs, ql, seen, i - 1, acc),
        )
    }
}

/// Stable insertion of a result into a score-descending sequence.
pub open spec fn spec_insert_result(s: Seq<BrowserResultView>, x: BrowserResultView) -> Seq<
    BrowserResultView,
>
    decreases s.len(),
{
    if s.len() == 0 {
        seq![x]
    } else if x.match_score > s.last().match_score {
        spec_insert_result(s.drop_last(), x).push(s.last())
    } else {
        s.push(x)
    }
}

/// Stable insertion sort of the first `i` results by descending score.
pub open spec fn spec_sort_results(s: Seq<BrowserResultView>, i: int) -> Seq<BrowserResultView>
    decreases i,
{
    if i <= 0 {
        Seq::empty()
    } else {
        spec_insert_result(spec_sort_results(s, i - 1), s[i - 1])
    }
}

/// Everything a browser search yields, sorted by descending score: keyword
/// matches first (scored one hundred), then name and description matches.
pub open spec fn spec_browser_search(libs: Seq<Library>, kwidx: IndexView, ql: Seq<char>) -> Seq<
    BrowserResultView,
> {
    let kw = spec_kw_phase(libs, kwidx, ql, kwidx.len() as int);
    let unsorted = spec_name_phase(libs, ql, kw.0, libs.len() as int, kw.1);
    spec_sort_results(unsorted, unsorted.len() as int)
}

/// A deep-enough copy of a component: every catalog field is copied; symbol
/// and footprint payloads are cloned outside the view.
fn clone_component(c: &LibraryComponent) -> (r: LibraryComponent)
    ensures
        r@ == c@,
{
    let mut keywords: Vec<String> = Vec::new();
    let mut k: usize = 0;
    proof {
        assert(keywords.deep_view() =~= c@.keywords.take(0));
    }
    while k < c.keywords.len()
        invariant
            0 <= k <= c.keywords@.len(),
            keywords.deep_view() == c@.keywords.take(k as int),
        decreases c.keywords.len() - k,
    {
        let ghost prev = keywords.deep_view();
        let copy = clone_string(&c.keywords[k]);
        let ghost cv = copy@;
        keywords.push(copy);
        proof {
            assert(cv == c@.keywords[k as int]);
            assert(keywords.deep_view() =~= prev.push(cv));
            assert(prev.push(cv) =~= c@.keywords.take(k as int + 1));
        }
        k = k + 1;
    }
    proof {
        assert(c@.keywords.take(c.keywords@.len() as int) =~= c@.keywords);
    }
    let r = LibraryComponent {
        id: c.id,
        name: clone_string(&c.name),
        component_type: c.component_type,
        description: clone_opt(&c.description),
        keywords,
        datasheet: clone_opt(&c.datasheet),
        documentation: clone_opt(&c.documentation),
        model_3d: clone_opt(&c.model_3d),
        symbol: c.symbol.clone(),
        footprint: c.footprint.clone(),
        properties: c.properties.clone(),
        created: c.created,
        modified: c.modified,
    };
    proof {
        assert(r@ =~= c@);
    }
    r
}

/// A copy of an optional string.
fn clone_opt(o: &Option<String>) -> (r: Option<String>)
    ensures
        (match r {
            Some(s) => Some(s@),
            None => None,
        }) == (match o {
            Some(s) => Some(s@),
            None => None,
        }),
{
    match o {
        Some(s) => Some(clone_string(s)),
        None => None,
    }
}

/// Insert one result into a score-sorted vector, stably.
fn insert_result(sorted: &mut Vec<BrowserResult>, x: BrowserResult)
    ensures
        final(sorted).deep_view() == spec_insert_result(old(sorted).deep_view(), x@),
{
    let ghost s = sorted.deep_view();
    let ghost xv = x@;
    let mut pos: usize = sorted.len();
    proof {
        assert(s.take(pos as int) =~= s);
        assert(s.skip(pos as int) =~= Seq::<BrowserResultView>::empty());
        assert(spec_insert_result(s.take(pos as int), xv) + s.skip(pos as int)
            =~= spec_insert_result(s, xv));
    }
    while pos > 0 && x.match_score > sorted[pos - 1].match_score
        invariant
            s == sorted.deep_view(),
            xv == x@,
            0 <= pos <= s.len(),
            spec_insert_result(s, xv) == spec_insert_result(s.take(pos as int), xv) + s.skip(
                pos as int,
            ),
        decreases pos,
    {
        proof {
            assert(s.take(pos as int).drop_last() =~= s.take(pos as int - 1));
            assert(spec_insert_result(s.take(pos as int - 1), xv).push(s[pos as int - 1]) + s.skip(
                pos as int,
            ) =~= spec_insert_result(s.take(pos as int - 1), xv) + s.skip(pos as int - 1));
        }
        pos = pos - 1;
    }
    proof {
        if pos > 0 {
            assert(spec_insert_result(s.take(pos as int), xv) =~= s.take(pos as int).push(xv));
        } else {
            assert(s.take(0) =~= Seq::<BrowserResultView>::empty());
        }
    }
    sorted.insert(pos, x);
    proof {
        assert(sorted.deep_view() =~= spec_insert_result(s.take(pos as int), xv) + s.skip(
            pos as int,
        ));
    }
}

/// Whether a position is among the seen ones.
fn seen_contains(seen: &Vec<(usize, usize)>, l: usize, c: usize) -> (r: bool)
    ensures
        r == pairs_view(seen@).contains((l as int, c as int)),
{
    let mut i: usize = 0;
    while i < seen.len()
        invariant
            0 <= i <= seen@.len(),
            forall|m: int|
                0 <= m < i ==> #[trigger] pairs_view(seen@)[m] != (l as int, c as int),
        decreases seen.len() - i,
    {
        let (a, b) = seen[i];
        if a == l && b == c {
            proof {
                assert(pairs_view(seen@)[i as int] == (l as int, c as int));
            }
            return true;
        }
        i = i + 1;
    }
    proof {
        assert(forall|m: int|
            0 <= m < pairs_view(seen@).len() ==> #[trigger] pairs_view(seen@)[m] != (
            l as int,
            c as int,
        ));
    }
    false
}

impl LibraryBrowser {
    /// Search across all libraries: keyword matches come first with the top
    /// score, then name and description matches; results are sorted by
    /// descending score, stably.
    pub fn search(&self, query: &str) -> (r: Vec<BrowserResult>)
        ensures
            r.deep_view() == spec_browser_search(
                self.libraries@,
                index_view(self.keyword_index@),
                lower_of(query@),
            ),
    {
        let query_string = lowercase(query);
        let query_lower = str_chars(query_string.as_str());
        let ghost ql = lower_of(query@);
        let ghost libs = self.libraries@;
        let ghost kwidx = index_view(self.keyword_index@);

        let mut results: Vec<BrowserResult> = Vec::new();
        let mut seen: Vec<(usize, usize)> = Vec::new();

        let mut i: usize = 0;
        proof {
            assert(pairs_view(seen@) =~= Seq::<(int, int)>::empty());
            assert(results.deep_view() =~= Seq::<BrowserResultView>::empty());
        }
        while i < self.keyword_index.len()
            invariant
                ql == lower_of(query@),
                query_lower@ == ql,
                libs == self.libraries@,
                kwidx == index_view(self.keyword_index@),
                kwidx.len() == self.keyword_index@.len(),
                0 <= i <= kwidx.len(),
                (pairs_view(seen@), results.deep_view()) == spec_kw_phase(
                    libs,
                    kwidx,
                    ql,
                    i as int,
                ),
            decreases self.keyword_index.len() - i,
        {
            let keyword_chars = str_chars(self.keyword_index[i].0.as_str());
            let hit = match find_chars(keyword_chars.as_slice(), query_lower.as_slice(), 0) {
                Some(_) => true,
                None => false,
            };
            if hit {
                let entries = &self.keyword_index[i].1;
                let ghost ev = pairs_view(entries@);
                let mut j: usize = 0;
                proof {
                    assert(ev == kwidx[i as int].1);
                }
                while j < entries.len()
                    invariant
                        libs == self.libraries@,
                        entries == &self.keyword_index[i as int].1,
                        ev == pairs_view(entries@),
                        ev == kwidx[i as int].1,
                        ev.len() == entries@.len(),
                        0 <= j <= ev.len(),
                        (pairs_view(seen@), results.deep_view()) == spec_kw_entries(
                            libs,
                            ev,
                            spec_kw_phase(libs, kwidx, ql, i as int),
                            j as int,
                        ),
                    decreases entries.len() - j,
                {
                    let (l, c) = entries[j];
                    if !seen_contains(&seen, l, c) {
                        let ghost seen_prev = pairs_view(seen@);
                        seen.push((l, c));
                        proof {
                            assert(pairs_view(seen@) =~= seen_prev.push((l as int, c as int)));
                        }
                        if l < self.libraries.len() && c < self.libraries[l].components.len() {
                            let lib = &self.libraries[l];
                            let result = BrowserResult {
                                library_index: l,
                                library_name: clone_string(&lib.metadata.name),
                                component_index: c,
                                component: clone_component(&lib.components[c]),
                                match_score: 100,
                            };
                            let ghost prev = results.deep_view();
                            results.push(result);
                            proof {
                                assert(results.deep_view() =~= prev.push(
                                    spec_result_at(libs, l as int, c as int, 100),
                                ));
                            }
                        }
                    }
                    j = j + 1;
                }
            }
            i = i + 1;
        }

        let ghost kw_state = spec_kw_phase(libs, kwidx, ql, kwidx.len() as int);
        let mut l: usize = 0;
        while l < self.libraries.len()
            invariant
                ql == lower_of(query@),
                query_lower@ == ql,
                libs == self.libraries@,
                0 <= l <= libs.len(),
                pairs_view(seen@) == kw_state.0,
                results.deep_view() == spec_name_phase(libs, ql, kw_state.0, l as int, kw_state.1),
            decreases self.libraries.len() - l,
        {
            let lib = &self.libraries[l];
            let mut c: usize = 0;
            while c < lib.components.len()
                invariant
                    ql == lower_of(query@),
                    query_lower@ == ql,
                    libs == self.libraries@,
                    0 <= l < libs.len(),
                    lib == &self.libraries[l as int],
                    0 <= c <= lib.components@.len(),
                    pairs_view(seen@) == kw_state.0,
                    results.deep_view() == spec_name_lib(
                        libs,
                        ql,
                        kw_state.0,
                        l as int,
                        c as int,
                        spec_name_phase(libs, ql, kw_state.0, l as int, kw_state.1),
                    ),
                decreases lib.components.len() - c,
            {
                if !seen_contains(&seen, l, c) {
                    let component = &lib.components[c];
                    let mut score: u32 = 0;
                    let name_lower = lowercase(component.name.as_str());
                    let name_chars = str_chars(name_lower.as_str());
                    if matches!(find_chars(name_chars.as_slice(), query_lower.as_slice(), 0), Some(_)) {
                        score = score + 80;
                    }
                    match component.description {
                        Some(ref d) => {
                            let d_lower = lowercase(d.as_str());
                            let d_chars = str_chars(d_lower.as_str());
                            if matches!(
                                find_chars(d_chars.as_slice(), query_lower.as_slice(), 0),
                                Some(_)
                            ) {
                                score = score + 40;
                            }
                        },
                        None => {},
                    }
                    proof {
                        assert(score as int == spec_name_score(libs[l as int].components@[c as int]@, ql));
                    }
                    if score > 0 {
                        let result = BrowserResult {
                            library_index: l,
                            library_name: clone_string(&lib.metadata.name),
                            component_index: c,
                            component: clone_component(&lib.components[c]),
                            match_score: score,
                        };
                        let ghost prev = results.deep_view();
                        results.push(result);
                        proof {
                            assert(results.deep_view() =~= prev.push(
                                spec_result_at(libs, l as int, c as int, score as int),
                            ));
                        }
                    }
                }
                c = c + 1;
            }
            l = l + 1;
        }

        let ghost unsorted_v = results.deep_view();
        let mut sorted: Vec<BrowserResult> = Vec::new();
        let ghost mut k: int = 0;
        proof {
            assert(sorted.deep_view() =~= Seq::<BrowserResultView>::empty());
            assert(results.deep_view() =~= unsorted_v.skip(0));
        }
        while results.len() > 0
            invariant
                0 <= k <= unsorted_v.len(),
                results.deep_view() == unsorted_v.skip(k),
                sorted.deep_view() == spec_sort_results(unsorted_v, k),
            decreases results.len(),
        {
            let ghost pre = results.deep_view();
            let ghost preraw = results@;
            let e = results.remove(0);
            proof {
                assert(pre == unsorted_v.skip(k));
                assert(pre.len() == unsorted_v.len() - k);
                assert(e@ == pre[0]);
                assert(pre[0] == unsorted_v[k]);
                assert(results@ =~= preraw.skip(1));
                assert forall|m: int| 0 <= m < results.deep_view().len() implies
                    results.deep_view()[m] == unsorted_v.skip(k + 1)[m] by {
                    assert(results.deep_view()[m] == results@[m].deep_view());
                    assert(results@[m] == preraw[m + 1]);
                    assert(pre[m + 1] == preraw[m + 1].deep_view());
                    assert(pre[m + 1] == unsorted_v.skip(k)[m + 1]);
                }
                assert(results.deep_view() =~= unsorted_v.skip(k + 1));
            }
            insert_result(&mut sorted, e);
            proof {
                k = k + 1;
            }
        }
        proof {
            assert(spec_sort_results(unsorted_v, k) == spec_sort_results(
                unsorted_v,
                unsorted_v.len() as int,
            ));
        }
        sorted
    }

    /// Search with filters: the text search when a query is given, otherwise
    /// every component at a middling score; then the component-type and
    /// datasheet filters and the result limit.
    pub fn search_filtered(&self, filter: &LibrarySearchQuery) -> (r: Vec<BrowserResult>)
        ensures
            r.deep_view() == spec_search_filtered(
                self.libraries@,
                index_view(self.keyword_index@),
                *filter,
            ),
    {
        let mut results: Vec<BrowserResult> = match filter.text {
            Some(ref query) => self.search(query.as_str()),
            None => {
                let ghost libs = self.libraries@;
                let mut all: Vec<BrowserResult> = Vec::new();
                let mut l: usize = 0;
                proof {
                    assert(all.deep_view() =~= Seq::<BrowserResultView>::empty());
                }
                while l < self.libraries.len()
                    invariant
                        libs == self.libraries@,
                        0 <= l <= libs.len(),
                        all.deep_view() == spec_all_results(libs, l as int),
                    decreases self.libraries.len() - l,
                {
                    let lib = &self.libraries[l];
                    let mut c: usize = 0;
                    while c < lib.components.len()
                        invariant
                            libs == self.libraries@,
                            0 <= l < libs.len(),
                            lib == &self.libraries[l as int],
                            0 <= c <= lib.components@.len(),
                            all.deep_view() == spec_lib_results(
                                libs,
                                l as int,
                                c as int,
                                spec_all_results(libs, l as int),
                            ),
                        decreases lib.components.len() - c,
                    {
                        let result = BrowserResult {
                            library_index: l,
                            library_name: clone_string(&lib.metadata.name),
                            component_index: c,
                            component: clone_component(&lib.components[c]),
                            match_score: 50,
                        };
                        let ghost prev = all.deep_view();
                        all.push(result);
                        proof {
                            assert(all.deep_view() =~= prev.push(
                                spec_result_at(libs, l as int, c as int, 50),
                            ));
                        }
                        c = c + 1;
                    }
                    l = l + 1;
                }
                all
            },
        };

        let ghost base = results.deep_view();
        let ghost type_pred = result_type_pred(filter.component_type);
        let mut kept: Vec<BrowserResult> = Vec::new();
        let mut k: usize = 0;
        proof {
            assert(base.take(0) =~= Seq::<BrowserResultView>::empty());
            Seq::<BrowserResultView>::empty().lemma_all_neg_filter_empty(type_pred);
            assert(kept.deep_view() =~= base.take(0).filter(type_pred));
        }
        while k < results.len()
            invariant
                base == results.deep_view(),
                type_pred == result_type_pred(filter.component_type),
                0 <= k <= base.len(),
                kept.deep_view() == base.take(k as int).filter(type_pred),
            decreases results.len() - k,
        {
            proof {
                assert(base.take(k as int + 1) =~= base.take(k as int).push(base[k as int]));
                base.take(k as int).lemma_filter_push(base[k as int], type_pred);
            }
            let keep = match filter.component_type {
                Some(t) => component_type_eq(results[k].component.component_type, t),
                None => true,
            };
            if keep {
                let ghost prev = kept.deep_view();
                let copied = copy_result(&results[k]);
                kept.push(copied);
                proof {
                    assert(kept.deep_view() =~= prev.push(base[k as int]));
                }
            }
            k = k + 1;
        }
        proof {
            assert(base.take(base.len() as int) =~= base);
        }

        let ghost typed = base.filter(type_pred);
        let ghost sheet_pred = result_sheet_pred(filter.has_datasheet);
        let mut kept2: Vec<BrowserResult> = Vec::new();
        let mut k: usize = 0;
        proof {
            assert(typed.take(0) =~= Seq::<BrowserResultView>::empty());
            Seq::<BrowserResultView>::empty().lemma_all_neg_filter_empty(sheet_pred);
            assert(kept2.deep_view() =~= typed.take(0).filter(sheet_pred));
        }
        while k < kept.len()
            invariant
                typed == kept.deep_view(),
                sheet_pred == result_sheet_pred(filter.has_datasheet),
                0 <= k <= typed.len(),
                kept2.deep_view() == typed.take(k as int).filter(sheet_pred),
            decreases kept.len() - k,
        {
            proof {
                assert(typed.take(k as int + 1) =~= typed.take(k as int).push(typed[k as int]));
                typed.take(k as int).lemma_filter_push(typed[k as int], sheet_pred);
            }
            let keep = match filter.has_datasheet {
                Some(wanted) => kept[k].component.datasheet.is_some() == wanted,
                None => true,
            };
            if keep {
                let ghost prev = kept2.deep_view();
                let copied = copy_result(&kept[k]);
                kept2.push(copied);
                proof {
                    assert(kept2.deep_view() =~= prev.push(typed[k as int]));
                }
            }
            k = k + 1;
        }
        proof {
            assert(typed.take(typed.len() as int) =~= typed);
        }

        match filter.limit {
            Some(limit) => {
                let ghost sheeted = typed.filter(sheet_pred);
                proof {
                    assert(kept2.deep_view() =~= sheeted.take(kept2.deep_view().len() as int));
                }
                while kept2.len() > limit
                    invariant
                        kept2.deep_view() == typed.filter(sheet_pred).take(
                            kept2.deep_view().len() as int,
                        ),
                        kept2.deep_view().len() >= limit || kept2.deep_view() == typed.filter(
                            sheet_pred,
                        ),
                        kept2.deep_view().len() <= typed.filter(sheet_pred).len(),
                    decreases kept2.len(),
                {
                    kept2.pop();
                    proof {
                        assert(kept2.deep_view() =~= typed.filter(sheet_pred).take(
                            kept2.deep_view().len() as int,
                        ));
                    }
                }
                proof {
                    assert(kept2.deep_view() =~= take_at_most(
                        typed.filter(sheet_pred),
                        limit as int,
                    ));
                }
            },
            None => {},
        }
        kept2
    }
}

/// Results of all components of the first `i` libraries, at score fifty.
pub open spec fn spec_all_results(libs: Seq<Library>, i: int) -> Seq<BrowserResultView>
    decreases i,
{
    if i <= 0 {
        Seq::empty()
    } else {
        spec_lib_results(libs, i - 1, libs[i - 1].components@.len() as int, spec_all_results(
            libs,
            i - 1,
        ))
    }
}

/// Results of the first `j` components of library `l`, at score fifty.
pub open spec fn spec_lib_results(libs: Seq<Library>, l: int, j: int, acc: Seq<BrowserResultView>) -> Seq<
    BrowserResultView,
>
    decreases j,
{
    if j <= 0 {
        acc
    } else {
        spec_lib_results(libs, l, j - 1, acc).push(spec_result_at(libs, l, j - 1, 50))
    }
}

/// The component-type filter as a predicate on results.
pub open spec fn result_type_pred(t: Option<ComponentType>) -> spec_fn(BrowserResultView) -> bool {
    |r: BrowserResultView|
        match t {
            Some(ct) => r.component.component_type == ct,
            None => true,
        }
}

/// The datasheet filter as a predicate on results.
pub open spec fn result_sheet_pred(wanted: Option<bool>) -> spec_fn(BrowserResultView) -> bool {
    |r: BrowserResultView|
        match wanted {
            Some(w) => (r.component.datasheet is Some) == w,
            None => true,
        }
}

/// Filtered search: the scored search (or everything at score fifty), the
/// two filters, and the limit.
pub open spec fn spec_search_filtered(
    libs: Seq<Library>,
    kwidx: IndexView,
    filter: LibrarySearchQuery,
) -> Seq<BrowserResultView> {
    let base = match filter.text {
        Some(q) => spec_browser_search(libs, kwidx, lower_of(q@)),
        None => spec_all_results(libs, libs.len() as int),
    };
    let narrowed = base.filter(result_type_pred(filter.component_type)).filter(
        result_sheet_pred(filter.has_datasheet),
    );
    match filter.limit {
        Some(limit) => take_at_most(narrowed, limit as int),
        None => narrowed,
    }
}

/// Component types compared as an executable test.
fn component_type_eq(a: ComponentType, b: ComponentType) -> (r: bool)
    ensures
        r == (a == b),
{
    match (a, b) {
        (ComponentType::Symbol, ComponentType::Symbol) => true,
        (ComponentType::Footprint, ComponentType::Footprint) => true,
        (ComponentType::Cell, ComponentType::Cell) => true,
        (ComponentType::Gate, ComponentType::Gate) => true,
        (ComponentType::Structure, ComponentType::Structure) => true,
        (ComponentType::Die, ComponentType::Die) => true,
        (ComponentType::Component, ComponentType::Component) => true,
        _ => false,
    }
}

/// A copy of a search result.
fn copy_result(r: &BrowserResult) -> (c: BrowserResult)
    ensures
        c@ == r@,
{
    BrowserResult {
        library_index: r.library_index,
        library_name: clone_string(&r.library_name),
        component_index: r.component_index,
        component: clone_component(&r.component),
        match_score: r.match_score,
    }
}


} // verus!
