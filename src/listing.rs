//! A searchable, pageable list of companies: which companies match a search,
//! which row is selected or confirmed, and when more rows are loaded.
//!
//! Companies are referred to by their index in the full list; only their
//! names take part in the logic.
use vstd::prelude::*;

verus! {

/// The lowercase form of a text, as `str::to_lowercase` gives it.
pub uninterp spec fn lower_of(s: Seq<char>) -> Seq<char>;

/// Relies on `str::to_lowercase`: its result depends on the characters of
/// `s` alone.
#[verifier::external_body]
fn lowercase(s: &str) -> (r: String)
    ensures
        r@ == lower_of(s@),
{
    s.to_lowercase()
}

/// How many rows one load adds.
pub const PAGE_SIZE: usize = 200;

/// Once the list holds this many companies, nothing more is loaded.
pub const END_OF_LIST: usize = 6000;

/// How close to the end of the shown rows scrolling must come before more
/// rows are asked for.
pub const LOAD_MORE_THRESHOLD: usize = 150;

/// Whether `q` occurs in `t` as a run of consecutive characters.
pub open spec fn contains_spec(t: Seq<char>, q: Seq<char>) -> bool {
    exists|i: int| 0 <= i && i + q.len() <= t.len() && #[trigger] t.subrange(i, i + q.len()) == q
}

/// The indices, among the first `k` names, of those whose lowercase form
/// contains the lowercase form of `query`, in order.
pub open spec fn matching(names: Seq<Seq<char>>, query: Seq<char>, k: int) -> Seq<usize>
    decreases k,
{
    if k <= 0 {
        Seq::empty()
    } else if contains_spec(lower_of(names[k - 1]), lower_of(query)) {
        matching(names, query, k - 1).push((k - 1) as usize)
    } else {
        matching(names, query, k - 1)
    }
}

/// A search shows each company at most once, in list order, and shows
/// exactly the companies whose lowercase name contains the lowercase query.
pub proof fn lemma_matching(names: Seq<Seq<char>>, query: Seq<char>, k: int)
    requires
        0 <= k <= names.len(),
        names.len() <= usize::MAX,
    ensures
        forall|a: int, b: int|
            0 <= a < b < matching(names, query, k).len() ==> #[trigger] matching(names, query, k)[a]
                < #[trigger] matching(names, query, k)[b],
        forall|a: int|
            0 <= a < matching(names, query, k).len() ==> #[trigger] matching(names, query, k)[a]
                < k,
        forall|j: int|
            0 <= j < k ==> (matching(names, query, k).contains(j as usize) <==> contains_spec(
                lower_of(#[trigger] names[j]),
                lower_of(query),
            )),
    decreases k,
{
    if k > 0 {
        lemma_matching(names, query, k - 1);
        let p = matching(names, query, k - 1);
        let m = matching(names, query, k);
        assert forall|j: int| 0 <= j < k implies (m.contains(j as usize) <==> contains_spec(
            lower_of(#[trigger] names[j]),
            lower_of(query),
        )) by {
            if contains_spec(lower_of(names[k - 1]), lower_of(query)) {
                assert(m == p.push((k - 1) as usize));
                if m.contains(j as usize) && j < k - 1 {
                    let a = choose|a: int| 0 <= a < m.len() && m[a] == j as usize;
                    if a < p.len() {
                        assert(p[a] == m[a]);
                    }
                }
                if j < k - 1 && p.contains(j as usize) {
                    let a = choose|a: int| 0 <= a < p.len() && p[a] == j as usize;
                    assert(m[a] == p[a]);
                }
                if j == k - 1 {
                    assert(m[p.len() as int] == j as usize);
                }
            } else {
                if j == k - 1 && p.contains(j as usize) {
                    let a = choose|a: int| 0 <= a < p.len() && p[a] == j as usize;
                }
            }
        }
    }
}

/// Whether the lowercased name `name_lower` contains the lowercased query
/// `query_lower`.
pub fn name_matches(name_lower: &str, query_lower: &str) -> (r: bool)
    ensures
        r == contains_spec(name_lower@, query_lower@),
{
    let n = name_lower.unicode_len();
    let m = query_lower.unicode_len();
    if m > n {
        assert forall|i: int|
            0 <= i && i + query_lower@.len() <= name_lower@.len() implies #[trigger] name_lower@.subrange(
            i,
            i + query_lower@.len(),
        ) != query_lower@ by {}
        return false;
    }
    if m == 0 {
        assert(name_lower@.subrange(0int, 0int + query_lower@.len()) =~= query_lower@);
        return true;
    }
    let mut i: usize = 0;
    while i <= n - m
        invariant
            n == name_lower@.len(),
            m == query_lower@.len(),
            1 <= m <= n,
            i <= n - m + 1,
            forall|i2: int|
                0 <= i2 < i ==> #[trigger] name_lower@.subrange(i2, i2 + m) != query_lower@,
        decreases n - m + 1 - i,
    {
        let mut j: usize = 0;
        let mut same = true;
        while j < m
            invariant
                n == name_lower@.len(),
                m == query_lower@.len(),
                i + m <= n,
                j <= m,
                same ==> forall|j2: int| 0 <= j2 < j ==> name_lower@[i + j2] == query_lower@[j2],
                !same ==> name_lower@.subrange(i as int, i + m) != query_lower@,
            decreases m - j,
        {
            if name_lower.get_char(i + j) != query_lower.get_char(j) {
                assert(name_lower@.subrange(i as int, i + m)[j as int] != query_lower@[j as int]);
                same = false;
                j = m;
            } else {
                j = j + 1;
            }
        }
        if same {
            assert(name_lower@.subrange(i as int, i + m) =~= query_lower@);
            return true;
        }
        i = i + 1;
    }
    assert forall|i2: int|
        0 <= i2 && i2 + query_lower@.len() <= name_lower@.len() implies #[trigger] name_lower@.subrange(
        i2,
        i2 + query_lower@.len(),
    ) != query_lower@ by {}
    false
}

/// The indices of the names whose lowercase form contains the lowercase form
/// of `query` (see `matching`).
pub fn search(names: &Vec<String>, query: &str) -> (r: Vec<usize>)
    ensures
        r@ == matching(names.deep_view(), query@, names@.len() as int),
{
    let q = lowercase(query);
    let ghost g = names.deep_view();
    let mut r: Vec<usize> = Vec::new();
    let mut k: usize = 0;
    while k < names.len()
        invariant
            g == names.deep_view(),
            q@ == lower_of(query@),
            k <= names.len(),
            r@ == matching(g, query@, k as int),
        decreases names.len() - k,
    {
        assert(g[k as int] == names@[k as int]@);
        let l = lowercase(names[k].as_str());
        if name_matches(l.as_str(), q.as_str()) {
            r.push(k);
        }
        k = k + 1;
    }
    r
}

/// The state of a company list: the names of the companies loaded so far, the
/// current search and its matches, the selected and confirmed rows, and
/// whether a load is running or the list has ended.
pub struct CompanyList {
    pub names: Vec<String>,
    pub query: String,
    pub matched: Vec<usize>,
    pub selected_index: usize,
    pub confirmed_index: Option<usize>,
    pub loading: bool,
    pub is_eof: bool,
}

impl CompanyList {
    /// A list of `names` with an empty search, the first row selected and
    /// nothing confirmed.
    pub fn new(names: Vec<String>) -> (r: CompanyList)
        ensures
            r.names@ == names@,
            r.query@ == Seq::<char>::empty(),
            r.matched@ == matching(names.deep_view(), Seq::empty(), names@.len() as int),
            r.selected_index == 0,
            r.confirmed_index is None,
            !r.loading,
            !r.is_eof,
    {
        let query = String::new();
        let matched = search(&names, query.as_str());
        CompanyList {
            names,
            query,
            matched,
            selected_index: 0,
            confirmed_index: None,
            loading: false,
            is_eof: false,
        }
    }

    /// The number of rows shown: the matches of the current search.
    pub fn items_count(&self) -> (r: usize)
        ensures
            r == self.matched@.len(),
    {
        self.matched.len()
    }

    /// Runs a search: keeps `query` and shows the companies it matches.
    pub fn perform_search(&mut self, query: &str)
        ensures
            final(self).query@ == query@,
            final(self).matched@ == matching(old(self).names.deep_view(), query@, old(self).names@.len() as int),
            final(self).names == old(self).names,
            final(self).selected_index == old(self).selected_index,
            final(self).confirmed_index == old(self).confirmed_index,
            final(self).loading == old(self).loading,
            final(self).is_eof == old(self).is_eof,
    {
        self.query = String::from_str(query);
        self.matched = search(&self.names, query);
    }

    /// Confirms row `ix` (or clears the confirmation); returns whether a row
    /// was confirmed, so that the page reacts to the choice.
    pub fn confirm(&mut self, ix: Option<usize>) -> (dispatched: bool)
        ensures
            final(self).confirmed_index == ix,
            dispatched == ix is Some,
            final(self).names == old(self).names,
            final(self).query == old(self).query,
            final(self).matched == old(self).matched,
            final(self).selected_index == old(self).selected_index,
            final(self).loading == old(self).loading,
            final(self).is_eof == old(self).is_eof,
    {
        self.confirmed_index = ix;
        ix.is_some()
    }

    /// Selects row `ix`; `None` leaves the selection. Returns whether the
    /// selection was set.
    pub fn set_selected_index(&mut self, ix: Option<usize>) -> (changed: bool)
        ensures
            changed == ix is Some,
            ix matches Some(i) ==> final(self).selected_index == i,
            ix is None ==> final(self).selected_index == old(self).selected_index,
            final(self).names == old(self).names,
            final(self).query == old(self).query,
            final(self).matched == old(self).matched,
            final(self).confirmed_index == old(self).confirmed_index,
            final(self).loading == old(self).loading,
            final(self).is_eof == old(self).is_eof,
    {
        match ix {
            Some(i) => {
                self.selected_index = i;
                true
            },
            None => false,
        }
    }

    /// The company shown in row `ix` and whether that row is highlighted (it
    /// is the selected or the confirmed row); `None` past the last row.
    pub fn render_item(&self, ix: usize) -> (r: Option<(usize, bool)>)
        ensures
            ix < self.matched@.len() ==> r == Some(
                (
                    self.matched@[ix as int],
                    ix == self.selected_index || self.confirmed_index == Some(ix),
                ),
            ),
            ix >= self.matched@.len() ==> r is None,
    {
        let selected = ix == self.selected_index || self.confirmed_index == Some(ix);
        if ix < self.matched.len() {
            Some((self.matched[ix], selected))
        } else {
            None
        }
    }

    /// The company at the selected index of the full list, if there is one.
    pub fn selected_company(&self) -> (r: Option<usize>)
        ensures
            r == if self.selected_index < self.names@.len() {
                Some(self.selected_index)
            } else {
                None
            },
    {
        if self.selected_index < self.names.len() {
            Some(self.selected_index)
        } else {
            None
        }
    }

    /// Whether more rows may be asked for: no load is running and the list
    /// has not ended.
    pub fn can_load_more(&self) -> (r: bool)
        ensures
            r == (!self.loading && !self.is_eof),
    {
        !self.loading && !self.is_eof
    }

    /// How close to the end of the shown rows scrolling must come before more
    /// rows are asked for.
    pub fn load_more_threshold(&self) -> (r: usize)
        ensures
            r == LOAD_MORE_THRESHOLD,
    {
        LOAD_MORE_THRESHOLD
    }

    /// Marks a load as started.
    pub fn begin_load(&mut self)
        ensures
            final(self).loading,
            final(self).names == old(self).names,
            final(self).query == old(self).query,
            final(self).matched == old(self).matched,
            final(self).selected_index == old(self).selected_index,
            final(self).confirmed_index == old(self).confirmed_index,
            final(self).is_eof == old(self).is_eof,
    {
        self.loading = true;
    }

    /// Finishes a load that brought the names `more` (a page of `PAGE_SIZE`):
    /// appends them, runs the current search again, ends the load, and marks
    /// the list ended once it holds `END_OF_LIST` companies.
    pub fn finish_load(&mut self, more: Vec<String>)
        requires
            old(self).names@.len() + more@.len() <= usize::MAX,
        ensures
            final(self).names@ == old(self).names@ + more@,
            final(self).query == old(self).query,
            final(self).matched@ == matching(
                final(self).names.deep_view(),
                old(self).query@,
                final(self).names@.len() as int,
            ),
            !final(self).loading,
            final(self).is_eof == (final(self).names@.len() >= END_OF_LIST),
            final(self).selected_index == old(self).selected_index,
            final(self).confirmed_index == old(self).confirmed_index,
    {
        let mut more = more;
        self.names.append(&mut more);
        self.matched = search(&self.names, self.query.as_str());
        self.loading = false;
        self.is_eof = self.names.len() >= END_OF_LIST;
    }
}

} // verus!
