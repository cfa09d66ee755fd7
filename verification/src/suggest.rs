//! Completion suggestions: single items with an optional description, and
//! the ordered, duplicate-free set of them that a completion yields.
use vstd::prelude::*;
use crate::text::{compare_text, lemma_text_order, owned, text_lt, views};

verus! {

/// One completion candidate: the text inserted on the command line and,
/// optionally, a description shown beside it.
#[derive(Debug, PartialEq, Eq)]
pub enum SuggestItem {
    /// Only the suggestion text.
    Simple(String),
    /// The suggestion text and its description.
    WithDescription(String, String),
}

/// A suggestion as seen by the contracts: its text and its description.
pub type ItemView = (Seq<char>, Option<Seq<char>>);

impl View for SuggestItem {
    type V = ItemView;

    open spec fn view(&self) -> ItemView {
        match self {
            SuggestItem::Simple(s) => (s@, None),
            SuggestItem::WithDescription(s, d) => (s@, Some(d@)),
        }
    }
}

impl Clone for SuggestItem {
    fn clone(&self) -> (r: SuggestItem)
        ensures
            r@ == self@,
    {
        match self {
            SuggestItem::Simple(s) => SuggestItem::Simple(s.clone()),
            SuggestItem::WithDescription(s, d) => SuggestItem::WithDescription(s.clone(), d.clone()),
        }
    }
}

impl Default for SuggestItem {
    fn default() -> (r: SuggestItem)
        ensures
            r@ == (Seq::<char>::empty(), None::<Seq<char>>),
    {
        SuggestItem::Simple(String::new())
    }
}

impl SuggestItem {
    /// A suggestion without description.
    pub fn new(suggest: String) -> (r: SuggestItem)
        ensures
            r == SuggestItem::Simple(suggest),
            r@ == (suggest@, None::<Seq<char>>),
    {
        SuggestItem::Simple(suggest)
    }

    /// A suggestion with a description.
    pub fn new_with_desc(suggest: String, description: String) -> (r: SuggestItem)
        ensures
            r == SuggestItem::WithDescription(suggest, description),
            r@ == (suggest@, Some(description@)),
    {
        SuggestItem::WithDescription(suggest, description)
    }

    /// The same suggestion text with `description` as its description.
    pub fn with_desc(self, description: String) -> (r: SuggestItem)
        ensures
            r@ == (self@.0, Some(description@)),
            r is WithDescription,
    {
        match self {
            SuggestItem::Simple(s) => SuggestItem::WithDescription(s, description),
            SuggestItem::WithDescription(s, _) => SuggestItem::WithDescription(s, description),
        }
    }

    /// The suggestion text.
    pub fn suggest(&self) -> (r: &String)
        ensures
            r@ == self@.0,
    {
        match self {
            SuggestItem::Simple(s) => s,
            SuggestItem::WithDescription(s, _) => s,
        }
    }

    /// Replaces the suggestion text, keeping the description.
    pub fn set_suggest(&mut self, new_suggest: String)
        ensures
            final(self)@ == (new_suggest@, old(self)@.1),
            ((*final(self)) is Simple) == ((*old(self)) is Simple),
    {
        match self {
            SuggestItem::Simple(s) => {
                *s = new_suggest;
            },
            SuggestItem::WithDescription(s, _) => {
                *s = new_suggest;
            },
        }
    }

    /// The description, if any.
    pub fn description(&self) -> (r: Option<&String>)
        ensures
            match r {
                None => self@.1 is None,
                Some(d) => self@.1 == Some(d@),
            },
    {
        match self {
            SuggestItem::Simple(_) => None,
            SuggestItem::WithDescription(_, d) => Some(d),
        }
    }

    /// Sets or replaces the description.
    pub fn set_description(&mut self, description: String)
        ensures
            final(self)@ == (old(self)@.0, Some(description@)),
            (*final(self)) is WithDescription,
    {
        let text = self.suggest().clone();
        *self = SuggestItem::WithDescription(text, description);
    }

    /// Removes and returns the description, leaving a simple suggestion.
    pub fn remove_desc(&mut self) -> (r: Option<String>)
        ensures
            final(self)@ == (old(self)@.0, None::<Seq<char>>),
            (*final(self)) is Simple,
            match r {
                None => old(self)@.1 is None,
                Some(d) => old(self)@.1 == Some(d@),
            },
    {
        match self {
            SuggestItem::Simple(_) => None,
            SuggestItem::WithDescription(s, d) => {
                let desc = d.clone();
                let text = s.clone();
                *self = SuggestItem::Simple(text);
                Some(desc)
            },
        }
    }

    /// Three-way comparison by suggestion text alone (the description does
    /// not take part): -1, 0 or 1.
    pub fn compare(&self, other: &SuggestItem) -> (r: i8)
        ensures
            r == -1 <==> text_lt(self@.0, other@.0),
            r == 0 <==> self@.0 == other@.0,
            r == 1 <==> text_lt(other@.0, self@.0),
    {
        compare_text(self.suggest().as_str(), other.suggest().as_str())
    }
}

impl From<String> for SuggestItem {
    fn from(suggest: String) -> (r: SuggestItem)
        ensures
            r@ == (suggest@, None::<Seq<char>>),
    {
        SuggestItem::new(suggest)
    }
}

impl vstd::std_specs::convert::FromSpecImpl<String> for SuggestItem {
    open spec fn obeys_from_spec() -> bool {
        true
    }

    open spec fn from_spec(v: String) -> SuggestItem {
        SuggestItem::Simple(v)
    }
}

impl<'a> From<&'a str> for SuggestItem {
    fn from(suggest: &'a str) -> (r: SuggestItem)
        ensures
            r@ == (suggest@, None::<Seq<char>>),
    {
        SuggestItem::new(owned(suggest))
    }
}

impl<'a> vstd::std_specs::convert::FromSpecImpl<&'a str> for SuggestItem {
    open spec fn obeys_from_spec() -> bool {
        false
    }

    open spec fn from_spec(v: &'a str) -> SuggestItem {
        vstd::pervasive::arbitrary()
    }
}

impl From<(String, String)> for SuggestItem {
    fn from(pair: (String, String)) -> (r: SuggestItem)
        ensures
            r@ == (pair.0@, Some(pair.1@)),
    {
        let (suggest, description) = pair;
        SuggestItem::new_with_desc(suggest, description)
    }
}

impl vstd::std_specs::convert::FromSpecImpl<(String, String)> for SuggestItem {
    open spec fn obeys_from_spec() -> bool {
        true
    }

    open spec fn from_spec(v: (String, String)) -> SuggestItem {
        SuggestItem::WithDescription(v.0, v.1)
    }
}

// ---------------------------------------------------------------------
// The ordered set of suggestions.
// ---------------------------------------------------------------------

/// The texts of `s` are strictly increasing: `s` is sorted and holds no two
/// suggestions with the same text.
pub open spec fn texts_sorted(s: Seq<ItemView>) -> bool {
    forall|i: int, j: int| 0 <= i < j < s.len() ==> text_lt(#[trigger] s[i].0, #[trigger] s[j].0)
}

/// Some element of `s` has the text `t`.
pub open spec fn has_text(s: Seq<ItemView>, t: Seq<char>) -> bool {
    exists|i: int| 0 <= i < s.len() && #[trigger] s[i].0 == t
}

/// The first position at or after `i` whose text does not sort before `t`.
pub open spec fn first_not_below(s: Seq<ItemView>, t: Seq<char>, i: int) -> int
    decreases s.len() - i,
{
    if i < 0 || i >= s.len() {
        s.len() as int
    } else if text_lt(s[i].0, t) {
        first_not_below(s, t, i + 1)
    } else {
        i
    }
}

/// Where a suggestion with text `t` belongs in `s`.
pub open spec fn insert_pos(s: Seq<ItemView>, t: Seq<char>) -> int {
    first_not_below(s, t, 0)
}

/// `s` with `x` added when no suggestion has its text; otherwise `s`.
pub open spec fn set_insert(s: Seq<ItemView>, x: ItemView) -> Seq<ItemView> {
    if has_text(s, x.0) {
        s
    } else {
        s.insert(insert_pos(s, x.0), x)
    }
}

/// `s` with `x` in place of the suggestion that has its text, or added.
pub open spec fn set_upsert(s: Seq<ItemView>, x: ItemView) -> Seq<ItemView> {
    if has_text(s, x.0) {
        s.update(insert_pos(s, x.0), x)
    } else {
        s.insert(insert_pos(s, x.0), x)
    }
}

/// The set built by upserting `xs[0..k]` in order into `acc`.
pub open spec fn upsert_all(acc: Seq<ItemView>, xs: Seq<ItemView>, k: int) -> Seq<ItemView>
    decreases k,
{
    if k <= 0 {
        acc
    } else {
        set_upsert(upsert_all(acc, xs, k - 1), xs[k - 1])
    }
}

/// The set holding the items of `xs`; of items sharing a text the last wins.
pub open spec fn collect_items(xs: Seq<ItemView>) -> Seq<ItemView> {
    upsert_all(Seq::empty(), xs, xs.len() as int)
}

proof fn lemma_first_not_below(s: Seq<ItemView>, t: Seq<char>, i: int)
    requires
        0 <= i <= s.len(),
    ensures
        i <= first_not_below(s, t, i) <= s.len(),
        forall|k: int| i <= k < first_not_below(s, t, i) ==> text_lt(#[trigger] s[k].0, t),
        first_not_below(s, t, i) < s.len() ==> !text_lt(s[first_not_below(s, t, i)].0, t),
    decreases s.len() - i,
{
    if i < s.len() && text_lt(s[i].0, t) {
        lemma_first_not_below(s, t, i + 1);
    }
}

/// Facts about the position of a text in a sorted set.
proof fn lemma_insert_pos(s: Seq<ItemView>, t: Seq<char>)
    requires
        texts_sorted(s),
    ensures
        0 <= insert_pos(s, t) <= s.len(),
        forall|k: int| 0 <= k < insert_pos(s, t) ==> text_lt(#[trigger] s[k].0, t),
        forall|k: int| insert_pos(s, t) < k < s.len() ==> text_lt(t, #[trigger] s[k].0),
        insert_pos(s, t) < s.len() ==> (s[insert_pos(s, t)].0 == t || text_lt(t, s[insert_pos(s, t)].0)),
        has_text(s, t) <==> (insert_pos(s, t) < s.len() && s[insert_pos(s, t)].0 == t),
{
    lemma_first_not_below(s, t, 0);
    let p = insert_pos(s, t);
    if p < s.len() {
        lemma_text_order(s[p].0, t, t);
        lemma_text_order(t, s[p].0, t);
        assert forall|k: int| p < k < s.len() implies text_lt(t, #[trigger] s[k].0) by {
            assert(text_lt(s[p].0, s[k].0));
            lemma_text_order(t, s[p].0, s[k].0);
        }
    }
    if has_text(s, t) {
        let w = choose|w: int| 0 <= w < s.len() && #[trigger] s[w].0 == t;
        lemma_text_order(t, t, t);
        if w < p {
            assert(text_lt(s[w].0, t));
        } else if w > p {
            assert(text_lt(t, s[w].0));
        }
    }
    if p < s.len() && s[p].0 == t {
        assert(has_text(s, t));
    }
}

/// Adding or replacing a suggestion keeps the texts strictly increasing.
proof fn lemma_upsert_sorted(s: Seq<ItemView>, x: ItemView)
    requires
        texts_sorted(s),
    ensures
        texts_sorted(set_upsert(s, x)),
        texts_sorted(set_insert(s, x)),
        has_text(set_upsert(s, x), x.0),
        has_text(set_insert(s, x), x.0),
        set_upsert(s, x).len() == s.len() + (if has_text(s, x.0) { 0int } else { 1int }),
{
    lemma_insert_pos(s, x.0);
    let p = insert_pos(s, x.0);
    if has_text(s, x.0) {
        let r = s.update(p, x);
        assert forall|i: int, j: int| 0 <= i < j < r.len() implies text_lt(#[trigger] r[i].0, #[trigger] r[j].0) by {
            assert(text_lt(s[i].0, s[j].0));
        }
        assert(r[p].0 == x.0);
        assert(s[p].0 == x.0);
    } else {
        let r = s.insert(p, x);
        assert forall|i: int, j: int| 0 <= i < j < r.len() implies text_lt(#[trigger] r[i].0, #[trigger] r[j].0) by {
            if j < p {
                assert(text_lt(s[i].0, s[j].0));
            } else if j == p {
                assert(text_lt(s[i].0, x.0));
            } else if i < p {
                assert(text_lt(s[i].0, x.0));
                assert(text_lt(x.0, s[j - 1].0));
                lemma_text_order(s[i].0, x.0, s[j - 1].0);
            } else if i == p {
                assert(text_lt(x.0, s[j - 1].0));
            } else {
                assert(text_lt(s[i - 1].0, s[j - 1].0));
            }
        }
        assert(r[p].0 == x.0);
    }
}

proof fn lemma_upsert_all_sorted(acc: Seq<ItemView>, xs: Seq<ItemView>, k: int)
    requires
        texts_sorted(acc),
        k <= xs.len(),
    ensures
        texts_sorted(upsert_all(acc, xs, k)),
    decreases k,
{
    if k > 0 {
        lemma_upsert_all_sorted(acc, xs, k - 1);
        lemma_upsert_sorted(upsert_all(acc, xs, k - 1), xs[k - 1]);
    }
}

/// The items of `s[..k]` whose text is not among `texts`, in order.
pub open spec fn kept_items(s: Seq<ItemView>, texts: Seq<Seq<char>>, k: int) -> Seq<ItemView>
    decreases k,
{
    if k <= 0 {
        Seq::empty()
    } else if texts.contains(s[k - 1].0) {
        kept_items(s, texts, k - 1)
    } else {
        kept_items(s, texts, k - 1).push(s[k - 1])
    }
}

/// The items of `s` whose text is not among `texts`, in order.
pub open spec fn without_texts(s: Seq<ItemView>, texts: Seq<Seq<char>>) -> Seq<ItemView> {
    kept_items(s, texts, s.len() as int)
}

/// Leaving items out keeps the texts strictly increasing.
proof fn lemma_kept_sorted(s: Seq<ItemView>, texts: Seq<Seq<char>>, k: int)
    requires
        texts_sorted(s),
        0 <= k <= s.len(),
    ensures
        texts_sorted(kept_items(s, texts, k)),
        forall|m: int, j: int|
            0 <= m < kept_items(s, texts, k).len() && k <= j < s.len() ==> text_lt(
                #[trigger] kept_items(s, texts, k)[m].0,
                #[trigger] s[j].0,
            ),
    decreases k,
{
    if k > 0 {
        lemma_kept_sorted(s, texts, k - 1);
        let prev = kept_items(s, texts, k - 1);
        if !texts.contains(s[k - 1].0) {
            let cur = prev.push(s[k - 1]);
            assert forall|m: int, j: int| 0 <= m < cur.len() && k <= j < s.len() implies text_lt(
                #[trigger] cur[m].0,
                #[trigger] s[j].0,
            ) by {
                if m < prev.len() {
                    assert(text_lt(prev[m].0, s[j].0));
                } else {
                    assert(text_lt(s[k - 1].0, s[j].0));
                }
            }
            assert forall|a: int, b: int| 0 <= a < b < cur.len() implies text_lt(
                #[trigger] cur[a].0,
                #[trigger] cur[b].0,
            ) by {
                if b < prev.len() {
                    assert(text_lt(prev[a].0, prev[b].0));
                } else {
                    assert(text_lt(prev[a].0, s[k - 1].0));
                }
            }
        }
    }
}

/// The suggestions of a completion, ordered by text with no two sharing a
/// text.
#[derive(Debug, PartialEq, Eq)]
pub struct SuggestSet {
    items: Vec<SuggestItem>,
}

impl View for SuggestSet {
    type V = Seq<ItemView>;

    closed spec fn view(&self) -> Seq<ItemView> {
        self.items@.map_values(|it: SuggestItem| it@)
    }
}

impl SuggestSet {
    #[verifier::type_invariant]
    spec fn sorted(self) -> bool {
        texts_sorted(self@)
    }

    /// An empty set.
    pub fn new() -> (r: SuggestSet)
        ensures
            r@ == Seq::<ItemView>::empty(),
    {
        let r = SuggestSet { items: Vec::new() };
        proof {
            assert(r@ =~= Seq::<ItemView>::empty());
        }
        r
    }

    /// Number of suggestions.
    pub fn len(&self) -> (n: usize)
        ensures
            n == self@.len(),
    {
        self.items.len()
    }

    /// Whether the set is empty.
    pub fn is_empty(&self) -> (r: bool)
        ensures
            r == (self@.len() == 0),
    {
        self.items.len() == 0
    }

    /// Drops every suggestion whose text is one of `texts`.
    pub fn remove_texts(&mut self, texts: &Vec<String>)
        ensures
            final(self)@ == without_texts(old(self)@, views(texts@)),
    {
        proof {
            use_type_invariant(&*self);
        }
        let ghost s = self@;
        let ghost t = views(texts@);
        let mut kept: Vec<SuggestItem> = Vec::new();
        let mut i: usize = 0;
        while i < self.items.len()
            invariant
                s == self@,
                t == views(texts@),
                s.len() == self.items@.len(),
                i <= s.len(),
                kept@.map_values(|it: SuggestItem| it@) == kept_items(s, t, i as int),
            decreases s.len() - i,
        {
            let item = &self.items[i];
            if !crate::flag::contains_string(texts, item.suggest().as_str()) {
                let ghost prev = kept@.map_values(|it: SuggestItem| it@);
                let c = item.clone();
                kept.push(c);
                proof {
                    assert(kept@.map_values(|it: SuggestItem| it@) =~= prev.push(s[i as int]));
                }
            }
            i = i + 1;
        }
        proof {
            lemma_kept_sorted(s, t, s.len() as int);
        }
        self.items = kept;
    }

    /// The suggestions in text order.
    pub fn items(&self) -> (r: &Vec<SuggestItem>)
        ensures
            r@.map_values(|it: SuggestItem| it@) == self@,
    {
        &self.items
    }

    /// The position of the suggestion with text `t`, or where it would go.
    fn locate(&self, t: &str) -> (p: usize)
        ensures
            p == insert_pos(self@, t@),
    {
        proof {
            use_type_invariant(self);
            lemma_first_not_below(self@, t@, 0);
        }
        let mut i: usize = 0;
        while i < self.items.len()
            invariant
                i <= self@.len(),
                self@.len() == self.items@.len(),
                insert_pos(self@, t@) == first_not_below(self@, t@, i as int),
            decreases self@.len() - i,
        {
            let c = compare_text(self.items[i].suggest().as_str(), t);
            if c != -1 {
                return i;
            }
            i = i + 1;
        }
        i
    }

    /// Whether a suggestion with text `t` is present.
    pub fn contains_text(&self, t: &str) -> (r: bool)
        ensures
            r == has_text(self@, t@),
    {
        proof {
            use_type_invariant(self);
            lemma_insert_pos(self@, t@);
        }
        let p = self.locate(t);
        if p < self.items.len() {
            compare_text(self.items[p].suggest().as_str(), t) == 0
        } else {
            false
        }
    }

    /// Whether a suggestion with the text of `item` is present; as in the
    /// order of the set, the description is not compared.
    pub fn contains(&self, item: &SuggestItem) -> (r: bool)
        ensures
            r == has_text(self@, item@.0),
    {
        self.contains_text(item.suggest().as_str())
    }

    /// Adds `item` unless a suggestion with its text is present; tells
    /// whether it was added.
    pub fn insert(&mut self, item: SuggestItem) -> (added: bool)
        ensures
            final(self)@ == set_insert(old(self)@, item@),
            added == !has_text(old(self)@, item@.0),
    {
        proof {
            use_type_invariant(&*self);
            lemma_insert_pos(self@, item@.0);
            lemma_upsert_sorted(self@, item@);
        }
        let p = self.locate(item.suggest().as_str());
        if p < self.items.len() && compare_text(self.items[p].suggest().as_str(), item.suggest().as_str()) == 0 {
            return false;
        }
        let ghost old_view = self@;
        let mut items: Vec<SuggestItem> = Vec::new();
        std::mem::swap(&mut items, &mut self.items);
        items.insert(p, item);
        proof {
            assert(items@.map_values(|it: SuggestItem| it@) =~= old_view.insert(p as int, item@));
        }
        self.items = items;
        true
    }

    /// Adds `item`, replacing the suggestion that has its text if any.
    pub fn upsert(&mut self, item: SuggestItem)
        ensures
            final(self)@ == set_upsert(old(self)@, item@),
    {
        proof {
            use_type_invariant(&*self);
            lemma_insert_pos(self@, item@.0);
            lemma_upsert_sorted(self@, item@);
        }
        let p = self.locate(item.suggest().as_str());
        let ghost old_view = self@;
        let mut items: Vec<SuggestItem> = Vec::new();
        std::mem::swap(&mut items, &mut self.items);
        if p < items.len() && compare_text(items[p].suggest().as_str(), item.suggest().as_str()) == 0 {
            items.set(p, item);
            proof {
                assert(items@.map_values(|it: SuggestItem| it@) =~= old_view.update(p as int, item@));
            }
        } else {
            items.insert(p, item);
            proof {
                assert(items@.map_values(|it: SuggestItem| it@) =~= old_view.insert(p as int, item@));
            }
        }
        self.items = items;
    }

    /// The set of `items`; of items sharing a text the last one stays.
    pub fn from_items(items: Vec<SuggestItem>) -> (r: SuggestSet)
        ensures
            r@ == collect_items(items@.map_values(|it: SuggestItem| it@)),
    {
        let ghost xs = items@.map_values(|it: SuggestItem| it@);
        let mut r = SuggestSet::new();
        let mut rest = items;
        let n = rest.len();
        let mut i: usize = 0;
        // Reverse once so that items can be popped in their original order.
        let mut pending: Vec<SuggestItem> = Vec::new();
        while rest.len() > 0
            invariant
                pending@.len() + rest@.len() == n,
                forall|k: int| 0 <= k < pending@.len() ==> #[trigger] pending@[k]@ == xs[n - 1 - k],
                forall|k: int| 0 <= k < rest@.len() ==> #[trigger] rest@[k]@ == xs[k],
                xs.len() == n,
            decreases rest@.len(),
        {
            let it = rest.pop().unwrap();
            pending.push(it);
        }
        while i < n
            invariant
                i <= n,
                pending@.len() == n - i,
                forall|k: int| 0 <= k < pending@.len() ==> #[trigger] pending@[k]@ == xs[n - 1 - k],
                xs.len() == n,
                r@ == upsert_all(Seq::empty(), xs, i as int),
            decreases n - i,
        {
            let it = pending.pop().unwrap();
            proof {
                assert(it@ == xs[i as int]);
            }
            r.upsert(it);
            i = i + 1;
        }
        r
    }
}

/// A completion answer: concrete suggestions, or a request for the shell
/// to complete file paths.
#[derive(Debug, PartialEq, Eq)]
pub enum Suggest {
    /// Concrete suggestions, ordered by text and free of duplicates.
    Suggest(SuggestSet),
    /// Ask the shell to complete file paths.
    FileCompletion,
}

/// The set built by inserting `xs[0..k]` in order into `acc`; an item whose
/// text is already present is dropped.
pub open spec fn insert_all(acc: Seq<ItemView>, xs: Seq<ItemView>, k: int) -> Seq<ItemView>
    decreases k,
{
    if k <= 0 {
        acc
    } else {
        set_insert(insert_all(acc, xs, k - 1), xs[k - 1])
    }
}

/// Simple suggestions with the given texts.
pub open spec fn simple_items(texts: Seq<Seq<char>>) -> Seq<ItemView> {
    texts.map_values(|t: Seq<char>| (t, None::<Seq<char>>))
}

/// Suggestions with the given texts, all carrying the description `d`.
pub open spec fn described_items(texts: Seq<Seq<char>>, d: Seq<char>) -> Seq<ItemView> {
    texts.map_values(|t: Seq<char>| (t, Some(d)))
}

/// `s` with `p` put before every text.
pub open spec fn prefixed(s: Seq<ItemView>, p: Seq<char>) -> Seq<ItemView> {
    s.map_values(|x: ItemView| (p + x.0, x.1))
}

/// `s` with `q` put after every text.
pub open spec fn suffixed(s: Seq<ItemView>, q: Seq<char>) -> Seq<ItemView> {
    s.map_values(|x: ItemView| (x.0 + q, x.1))
}

/// The suggestions of a `Suggest`, or `None` for file completion.
pub open spec fn suggest_view(s: Suggest) -> Option<Seq<ItemView>> {
    match s {
        Suggest::Suggest(set) => Some(set@),
        Suggest::FileCompletion => None,
    }
}

impl SuggestSet {
    /// Adds each item of `items` in order, keeping the first of any text.
    fn insert_each(&mut self, items: Vec<SuggestItem>)
        ensures
            final(self)@ == insert_all(old(self)@, items@.map_values(|it: SuggestItem| it@), items@.len() as int),
    {
        let ghost xs = items@.map_values(|it: SuggestItem| it@);
        let ghost start = self@;
        let n = items.len();
        let mut rest = items;
        let mut pending: Vec<SuggestItem> = Vec::new();
        while rest.len() > 0
            invariant
                pending@.len() + rest@.len() == n,
                forall|k: int| 0 <= k < pending@.len() ==> #[trigger] pending@[k]@ == xs[n - 1 - k],
                forall|k: int| 0 <= k < rest@.len() ==> #[trigger] rest@[k]@ == xs[k],
                xs.len() == n,
            decreases rest@.len(),
        {
            let it = rest.pop().unwrap();
            pending.push(it);
        }
        let mut i: usize = 0;
        while i < n
            invariant
                i <= n,
                pending@.len() == n - i,
                forall|k: int| 0 <= k < pending@.len() ==> #[trigger] pending@[k]@ == xs[n - 1 - k],
                xs.len() == n,
                self@ == insert_all(start, xs, i as int),
            decreases n - i,
        {
            let it = pending.pop().unwrap();
            proof {
                assert(it@ == xs[i as int]);
            }
            self.insert(it);
            i = i + 1;
        }
    }

    /// Adds each item of `items` in order, the last of any text winning.
    fn upsert_each(&mut self, items: Vec<SuggestItem>)
        ensures
            final(self)@ == upsert_all(old(self)@, items@.map_values(|it: SuggestItem| it@), items@.len() as int),
    {
        let ghost xs = items@.map_values(|it: SuggestItem| it@);
        let ghost start = self@;
        let n = items.len();
        let mut rest = items;
        let mut pending: Vec<SuggestItem> = Vec::new();
        while rest.len() > 0
            invariant
                pending@.len() + rest@.len() == n,
                forall|k: int| 0 <= k < pending@.len() ==> #[trigger] pending@[k]@ == xs[n - 1 - k],
                forall|k: int| 0 <= k < rest@.len() ==> #[trigger] rest@[k]@ == xs[k],
                xs.len() == n,
            decreases rest@.len(),
        {
            let it = rest.pop().unwrap();
            pending.push(it);
        }
        let mut i: usize = 0;
        while i < n
            invariant
                i <= n,
                pending@.len() == n - i,
                forall|k: int| 0 <= k < pending@.len() ==> #[trigger] pending@[k]@ == xs[n - 1 - k],
                xs.len() == n,
                self@ == upsert_all(start, xs, i as int),
            decreases n - i,
        {
            let it = pending.pop().unwrap();
            proof {
                assert(it@ == xs[i as int]);
            }
            self.upsert(it);
            i = i + 1;
        }
    }

    /// Gives up the set, returning its suggestions in text order.
    pub fn into_items(self) -> (r: Vec<SuggestItem>)
        ensures
            r@.map_values(|it: SuggestItem| it@) == self@,
    {
        self.items
    }
}

/// Simple suggestions with the texts of `texts`, in order.
fn simple_vec(texts: Vec<String>) -> (r: Vec<SuggestItem>)
    ensures
        r@.map_values(|it: SuggestItem| it@) == simple_items(views(texts@)),
{
    let mut r: Vec<SuggestItem> = Vec::new();
    let n = texts.len();
    let mut i: usize = 0;
    while i < n
        invariant
            n == texts@.len(),
            i <= n,
            r@.map_values(|it: SuggestItem| it@) == simple_items(views(texts@)).take(i as int),
        decreases n - i,
    {
        let ghost prev = r@.map_values(|it: SuggestItem| it@);
        let item = SuggestItem::Simple(texts[i].clone());
        r.push(item);
        proof {
            assert(r@.map_values(|it: SuggestItem| it@) =~= prev.push((texts@[i as int]@, None::<Seq<char>>)));
            assert(simple_items(views(texts@)).take(i + 1) =~= simple_items(views(texts@)).take(i as int).push((texts@[i as int]@, None::<Seq<char>>)));
        }
        i = i + 1;
    }
    proof {
        assert(simple_items(views(texts@)).take(n as int) =~= simple_items(views(texts@)));
    }
    r
}

impl Suggest {
    /// An empty set of suggestions.
    pub fn new() -> (r: Suggest)
        ensures
            suggest_view(r) == Some(Seq::<ItemView>::empty()),
    {
        Suggest::Suggest(SuggestSet::new())
    }

    /// A request for file completion.
    pub fn file_comp() -> (r: Suggest)
        ensures
            r is FileCompletion,
    {
        Suggest::FileCompletion
    }

    /// Whether this is a request for file completion.
    pub fn is_file_completion(&self) -> (r: bool)
        ensures
            r == (*self is FileCompletion),
    {
        match self {
            Suggest::FileCompletion => true,
            Suggest::Suggest(_) => false,
        }
    }

    /// The suggestions, or `None` for file completion.
    pub fn as_set(&self) -> (r: Option<&SuggestSet>)
        ensures
            match r {
                None => *self is FileCompletion,
                Some(set) => suggest_view(*self) == Some(set@),
            },
    {
        match self {
            Suggest::Suggest(set) => Some(set),
            Suggest::FileCompletion => None,
        }
    }

    /// The suggestions built from `items`; of items sharing a text the last
    /// one stays.
    pub fn from_items(items: Vec<SuggestItem>) -> (r: Suggest)
        ensures
            suggest_view(r) == Some(collect_items(items@.map_values(|it: SuggestItem| it@))),
    {
        Suggest::Suggest(SuggestSet::from_items(items))
    }

    /// Simple suggestions with the given texts.
    pub fn from_strings(texts: Vec<String>) -> (r: Suggest)
        ensures
            suggest_view(r) == Some(collect_items(simple_items(views(texts@)))),
    {
        Suggest::from_items(simple_vec(texts))
    }

    /// Simple suggestions with the given texts.
    pub fn from_strs(texts: &[&str]) -> (r: Suggest)
        ensures
            suggest_view(r) == Some(collect_items(simple_items(crate::flag::str_views(texts@)))),
    {
        Suggest::from_strings(crate::string_vec::strs_to_strings(texts))
    }

    /// Number of suggestions.
    pub fn len(&self) -> (n: usize)
        requires
            *self is Suggest,
        ensures
            n == suggest_view(*self)->0.len(),
    {
        match self {
            Suggest::Suggest(set) => set.len(),
            Suggest::FileCompletion => 0,
        }
    }

    /// Adds one suggestion; a present text keeps its current suggestion.
    pub fn insert(&mut self, item: SuggestItem) -> (added: bool)
        requires
            *old(self) is Suggest,
        ensures
            suggest_view(*final(self)) == Some(set_insert(suggest_view(*old(self))->0, item@)),
            added == !has_text(suggest_view(*old(self))->0, item@.0),
    {
        match self {
            Suggest::Suggest(set) => set.insert(item),
            Suggest::FileCompletion => false,
        }
    }

    /// Both sets of suggestions joined (a text present in both keeps the
    /// suggestion of `other`); a file-completion request is kept as is,
    /// and a set joined with a file-completion request stays unchanged.
    pub fn combine(self, other: Suggest) -> (r: Suggest)
        ensures
            match (suggest_view(self), suggest_view(other)) {
                (Some(a), Some(b)) => suggest_view(r) == Some(collect_items(a + b)),
                _ => r == self,
            },
    {
        match (self, other) {
            (Suggest::Suggest(a), Suggest::Suggest(b)) => {
                let ghost va = a@;
                let ghost vb = b@;
                let mut all = a.into_items();
                let mut more = b.into_items();
                let ghost before = all@;
                all.append(&mut more);
                proof {
                    assert(all@.map_values(|it: SuggestItem| it@) =~= va + vb);
                }
                Suggest::Suggest(SuggestSet::from_items(all))
            },
            (s, _) => s,
        }
    }

    /// Adds simple suggestions with the given texts; a present text keeps
    /// its current suggestion.
    pub fn add_suggest(&mut self, items: Vec<String>)
        requires
            *old(self) is Suggest,
        ensures
            suggest_view(*final(self)) == Some(
                insert_all(suggest_view(*old(self))->0, simple_items(views(items@)), items@.len() as int),
            ),
    {
        let ghost texts = items@;
        let v = simple_vec(items);
        proof {
            assert(v@.map_values(|it: SuggestItem| it@).len() == v@.len());
            assert(v@.len() == texts.len());
        }
        match self {
            Suggest::Suggest(set) => set.insert_each(v),
            Suggest::FileCompletion => {},
        }
    }

    /// Adds suggestions with the given texts, all described by `desc`; a
    /// present text keeps its current suggestion.
    pub fn add_suggest_with_description(&mut self, items: Vec<String>, desc: &str)
        requires
            *old(self) is Suggest,
        ensures
            suggest_view(*final(self)) == Some(
                insert_all(suggest_view(*old(self))->0, described_items(views(items@), desc@), items@.len() as int),
            ),
    {
        let mut v: Vec<SuggestItem> = Vec::new();
        let n = items.len();
        let mut i: usize = 0;
        while i < n
            invariant
                n == items@.len(),
                i <= n,
                v@.map_values(|it: SuggestItem| it@) == described_items(views(items@), desc@).take(i as int),
            decreases n - i,
        {
            let ghost prev = v@.map_values(|it: SuggestItem| it@);
            let item = SuggestItem::WithDescription(items[i].clone(), owned(desc));
            v.push(item);
            proof {
                assert(v@.map_values(|it: SuggestItem| it@) =~= prev.push((items@[i as int]@, Some(desc@))));
                assert(described_items(views(items@), desc@).take(i + 1) =~= described_items(views(items@), desc@).take(i as int).push((items@[i as int]@, Some(desc@))));
            }
            i = i + 1;
        }
        proof {
            assert(described_items(views(items@), desc@).take(n as int) =~= described_items(views(items@), desc@));
        }
        match self {
            Suggest::Suggest(set) => set.insert_each(v),
            Suggest::FileCompletion => {},
        }
    }

    /// Every suggestion text with `prefix` put before it; a file-completion
    /// request is returned unchanged.
    pub fn add_prefix(self, prefix: &str) -> (r: Suggest)
        ensures
            match suggest_view(self) {
                Some(a) => suggest_view(r) == Some(collect_items(prefixed(a, prefix@))),
                None => r is FileCompletion,
            },
    {
        match self {
            Suggest::FileCompletion => Suggest::FileCompletion,
            Suggest::Suggest(set) => {
                let ghost a = set@;
                let items = set.into_items();
                let n = items.len();
                let mut out: Vec<SuggestItem> = Vec::new();
                let mut i: usize = 0;
                while i < n
                    invariant
                        n == items@.len(),
                        i <= n,
                        items@.map_values(|it: SuggestItem| it@) == a,
                        out@.map_values(|it: SuggestItem| it@) == prefixed(a, prefix@).take(i as int),
                    decreases n - i,
                {
                    let ghost prev = out@.map_values(|it: SuggestItem| it@);
                    let mut item = items[i].clone();
                    let mut text = owned(prefix);
                    text.append(item.suggest().as_str());
                    item.set_suggest(text);
                    out.push(item);
                    proof {
                        assert(out@.map_values(|it: SuggestItem| it@) =~= prev.push((prefix@ + a[i as int].0, a[i as int].1)));
                        assert(prefixed(a, prefix@).take(i + 1) =~= prefixed(a, prefix@).take(i as int).push((prefix@ + a[i as int].0, a[i as int].1)));
                    }
                    i = i + 1;
                }
                proof {
                    assert(prefixed(a, prefix@).take(n as int) =~= prefixed(a, prefix@));
                }
                Suggest::Suggest(SuggestSet::from_items(out))
            },
        }
    }

    /// Every suggestion text with `suffix` put after it; a file-completion
    /// request is returned unchanged.
    pub fn add_suffix(self, suffix: &str) -> (r: Suggest)
        ensures
            match suggest_view(self) {
                Some(a) => suggest_view(r) == Some(collect_items(suffixed(a, suffix@))),
                None => r is FileCompletion,
            },
    {
        match self {
            Suggest::FileCompletion => Suggest::FileCompletion,
            Suggest::Suggest(set) => {
                let ghost a = set@;
                let items = set.into_items();
                let n = items.len();
                let mut out: Vec<SuggestItem> = Vec::new();
                let mut i: usize = 0;
                while i < n
                    invariant
                        n == items@.len(),
                        i <= n,
                        items@.map_values(|it: SuggestItem| it@) == a,
                        out@.map_values(|it: SuggestItem| it@) == suffixed(a, suffix@).take(i as int),
                    decreases n - i,
                {
                    let ghost prev = out@.map_values(|it: SuggestItem| it@);
                    let mut item = items[i].clone();
                    let mut text = item.suggest().clone();
                    text.append(suffix);
                    item.set_suggest(text);
                    out.push(item);
                    proof {
                        assert(out@.map_values(|it: SuggestItem| it@) =~= prev.push((a[i as int].0 + suffix@, a[i as int].1)));
                        assert(suffixed(a, suffix@).take(i + 1) =~= suffixed(a, suffix@).take(i as int).push((a[i as int].0 + suffix@, a[i as int].1)));
                    }
                    i = i + 1;
                }
                proof {
                    assert(suffixed(a, suffix@).take(n as int) =~= suffixed(a, suffix@));
                }
                Suggest::Suggest(SuggestSet::from_items(out))
            },
        }
    }
}

impl Default for Suggest {
    fn default() -> (r: Suggest)
        ensures
            r is FileCompletion,
    {
        Suggest::FileCompletion
    }
}

impl From<Vec<String>> for Suggest {
    fn from(texts: Vec<String>) -> (r: Suggest)
        ensures
            suggest_view(r) == Some(collect_items(simple_items(views(texts@)))),
    {
        Suggest::from_strings(texts)
    }
}

impl vstd::std_specs::convert::FromSpecImpl<Vec<String>> for Suggest {
    open spec fn obeys_from_spec() -> bool {
        false
    }

    open spec fn from_spec(v: Vec<String>) -> Suggest {
        vstd::pervasive::arbitrary()
    }
}

impl<'b> From<Vec<&'b str>> for Suggest {
    fn from(texts: Vec<&'b str>) -> (r: Suggest)
        ensures
            suggest_view(r) == Some(collect_items(simple_items(crate::flag::str_views(texts@)))),
    {
        Suggest::from_strs(texts.as_slice())
    }
}

impl<'b> vstd::std_specs::convert::FromSpecImpl<Vec<&'b str>> for Suggest {
    open spec fn obeys_from_spec() -> bool {
        false
    }

    open spec fn from_spec(v: Vec<&'b str>) -> Suggest {
        vstd::pervasive::arbitrary()
    }
}

impl<'b, const N: usize> From<[&'b str; N]> for Suggest {
    fn from(texts: [&'b str; N]) -> (r: Suggest)
        ensures
            suggest_view(r) == Some(collect_items(simple_items(crate::flag::str_views(texts@)))),
    {
        Suggest::from_strs(texts.as_slice())
    }
}

impl<'b, const N: usize> vstd::std_specs::convert::FromSpecImpl<[&'b str; N]> for Suggest {
    open spec fn obeys_from_spec() -> bool {
        false
    }

    open spec fn from_spec(v: [&'b str; N]) -> Suggest {
        vstd::pervasive::arbitrary()
    }
}

impl From<Vec<SuggestItem>> for Suggest {
    fn from(items: Vec<SuggestItem>) -> (r: Suggest)
        ensures
            suggest_view(r) == Some(collect_items(items@.map_values(|it: SuggestItem| it@))),
    {
        Suggest::from_items(items)
    }
}

impl vstd::std_specs::convert::FromSpecImpl<Vec<SuggestItem>> for Suggest {
    open spec fn obeys_from_spec() -> bool {
        false
    }

    open spec fn from_spec(v: Vec<SuggestItem>) -> Suggest {
        vstd::pervasive::arbitrary()
    }
}

/// Inserting the same suggestion a second time changes nothing.
pub proof fn law_insert_idempotent(s: Seq<ItemView>, x: ItemView)
    requires
        texts_sorted(s),
    ensures
        set_insert(set_insert(s, x), x) == set_insert(s, x),
{
    lemma_upsert_sorted(s, x);
}

/// After an insertion the text is present, the set stays strictly ordered,
/// and every text present before is still present.
pub proof fn law_insert_keeps(s: Seq<ItemView>, x: ItemView, t: Seq<char>)
    requires
        texts_sorted(s),
    ensures
        texts_sorted(set_insert(s, x)),
        has_text(set_insert(s, x), x.0),
        has_text(s, t) ==> has_text(set_insert(s, x), t),
{
    lemma_upsert_sorted(s, x);
    lemma_insert_pos(s, x.0);
    if has_text(s, t) && !has_text(s, x.0) {
        let w = choose|w: int| 0 <= w < s.len() && #[trigger] s[w].0 == t;
        let p = insert_pos(s, x.0);
        if w < p {
            assert(set_insert(s, x)[w].0 == t);
        } else {
            assert(set_insert(s, x)[w + 1].0 == t);
        }
    }
}

/// Every set built by collecting items is strictly ordered by text.
pub proof fn law_collect_sorted(xs: Seq<ItemView>)
    ensures
        texts_sorted(collect_items(xs)),
{
    lemma_upsert_all_sorted(Seq::empty(), xs, xs.len() as int);
}

proof fn lemma_kept_items(s: Seq<ItemView>, texts: Seq<Seq<char>>, k: int, x: ItemView)
    requires
        0 <= k <= s.len(),
    ensures
        kept_items(s, texts, k).contains(x) <==> s.subrange(0, k).contains(x) && !texts.contains(x.0),
    decreases k,
{
    if k > 0 {
        lemma_kept_items(s, texts, k - 1, x);
        let prev = s.subrange(0, k - 1);
        assert(s.subrange(0, k) =~= prev.push(s[k - 1]));
        if s.subrange(0, k).contains(x) && !prev.contains(x) {
            assert(x == s[k - 1]) by {
                let w = choose|w: int| 0 <= w < k && #[trigger] s.subrange(0, k)[w] == x;
                if w < k - 1 {
                    assert(prev[w] == x);
                }
            }
        }
        if prev.contains(x) {
            let w = choose|w: int| 0 <= w < k - 1 && #[trigger] prev[w] == x;
            assert(s.subrange(0, k)[w] == x);
        }
        if !texts.contains(s[k - 1].0) {
            let cur = kept_items(s, texts, k - 1).push(s[k - 1]);
            assert(cur[cur.len() - 1] == s[k - 1]);
            if kept_items(s, texts, k - 1).contains(x) {
                let w = choose|w: int| 0 <= w < kept_items(s, texts, k - 1).len()
                    && #[trigger] kept_items(s, texts, k - 1)[w] == x;
                assert(cur[w] == x);
            }
            if cur.contains(x) && x != s[k - 1] {
                let w = choose|w: int| 0 <= w < cur.len() && #[trigger] cur[w] == x;
                assert(kept_items(s, texts, k - 1)[w] == x);
            }
        }
        assert(s.subrange(0, k)[k - 1] == s[k - 1]);
    }
}

/// Stripping the typed texts keeps a suggestion exactly when it was
/// offered and its text was not typed.
pub proof fn law_strip_keeps_untyped(s: Seq<ItemView>, texts: Seq<Seq<char>>, x: ItemView)
    ensures
        without_texts(s, texts).contains(x) <==> s.contains(x) && !texts.contains(x.0),
{
    lemma_kept_items(s, texts, s.len() as int, x);
    assert(s.subrange(0, s.len() as int) =~= s);
}

} // verus!
