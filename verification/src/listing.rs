//! The paging state of the bookmark and tag lists. The widgets perform the
//! requests; these states decide when a request is made, for which page, and
//! what the list holds once a page arrives.

use std::collections::HashMap;
use vstd::prelude::*;
use vstd::string::StrSliceExecFns;
use crate::api::{opt_view, BookmarkView, Page};
use crate::models::{display_title, title_text};

verus! {

broadcast use vstd::std_specs::hash::group_hash_axioms;

/// Which list a view is showing.
#[derive(Clone, Copy, Debug, PartialEq, Eq, Structural)]
pub enum Scope {
    Active,
    Archived,
}

/// A page request for a bookmark list.
#[derive(Clone, Debug)]
pub struct ListRequest {
    pub scope: Scope,
    pub query: Option<String>,
    pub offset: i32,
}

/// The bookmarks of `m` after adding `items` in order, a later item
/// replacing an earlier one with the same id.
pub open spec fn with_items(m: Map<i32, BookmarkView>, items: Seq<BookmarkView>) -> Map<
    i32,
    BookmarkView,
>
    decreases items.len(),
{
    if items.len() == 0 {
        m
    } else {
        with_items(m, items.drop_last()).insert(items.last().id, items.last())
    }
}

/// Law: after a page is merged, every bookmark of the page can be found by
/// its id.
pub proof fn law_page_merge_finds(m: Map<i32, BookmarkView>, items: Seq<BookmarkView>, k: int)
    requires
        0 <= k < items.len(),
    ensures
        with_items(m, items).contains_key(items[k].id),
    decreases items.len(),
{
    if k < items.len() - 1 {
        let d = items.drop_last();
        assert(items[k] == d[k]);
        law_page_merge_finds(m, d, k);
    }
}

/// Law: after a page is merged, a bookmark that no later bookmark of the
/// page replaces is what its id gives.
pub proof fn law_page_merge_last_wins(m: Map<i32, BookmarkView>, items: Seq<BookmarkView>, k: int)
    requires
        0 <= k < items.len(),
        forall|j: int| k < j < items.len() ==> #[trigger] items[j].id != items[k].id,
    ensures
        with_items(m, items)[items[k].id] == items[k],
    decreases items.len(),
{
    if k < items.len() - 1 {
        let d = items.drop_last();
        assert(items[k] == d[k]);
        assert(items[items.len() - 1].id != items[k].id);
        assert forall|j: int| k < j < d.len() implies #[trigger] d[j].id != d[k].id by {
            assert(d[j] == items[j]);
        }
        law_page_merge_last_wins(m, d, k);
    }
}

/// Law: merging a page leaves every id the page does not mention as it was.
pub proof fn law_page_merge_keeps_others(m: Map<i32, BookmarkView>, items: Seq<BookmarkView>, id: i32)
    requires
        forall|k: int| 0 <= k < items.len() ==> #[trigger] items[k].id != id,
    ensures
        with_items(m, items).contains_key(id) == m.contains_key(id),
        m.contains_key(id) ==> with_items(m, items)[id] == m[id],
    decreases items.len(),
{
    if items.len() > 0 {
        let d = items.drop_last();
        assert(items[items.len() - 1].id != id);
        assert forall|k: int| 0 <= k < d.len() implies #[trigger] d[k].id != id by {
            assert(d[k] == items[k]);
        }
        law_page_merge_keeps_others(m, d, id);
    }
}

/// The state of a bookmark list: its scope, the bookmarks loaded so far by
/// id, the search text, the paging position and whether a request is out.
pub struct ListState {
    scope: Scope,
    bookmarks: HashMap<i32, BookmarkView>,
    query: String,
    offset: i32,
    total: i32,
    loading: bool,
}

impl ListState {
    /// The list's scope.
    pub closed spec fn scope_of(&self) -> Scope {
        self.scope
    }

    /// The loaded bookmarks by id.
    pub closed spec fn loaded(&self) -> Map<i32, BookmarkView> {
        self.bookmarks@
    }

    /// The search text.
    pub closed spec fn query_text(&self) -> Seq<char> {
        self.query@
    }

    /// The offset of the page requested last.
    pub closed spec fn offset_of(&self) -> i32 {
        self.offset
    }

    /// The number of items the server counted last.
    pub closed spec fn total_of(&self) -> i32 {
        self.total
    }

    /// Whether a request is out.
    pub closed spec fn is_loading(&self) -> bool {
        self.loading
    }

    /// The request a load makes in the current state.
    pub open spec fn request_matches(&self, r: ListRequest) -> bool {
        &&& r.scope == self.scope_of()
        &&& r.offset == self.offset_of()
        &&& if self.query_text().len() == 0 {
            r.query is None
        } else {
            r.query matches Some(q) && q@ == self.query_text()
        }
    }

    /// An empty list of `scope`, with no search and nothing loaded.
    pub fn new(scope: Scope) -> (s: ListState)
        ensures
            s.scope_of() == scope,
            s.loaded() == Map::<i32, BookmarkView>::empty(),
            s.query_text() == Seq::<char>::empty(),
            s.offset_of() == 0,
            s.total_of() == 0,
            !s.is_loading(),
    {
        ListState {
            scope,
            bookmarks: HashMap::new(),
            query: String::new(),
            offset: 0,
            total: 0,
            loading: false,
        }
    }

    /// Starts a load unless one is already out: the request to make, or
    /// `None` when the list is busy.
    fn begin_load(&mut self) -> (r: Option<ListRequest>)
        ensures
            final(self).scope_of() == old(self).scope_of(),
            final(self).loaded() == old(self).loaded(),
            final(self).query_text() == old(self).query_text(),
            final(self).offset_of() == old(self).offset_of(),
            final(self).total_of() == old(self).total_of(),
            final(self).is_loading(),
            old(self).is_loading() <==> r is None,
            r matches Some(req) ==> old(self).request_matches(req),
    {
        if self.loading {
            return None;
        }
        self.loading = true;
        let query = if self.query.as_str().unicode_len() == 0 {
            None
        } else {
            Some(self.query.clone())
        };
        Some(ListRequest { scope: self.scope, query, offset: self.offset })
    }

    /// Reload from the first page: forgets the loaded bookmarks and asks for
    /// the first page (unless a request is already out).
    pub fn refresh(&mut self) -> (r: Option<ListRequest>)
        ensures
            final(self).scope_of() == old(self).scope_of(),
            final(self).loaded() == Map::<i32, BookmarkView>::empty(),
            final(self).query_text() == old(self).query_text(),
            final(self).offset_of() == 0,
            final(self).total_of() == old(self).total_of(),
            final(self).is_loading(),
            old(self).is_loading() <==> r is None,
            r matches Some(req) ==> final(self).request_matches(req),
            r matches Some(req) ==> req.scope == old(self).scope_of() && req.offset
                == final(self).offset_of(),
            r matches Some(req) ==> (final(self).query_text().len() > 0 ==> opt_view(req.query) == Some(
                final(self).query_text(),
            )),
            r matches Some(req) ==> (final(self).query_text().len() == 0 ==> req.query is None),
            r matches Some(req) ==> req.offset == 0,
    {
        self.offset = 0;
        self.bookmarks.clear();
        self.begin_load()
    }

    /// Search for `text`: the new search replaces the old one and the list
    /// reloads from the first page.
    pub fn search(&mut self, text: String) -> (r: Option<ListRequest>)
        ensures
            final(self).scope_of() == old(self).scope_of(),
            final(self).loaded() == Map::<i32, BookmarkView>::empty(),
            final(self).query_text() == text@,
            final(self).offset_of() == 0,
            final(self).total_of() == old(self).total_of(),
            final(self).is_loading(),
            old(self).is_loading() <==> r is None,
            r matches Some(req) ==> final(self).request_matches(req),
            r matches Some(req) ==> req.scope == old(self).scope_of() && req.offset
                == final(self).offset_of(),
            r matches Some(req) ==> (final(self).query_text().len() > 0 ==> opt_view(req.query) == Some(
                final(self).query_text(),
            )),
            r matches Some(req) ==> (final(self).query_text().len() == 0 ==> req.query is None),
            r matches Some(req) ==> req.offset == 0 && (text@.len() > 0 ==> opt_view(req.query) == Some(
                text@,
            )),
    {
        self.query = text;
        self.refresh()
    }

    /// Whether every page has been fetched: as many bookmarks loaded as the
    /// server counts, once it has counted any.
    pub open spec fn all_loaded(&self) -> bool {
        (self.loaded().len() as i32) >= self.total_of() && self.total_of() > 0
    }

    /// Ask for the next page after the loaded bookmarks, unless a request is
    /// out or everything is loaded.
    pub fn load_more(&mut self) -> (r: Option<ListRequest>)
        ensures
            final(self).scope_of() == old(self).scope_of(),
            final(self).loaded() == old(self).loaded(),
            final(self).query_text() == old(self).query_text(),
            final(self).total_of() == old(self).total_of(),
            r is None <==> (old(self).is_loading() || old(self).all_loaded()),
            r is None ==> *final(self) == *old(self),
            r is Some ==> final(self).offset_of() == old(self).loaded().len() as i32
                && final(self).is_loading(),
            r matches Some(req) ==> final(self).request_matches(req),
            r matches Some(req) ==> req.scope == old(self).scope_of() && req.offset
                == final(self).offset_of(),
            r matches Some(req) ==> (final(self).query_text().len() > 0 ==> opt_view(req.query) == Some(
                final(self).query_text(),
            )),
            r matches Some(req) ==> (final(self).query_text().len() == 0 ==> req.query is None),
            r matches Some(req) ==> req.offset == old(self).loaded().len() as i32 && (old(
                self,
            ).query_text().len() > 0 ==> opt_view(req.query) == Some(old(self).query_text())),
    {
        if self.loading {
            return None;
        }
        let loaded = self.bookmarks.len() as i32;
        if loaded >= self.total && self.total > 0 {
            return None;
        }
        self.offset = loaded;
        self.begin_load()
    }

    /// A page arrived: the list is no longer busy, the server's count is
    /// taken, and the page's bookmarks are added by id.
    pub fn page_loaded(&mut self, page: Page)
        ensures
            final(self).scope_of() == old(self).scope_of(),
            final(self).loaded() == with_items(old(self).loaded(), page.items@),
            final(self).query_text() == old(self).query_text(),
            final(self).offset_of() == old(self).offset_of(),
            final(self).total_of() == page.total,
            !final(self).is_loading(),
    {
        self.loading = false;
        self.total = page.total;
        let ghost start = self.bookmarks@;
        let ghost items = page.items@;
        for b in it: page.items.into_iter()
            invariant
                it.seq() == items,
                self.bookmarks@ == with_items(start, items.subrange(0, it.index() as int)),
                self.scope == old(self).scope,
                self.query == old(self).query,
                self.offset == old(self).offset,
                self.total == page.total,
                !self.loading,
        {
            let ghost i = it.index();
            let ghost sub = items.subrange(0, i + 1);
            assert(b == items[i as int]);
            assert(sub.drop_last() =~= items.subrange(0, i as int));
            assert(sub.last() == b);
            self.bookmarks.insert(b.id, b);
        }
        assert(items.subrange(0, items.len() as int) =~= items);
    }

    /// A request failed: the list is no longer busy and keeps what it holds.
    pub fn load_failed(&mut self)
        ensures
            final(self).scope_of() == old(self).scope_of(),
            final(self).loaded() == old(self).loaded(),
            final(self).query_text() == old(self).query_text(),
            final(self).offset_of() == old(self).offset_of(),
            final(self).total_of() == old(self).total_of(),
            !final(self).is_loading(),
    {
        self.loading = false;
    }

    /// The loaded bookmark with this id, if any.
    pub fn get(&self, id: i32) -> (r: Option<&BookmarkView>)
        ensures
            r matches Some(b) ==> self.loaded().contains_key(id) && *b == self.loaded()[id],
            r is None ==> !self.loaded().contains_key(id),
    {
        self.bookmarks.get(&id)
    }

    /// The title quoted when confirming a delete: the bookmark's display
    /// title, or empty when it is not loaded.
    pub fn delete_title(&self, id: i32) -> (r: String)
        ensures
            self.loaded().contains_key(id) ==> r@ == title_text(self.loaded()[id]),
            !self.loaded().contains_key(id) ==> r@ == Seq::<char>::empty(),
    {
        match self.bookmarks.get(&id) {
            Some(b) => display_title(b),
            None => String::new(),
        }
    }
}


/// The placeholder text of an empty list.
pub open spec fn empty_description_text(scope: Scope) -> Seq<char> {
    match scope {
        Scope::Active => "Add one with the + button, or adjust your search."@,
        Scope::Archived => "Nothing archived yet."@,
    }
}

/// The description shown when a list has no bookmarks.
pub fn empty_description(scope: Scope) -> (r: &'static str)
    ensures
        r@ == empty_description_text(scope),
{
    match scope {
        Scope::Active => "Add one with the + button, or adjust your search.",
        Scope::Archived => "Nothing archived yet.",
    }
}

/// The toast after the archive action succeeded: the archived list
/// unarchives, the others archive.
pub open spec fn archive_done_text(scope: Scope) -> Seq<char> {
    match scope {
        Scope::Archived => "Unarchived"@,
        Scope::Active => "Archived"@,
    }
}

/// The confirmation toast of the archive action in a list of `scope`.
pub fn archive_done_message(scope: Scope) -> (r: &'static str)
    ensures
        r@ == archive_done_text(scope),
{
    match scope {
        Scope::Archived => "Unarchived",
        Scope::Active => "Archived",
    }
}

/// The state of the tag list: how many tags are loaded, the server's count,
/// the paging position and whether a request is out.
pub struct TagListState {
    offset: i32,
    total: i32,
    loaded: i32,
    loading: bool,
}

impl TagListState {
    /// The loaded count never goes below zero.
    #[verifier::type_invariant]
    spec fn wf(self) -> bool {
        self.loaded >= 0
    }

    /// The offset of the page requested last.
    pub closed spec fn offset_of(&self) -> i32 {
        self.offset
    }

    /// The number of items the server counted last.
    pub closed spec fn total_of(&self) -> i32 {
        self.total
    }

    /// The number of tags loaded so far.
    pub closed spec fn loaded_of(&self) -> i32 {
        self.loaded
    }

    /// Whether a request is out.
    pub closed spec fn is_loading(&self) -> bool {
        self.loading
    }

    /// An empty tag list.
    pub fn new() -> (s: TagListState)
        ensures
            s.offset_of() == 0,
            s.total_of() == 0,
            s.loaded_of() == 0,
            !s.is_loading(),
    {
        TagListState { offset: 0, total: 0, loaded: 0, loading: false }
    }

    /// Starts a load unless one is out; the offset to request.
    fn begin_load(&mut self) -> (r: Option<i32>)
        ensures
            final(self).offset_of() == old(self).offset_of(),
            final(self).total_of() == old(self).total_of(),
            final(self).loaded_of() == old(self).loaded_of(),
            final(self).is_loading(),
            old(self).is_loading() <==> r is None,
            r matches Some(o) ==> o == old(self).offset_of(),
    {
        proof {
            use_type_invariant(&*self);
        }
        if self.loading {
            return None;
        }
        self.loading = true;
        Some(self.offset)
    }

    /// Reload from the first page: forgets what was loaded and asks for the
    /// first page (unless a request is already out).
    pub fn refresh(&mut self) -> (r: Option<i32>)
        ensures
            final(self).offset_of() == 0,
            final(self).total_of() == 0,
            final(self).loaded_of() == 0,
            final(self).is_loading(),
            old(self).is_loading() <==> r is None,
            r matches Some(o) ==> o == 0,
    {
        proof {
            use_type_invariant(&*self);
        }
        self.offset = 0;
        self.loaded = 0;
        self.total = 0;
        self.begin_load()
    }

    /// Ask for the next page after the loaded tags, unless a request is out
    /// or everything is loaded.
    pub fn load_more(&mut self) -> (r: Option<i32>)
        ensures
            final(self).total_of() == old(self).total_of(),
            final(self).loaded_of() == old(self).loaded_of(),
            r is None <==> (old(self).is_loading() || (old(self).loaded_of() >= old(
                self,
            ).total_of() && old(self).total_of() > 0)),
            r is None ==> *final(self) == *old(self),
            r matches Some(o) ==> o == old(self).loaded_of() && final(self).offset_of() == o
                && final(self).is_loading(),
    {
        proof {
            use_type_invariant(&*self);
        }
        if self.loading {
            return None;
        }
        if self.loaded >= self.total && self.total > 0 {
            return None;
        }
        self.offset = self.loaded;
        self.begin_load()
    }

    /// A page of `count` tags arrived, the server counting `total`.
    pub fn page_loaded(&mut self, total: i32, count: usize)
        requires
            old(self).loaded_of() + count <= i32::MAX,
        ensures
            final(self).offset_of() == old(self).offset_of(),
            final(self).total_of() == total,
            final(self).loaded_of() == old(self).loaded_of() + count,
            !final(self).is_loading(),
    {
        proof {
            use_type_invariant(&*self);
        }
        self.loading = false;
        self.total = total;
        self.loaded = self.loaded + count as i32;
    }

    /// A request failed: the list is no longer busy.
    pub fn load_failed(&mut self)
        ensures
            final(self).offset_of() == old(self).offset_of(),
            final(self).total_of() == old(self).total_of(),
            final(self).loaded_of() == old(self).loaded_of(),
            !final(self).is_loading(),
    {
        proof {
            use_type_invariant(&*self);
        }
        self.loading = false;
    }

    /// Whether a page of `count` more tags can be counted without the count
    /// overflowing.
    pub fn can_count(&self, count: usize) -> (r: bool)
        ensures
            r == (self.loaded_of() + count <= i32::MAX),
    {
        proof {
            use_type_invariant(self);
        }
        count <= (i32::MAX - self.loaded) as usize
    }
}

} // verus!
