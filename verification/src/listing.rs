//! Listing pages, the objects on them, and the cursor that leads from one
//! page to the next.

use vstd::prelude::*;

verus! {

/// An object as a listing describes it. The store may leave out either field.
#[derive(Debug, PartialEq, Eq)]
pub struct Object {
    pub key: Option<String>,
    /// Size in bytes.
    pub size: Option<u64>,
}

/// What an [`Object`] holds.
pub struct ObjectView {
    pub key: Option<Seq<char>>,
    pub size: Option<u64>,
}

impl View for Object {
    type V = ObjectView;

    open spec fn view(&self) -> ObjectView {
        ObjectView { key: self.key.deep_view(), size: self.size }
    }
}

impl DeepView for Object {
    type V = ObjectView;

    open spec fn deep_view(&self) -> ObjectView {
        self.view()
    }
}

impl Clone for Object {
    fn clone(&self) -> (copy: Self)
        ensures
            copy@ == self@,
    {
        Object {
            key: match &self.key {
                Some(key) => Some(key.clone()),
                None => None,
            },
            size: self.size,
        }
    }
}

/// An object that a bulk operation works on: its key and its size in bytes.
#[derive(Debug, PartialEq, Eq)]
pub struct Item {
    pub key: String,
    pub size: u64,
}

/// What an [`Item`] holds.
pub struct ItemView {
    pub key: Seq<char>,
    pub size: u64,
}

impl View for Item {
    type V = ItemView;

    open spec fn view(&self) -> ItemView {
        ItemView { key: self.key@, size: self.size }
    }
}

impl DeepView for Item {
    type V = ItemView;

    open spec fn deep_view(&self) -> ItemView {
        self.view()
    }
}

impl Clone for Item {
    fn clone(&self) -> (copy: Self)
        ensures
            copy@ == self@,
    {
        Item { key: self.key.clone(), size: self.size }
    }
}

/// One response of the store to a listing request: the objects in the order
/// the store gave them, and the cursor to continue from, if more remain.
#[derive(Clone, Debug, PartialEq, Eq)]
pub struct Page {
    pub objects: Vec<Object>,
    pub next_continuation_token: Option<String>,
}

/// What a [`Page`] holds.
pub struct PageView {
    pub objects: Seq<ObjectView>,
    pub next_continuation_token: Option<Seq<char>>,
}

impl View for Page {
    type V = PageView;

    open spec fn view(&self) -> PageView {
        PageView {
            objects: self.objects.deep_view(),
            next_continuation_token: self.next_continuation_token.deep_view(),
        }
    }
}

impl DeepView for Page {
    type V = PageView;

    open spec fn deep_view(&self) -> PageView {
        self.view()
    }
}

/// The item of an object: its key and size where it has both, else nothing.
pub open spec fn item_of(object: ObjectView) -> Option<ItemView> {
    match (object.key, object.size) {
        (Some(key), Some(size)) => Some(ItemView { key, size }),
        _ => None,
    }
}

/// The items among `objects`, in their order.
pub open spec fn items_of(objects: Seq<ObjectView>) -> Seq<ItemView> {
    objects.filter_map(|object: ObjectView| item_of(object))
}

/// The objects of all `pages`, in their order.
pub open spec fn objects_of(pages: Seq<PageView>) -> Seq<ObjectView> {
    pages.flat_map(|page: PageView| page.objects)
}

/// The items of `objects` with one more object behind them.
pub proof fn lemma_items_of_push(objects: Seq<ObjectView>, object: ObjectView)
    ensures
        items_of(objects.push(object)) == match item_of(object) {
            Some(item) => items_of(objects).push(item),
            None => items_of(objects),
        },
{
    assert(objects.push(object).drop_last() =~= objects);
}

/// The objects of `pages` with one more page behind them.
pub proof fn lemma_objects_of_push(pages: Seq<PageView>, page: PageView)
    ensures
        objects_of(pages.push(page)) == objects_of(pages) + page.objects,
{
    pages.lemma_flat_map_push(|page: PageView| page.objects, page);
}

/// The items of two runs of objects, one behind the other.
pub proof fn lemma_items_of_add(front: Seq<ObjectView>, back: Seq<ObjectView>)
    ensures
        items_of(front + back) == items_of(front) + items_of(back),
    decreases back.len(),
{
    if back.len() == 0 {
        assert(front + back =~= front);
    } else {
        lemma_items_of_add(front, back.drop_last());
        lemma_items_of_push(front + back.drop_last(), back.last());
        lemma_items_of_push(back.drop_last(), back.last());
        assert((front + back.drop_last()).push(back.last()) =~= front + back);
        assert(back.drop_last().push(back.last()) =~= back);
    }
}

impl Object {
    /// The item of this object: `(key, size)` where it has both.
    pub fn item(&self) -> (item: Option<Item>)
        ensures
            item.deep_view() == item_of(self@),
    {
        match (&self.key, self.size) {
            (Some(key), Some(size)) => Some(Item { key: key.clone(), size }),
            _ => None,
        }
    }
}

impl Page {
    /// The items on this page, in the order of the listing. Objects that lack
    /// a key or a size are left out.
    pub fn items(&self) -> (items: Vec<Item>)
        ensures
            items.deep_view() == items_of(self@.objects),
    {
        let mut items: Vec<Item> = Vec::new();
        let mut i: usize = 0;
        while i < self.objects.len()
            invariant
                i <= self.objects.len(),
                items.deep_view() == items_of(self@.objects.take(i as int)),
            decreases self.objects.len() - i,
        {
            proof {
                lemma_items_of_push(self@.objects.take(i as int), self.objects[i as int]@);
                assert(self@.objects.take(i as int).push(self.objects[i as int]@)
                    =~= self@.objects.take(i + 1));
            }
            let ghost before = items.deep_view();
            if let Some(item) = self.objects[i].item() {
                items.push(item);
                assert(items.deep_view() =~= before.push(item@));
            }
            i += 1;
        }
        assert(self@.objects.take(i as int) =~= self@.objects);
        items
    }
}

/// Where a listing stands between two page fetches: the cursor that the last
/// page gave, and whether no page was fetched yet.
#[derive(Clone, Debug, PartialEq, Eq)]
pub struct Pager {
    cursor: Option<String>,
    first: bool,
}

/// What a [`Pager`] holds.
pub struct PagerView {
    pub cursor: Option<Seq<char>>,
    pub first: bool,
}

impl PagerView {
    /// Before the first fetch.
    pub open spec fn start() -> PagerView {
        PagerView { cursor: None, first: true }
    }

    /// No page is left to fetch: some page was fetched, and the last fetch
    /// gave no cursor.
    pub open spec fn exhausted(self) -> bool {
        self.cursor is None && !self.first
    }

    /// The state after a fetch that gave `cursor`; a fetch that failed gave
    /// none.
    pub open spec fn after(self, cursor: Option<Seq<char>>) -> PagerView {
        PagerView { cursor, first: false }
    }
}

/// The cursor that the store's answer to a fetch gives: that of the page, and
/// none where the fetch failed.
pub open spec fn cursor_of<E>(response: Result<Page, E>) -> Option<Seq<char>> {
    match response {
        Ok(page) => page@.next_continuation_token,
        Err(_) => None,
    }
}

impl View for Pager {
    type V = PagerView;

    closed spec fn view(&self) -> PagerView {
        PagerView { cursor: self.cursor.deep_view(), first: self.first }
    }
}

impl Pager {
    /// A listing of which no page was fetched yet.
    pub fn new() -> (pager: Pager)
        ensures
            pager@ == PagerView::start(),
    {
        Pager { cursor: None, first: true }
    }

    /// Whether no page is left to fetch.
    pub fn is_exhausted(&self) -> (done: bool)
        ensures
            done == self@.exhausted(),
    {
        self.cursor.is_none() && !self.first
    }

    /// The cursor to send with the next fetch.
    pub fn continuation_token(&self) -> (token: Option<String>)
        ensures
            token.deep_view() == self@.cursor,
    {
        match &self.cursor {
            Some(cursor) => Some(cursor.clone()),
            None => None,
        }
    }

    /// Takes in the store's answer to the fetch. A failed fetch ends the
    /// listing.
    pub fn advance<E>(&mut self, response: &Result<Page, E>)
        ensures
            final(self)@ == old(self)@.after(cursor_of(*response)),
    {
        self.first = false;
        self.cursor = match response {
            Ok(page) => match &page.next_continuation_token {
                Some(cursor) => Some(cursor.clone()),
                None => None,
            },
            Err(_) => None,
        };
    }
}

} // verus!
