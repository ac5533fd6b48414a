//! A listing of a bucket, and deleting, copying and moving what it lists.
//!
//! Nothing here talks to the store. A [`ListObjects`] hands out the request
//! for the next page and takes in what the store answered, page by page,
//! until the store gives no cursor. What it has taken in can be flattened
//! into objects, turned into the batches that delete them, or into the
//! transfers that copy or move them.

use crate::config::Config;
use crate::error::Error;
use crate::listing::{
    cursor_of, items_of, lemma_items_of_add, lemma_objects_of_push, objects_of, Item, ItemView,
    Object, ObjectView, Page, PageView, Pager, PagerView,
};
use crate::timeout::TimeoutState;
use crate::transfer::{maps_to, source_path, Stage, Transfer, TransferView};
use vstd::prelude::*;

verus! {

/// A request for one page of a listing.
#[derive(Debug, PartialEq, Eq)]
pub struct ListRequest {
    pub bucket: String,
    /// Only keys that begin with the prefix are listed.
    pub prefix: Option<String>,
    /// The cursor that the page before gave.
    pub continuation_token: Option<String>,
}

/// What a [`ListRequest`] holds.
pub struct ListRequestView {
    pub bucket: Seq<char>,
    pub prefix: Option<Seq<char>>,
    pub continuation_token: Option<Seq<char>>,
}

impl View for ListRequest {
    type V = ListRequestView;

    open spec fn view(&self) -> ListRequestView {
        ListRequestView {
            bucket: self.bucket@,
            prefix: self.prefix.deep_view(),
            continuation_token: self.continuation_token.deep_view(),
        }
    }
}

impl DeepView for ListRequest {
    type V = ListRequestView;

    open spec fn deep_view(&self) -> ListRequestView {
        self.view()
    }
}

/// A copy of an optional string.
fn clone_option(text: &Option<String>) -> (copy: Option<String>)
    ensures
        copy.deep_view() == text.deep_view(),
{
    match text {
        Some(text) => Some(text.clone()),
        None => None,
    }
}

impl Clone for ListRequest {
    fn clone(&self) -> (copy: Self)
        ensures
            copy@ == self@,
    {
        ListRequest {
            bucket: self.bucket.clone(),
            prefix: clone_option(&self.prefix),
            continuation_token: clone_option(&self.continuation_token),
        }
    }
}

/// A request to delete several objects of one bucket at once.
#[derive(Clone, Debug, PartialEq, Eq)]
pub struct DeleteBatch {
    pub bucket: String,
    pub keys: Vec<String>,
}

/// What a [`DeleteBatch`] holds.
pub struct DeleteBatchView {
    pub bucket: Seq<char>,
    pub keys: Seq<Seq<char>>,
}

impl View for DeleteBatch {
    type V = DeleteBatchView;

    open spec fn view(&self) -> DeleteBatchView {
        DeleteBatchView { bucket: self.bucket@, keys: self.keys.deep_view() }
    }
}

impl DeepView for DeleteBatch {
    type V = DeleteBatchView;

    open spec fn deep_view(&self) -> DeleteBatchView {
        self.view()
    }
}

/// The keys of `items`, in their order.
pub open spec fn keys_of(items: Seq<ItemView>) -> Seq<Seq<char>> {
    items.map_values(|item: ItemView| item.key)
}

/// The batch that deletes the items of `page` from `bucket`. A page without
/// items needs none.
pub open spec fn batch_of(bucket: Seq<char>, page: PageView) -> Option<DeleteBatchView> {
    let items = items_of(page.objects);
    if items.len() == 0 {
        None
    } else {
        Some(DeleteBatchView { bucket, keys: keys_of(items) })
    }
}

/// The batches that delete the items of `pages` from `bucket`: one for each
/// page that has items, in the order of the pages.
pub open spec fn batches_of(bucket: Seq<char>, pages: Seq<PageView>) -> Seq<DeleteBatchView> {
    pages.filter_map(|page: PageView| batch_of(bucket, page))
}

/// The batches of `pages` with one more page behind them.
pub proof fn lemma_batches_of_push(bucket: Seq<char>, pages: Seq<PageView>, page: PageView)
    ensures
        batches_of(bucket, pages.push(page)) == match batch_of(bucket, page) {
            Some(batch) => batches_of(bucket, pages).push(batch),
            None => batches_of(bucket, pages),
        },
{
    assert(pages.push(page).drop_last() =~= pages);
}

/// Deleting a listing that holds no item takes no request.
pub proof fn lemma_nothing_to_delete(bucket: Seq<char>, pages: Seq<PageView>)
    requires
        items_of(objects_of(pages)).len() == 0,
    ensures
        batches_of(bucket, pages).len() == 0,
    decreases pages.len(),
{
    if pages.len() > 0 {
        let front = pages.drop_last();
        assert(front.push(pages.last()) =~= pages);
        lemma_objects_of_push(front, pages.last());
        lemma_items_of_add(objects_of(front), pages.last().objects);
        lemma_batches_of_push(bucket, front, pages.last());
        lemma_nothing_to_delete(bucket, front);
    }
}

/// Deleting a listing takes as many requests as it has pages with items, and
/// no more than it has pages; each batch deletes from `bucket` and is not
/// empty.
pub proof fn lemma_batches_bounds(bucket: Seq<char>, pages: Seq<PageView>)
    ensures
        batches_of(bucket, pages).len() <= pages.len(),
        (forall|i: int| 0 <= i < pages.len() ==> items_of(#[trigger] pages[i].objects).len() > 0)
            ==> batches_of(bucket, pages).len() == pages.len(),
        forall|i: int|
            0 <= i < batches_of(bucket, pages).len() ==> {
                &&& (#[trigger] batches_of(bucket, pages)[i]).bucket == bucket
                &&& batches_of(bucket, pages)[i].keys.len() > 0
            },
    decreases pages.len(),
{
    if pages.len() > 0 {
        let front = pages.drop_last();
        assert(front.push(pages.last()) =~= pages);
        lemma_batches_of_push(bucket, front, pages.last());
        lemma_batches_bounds(bucket, front);
    }
}

/// The keys that `batches` delete, in the order of the batches.
pub open spec fn deleted_by(batches: Seq<DeleteBatchView>) -> Seq<Seq<char>> {
    batches.map_values(|batch: DeleteBatchView| batch.keys).flatten()
}

/// The batches of a listing delete each item of the listing once, in the
/// order of the listing, and nothing else.
pub proof fn lemma_batches_delete_items(bucket: Seq<char>, pages: Seq<PageView>)
    ensures
        deleted_by(batches_of(bucket, pages)) == keys_of(items_of(objects_of(pages))),
    decreases pages.len(),
{
    if pages.len() == 0 {
        assert(objects_of(pages) =~= Seq::<ObjectView>::empty());
        assert(deleted_by(batches_of(bucket, pages)) =~= Seq::<Seq<char>>::empty());
        assert(keys_of(items_of(objects_of(pages))) =~= Seq::<Seq<char>>::empty());
    } else {
        let front = pages.drop_last();
        let last = pages.last();
        assert(front.push(last) =~= pages);
        lemma_batches_delete_items(bucket, front);
        lemma_batches_of_push(bucket, front, last);
        lemma_objects_of_push(front, last);
        lemma_items_of_add(objects_of(front), last.objects);
        let listed = items_of(objects_of(front));
        let added = items_of(last.objects);
        assert(keys_of(listed + added) =~= keys_of(listed) + keys_of(added));
        match batch_of(bucket, last) {
            Some(batch) => {
                let batches = batches_of(bucket, front);
                let keys = batches.map_values(|batch: DeleteBatchView| batch.keys);
                assert(batches.push(batch).map_values(|batch: DeleteBatchView| batch.keys)
                    =~= keys.push(batch.keys));
                keys.lemma_flatten_push(batch.keys);
            },
            None => {
                assert(listed + added =~= listed);
            },
        }
    }
}

/// The batch that deletes the items of `page` from `bucket`, or none where
/// the page has no item.
pub fn delete_batch(bucket: &str, page: &Page) -> (batch: Option<DeleteBatch>)
    ensures
        batch.deep_view() == batch_of(bucket@, page@),
{
    let items = page.items();
    if items.len() == 0 {
        return None;
    }
    let mut keys: Vec<String> = Vec::new();
    let mut i: usize = 0;
    while i < items.len()
        invariant
            i <= items.len(),
            keys.deep_view() == keys_of(items.deep_view().take(i as int)),
        decreases items.len() - i,
    {
        let ghost before = keys.deep_view();
        keys.push(items[i].key.clone());
        assert(keys.deep_view() =~= before.push(items[i as int]@.key));
        assert(keys_of(items.deep_view().take(i + 1)) =~= keys_of(
            items.deep_view().take(i as int),
        ).push(items[i as int]@.key));
        i += 1;
    }
    assert(items.deep_view().take(i as int) =~= items.deep_view());
    Some(DeleteBatch { bucket: bucket.to_owned(), keys })
}

/// Whether `transfer` is the transfer of `item` from `bucket` to
/// `dest_bucket` of which the copy is due, under a key that `mapping` may
/// give.
pub open spec fn transfer_of<F: Fn(&str) -> String>(
    bucket: Seq<char>,
    dest_bucket: Seq<char>,
    mapping: F,
    moving: bool,
    item: ItemView,
    transfer: TransferView,
) -> bool {
    &&& transfer.item == item
    &&& transfer.request.copy_source == source_path(bucket, item.key)
    &&& transfer.request.bucket == dest_bucket
    &&& maps_to(mapping, item.key, transfer.request.key)
    &&& transfer.src_bucket == bucket
    &&& transfer.moving == moving
    &&& transfer.stage == Stage::Copy
}

/// Whether `transfers` are the transfers of `items`, one each and in their
/// order.
pub open spec fn transfers_of<F: Fn(&str) -> String>(
    bucket: Seq<char>,
    dest_bucket: Seq<char>,
    mapping: F,
    moving: bool,
    items: Seq<ItemView>,
    transfers: Seq<Transfer>,
) -> bool {
    &&& transfers.len() == items.len()
    &&& forall|i: int|
        0 <= i < items.len() ==> transfer_of(
            bucket,
            dest_bucket,
            mapping,
            moving,
            items[i],
            (#[trigger] transfers[i])@,
        )
}

/// Whether `mapping` may be called on the key of each of `items`.
pub open spec fn accepts_keys<F: Fn(&str) -> String>(mapping: F, items: Seq<ItemView>) -> bool {
    forall|i: int, k: &str|
        0 <= i < items.len() && k@ == (#[trigger] items[i]).key ==> #[trigger] call_requires(
            mapping,
            (k,),
        )
}

/// The bucket that copies go to: the one named, or else the bucket of the
/// listing.
pub open spec fn destination(bucket: Seq<char>, dest_bucket: Option<String>) -> Seq<char> {
    match dest_bucket {
        Some(dest) => dest@,
        None => bucket,
    }
}

/// The bucket that copies go to: the one named, or else the bucket of the
/// listing.
pub fn destination_bucket(bucket: &str, dest_bucket: Option<String>) -> (dest: String)
    ensures
        dest@ == destination(bucket@, dest_bucket),
{
    match dest_bucket {
        Some(dest) => dest,
        None => bucket.to_owned(),
    }
}

/// The transfers of `items` from `bucket`, one each and in their order.
pub fn transfers<F: Fn(&str) -> String>(
    bucket: &str,
    dest_bucket: &str,
    mapping: &F,
    moving: bool,
    items: &Vec<Item>,
) -> (transfers: Vec<Transfer>)
    requires
        accepts_keys(*mapping, items.deep_view()),
    ensures
        transfers_of(bucket@, dest_bucket@, *mapping, moving, items.deep_view(), transfers@),
{
    let mut transfers: Vec<Transfer> = Vec::new();
    let mut i: usize = 0;
    while i < items.len()
        invariant
            i <= items.len(),
            accepts_keys(*mapping, items.deep_view()),
            transfers_of(
                bucket@,
                dest_bucket@,
                *mapping,
                moving,
                items.deep_view().take(i as int),
                transfers@,
            ),
        decreases items.len() - i,
    {
        assert(items.deep_view()[i as int] == items[i as int]@);
        let transfer = Transfer::new(bucket, dest_bucket, &items[i], mapping, moving);
        transfers.push(transfer);
        i += 1;
    }
    assert(items.deep_view().take(i as int) =~= items.deep_view());
    transfers
}

/// A listing of a bucket: the pages fetched so far, and where to go on.
#[derive(Debug, PartialEq, Eq)]
pub struct ListObjects {
    copy_parallelization: usize,
    /// The speed estimate as a run starts with it. It is never updated here.
    speed: TimeoutState,
    bucket: String,
    request: ListRequest,
    pager: Pager,
    pages: Vec<Page>,
}

/// What a [`ListObjects`] holds.
pub struct ListObjectsView {
    pub config: Config,
    /// The bucket that is listed, and that deletions and copies read from.
    pub bucket: Seq<char>,
    /// The request for a page, but for the cursor.
    pub request: ListRequestView,
    pub pager: PagerView,
    /// The pages fetched so far, in their order.
    pub pages: Seq<PageView>,
}

impl ListObjectsView {
    /// The listing before its first page.
    pub open spec fn fresh(self) -> bool {
        self.pager == PagerView::start() && self.pages.len() == 0
    }

    /// The request for the next page: the listing's request with the cursor
    /// of the page before. None once the listing is at its end.
    pub open spec fn next_request(self) -> Option<ListRequestView> {
        if self.pager.exhausted() {
            None
        } else {
            Some(ListRequestView { continuation_token: self.pager.cursor, ..self.request })
        }
    }

    /// The listing after the store's answer to the request for the next
    /// page. A page joins the pages and its cursor leads on; an error ends
    /// the listing. A listing at its end takes nothing in.
    pub open spec fn received<E>(self, response: Result<Page, E>) -> ListObjectsView {
        if self.pager.exhausted() {
            self
        } else {
            ListObjectsView {
                pager: self.pager.after(cursor_of(response)),
                pages: match response {
                    Ok(page) => self.pages.push(page@),
                    Err(_) => self.pages,
                },
                ..self
            }
        }
    }

    /// The listing after the answers `responses`, one after the other.
    pub open spec fn received_all<E>(self, responses: Seq<Result<Page, E>>) -> ListObjectsView
        decreases responses.len(),
    {
        if responses.len() == 0 {
            self
        } else {
            self.received_all(responses.drop_last()).received(responses.last())
        }
    }
}

/// A listing at its end stays as it is, whatever comes in.
pub proof fn lemma_listing_stays_ended<E>(listing: ListObjectsView, responses: Seq<Result<Page, E>>)
    requires
        listing.pager.exhausted(),
    ensures
        listing.received_all(responses) == listing,
    decreases responses.len(),
{
    if responses.len() > 0 {
        lemma_listing_stays_ended(listing, responses.drop_last());
    }
}

/// Taking in two runs of answers, one behind the other.
pub proof fn lemma_received_all_add<E>(
    listing: ListObjectsView,
    front: Seq<Result<Page, E>>,
    back: Seq<Result<Page, E>>,
)
    ensures
        listing.received_all(front + back) == listing.received_all(front).received_all(back),
    decreases back.len(),
{
    if back.len() == 0 {
        assert(front + back =~= front);
    } else {
        lemma_received_all_add(listing, front, back.drop_last());
        assert((front + back).drop_last() =~= front + back.drop_last());
    }
}

/// The page of an answer that is one.
pub open spec fn page_of<E>(response: Result<Page, E>) -> PageView {
    match response {
        Ok(page) => page@,
        Err(_) => arbitrary(),
    }
}

/// Whether the first `n` of `responses` are pages of which each but the last
/// gives a cursor, and the last gives none.
pub open spec fn complete_listing<E>(responses: Seq<Result<Page, E>>, n: int) -> bool {
    &&& 1 <= n <= responses.len()
    &&& forall|i: int| 0 <= i < n ==> (#[trigger] responses[i]) is Ok
    &&& forall|i: int| 0 <= i < n - 1 ==> cursor_of(#[trigger] responses[i]) is Some
    &&& cursor_of(responses[n - 1]) is None
}

/// While the pages give cursors, the listing goes on: after `i` of the pages
/// of a complete listing, it holds those pages, and it stands at the cursor
/// of the last of them.
proof fn lemma_listing_prefix<E>(
    listing: ListObjectsView,
    responses: Seq<Result<Page, E>>,
    n: int,
    i: int,
)
    requires
        listing.fresh(),
        complete_listing(responses, n),
        0 <= i <= n,
    ensures
        listing.received_all(responses.take(i)) == (ListObjectsView {
            pager: if i == 0 {
                PagerView::start()
            } else {
                PagerView { cursor: cursor_of(responses[i - 1]), first: false }
            },
            pages: Seq::new(i as nat, |j: int| page_of(responses[j])),
            ..listing
        }),
    decreases i,
{
    let pages = Seq::new(i as nat, |j: int| page_of(responses[j]));
    if i == 0 {
        assert(pages =~= listing.pages);
    } else {
        lemma_listing_prefix(listing, responses, n, i - 1);
        assert(responses.take(i).drop_last() =~= responses.take(i - 1));
        assert(responses.take(i).last() == responses[i - 1]);
        if i >= 2 {
            assert(cursor_of(responses[i - 2]) is Some);
        }
        assert(Seq::new((i - 1) as nat, |j: int| page_of(responses[j])).push(
            page_of(responses[i - 1]),
        ) =~= pages);
    }
}

/// A listing whose pages give cursors up to the last, which gives none,
/// yields exactly those pages, in their order, and then ends: whatever the
/// store would answer after the last page is not taken in. The request for
/// the first page carries no cursor, and the request for each later page
/// carries the cursor of the page before it.
pub proof fn lemma_listing_follows_cursors<E>(
    listing: ListObjectsView,
    responses: Seq<Result<Page, E>>,
    n: int,
)
    requires
        listing.fresh(),
        complete_listing(responses, n),
    ensures
        listing.received_all(responses).pages == Seq::new(
            n as nat,
            |j: int| page_of(responses[j]),
        ),
        listing.received_all(responses).next_request() is None,
        forall|i: int|
            0 <= i < n ==> (#[trigger] listing.received_all(responses.take(i))).next_request()
                == Some(
                ListRequestView {
                    continuation_token: if i == 0 {
                        None
                    } else {
                        cursor_of(responses[i - 1])
                    },
                    ..listing.request
                },
            ),
{
    lemma_listing_prefix(listing, responses, n, n);
    assert(responses =~= responses.take(n) + responses.skip(n));
    lemma_received_all_add(listing, responses.take(n), responses.skip(n));
    lemma_listing_stays_ended(listing.received_all(responses.take(n)), responses.skip(n));
    assert forall|i: int| 0 <= i < n implies (#[trigger] listing.received_all(
        responses.take(i),
    )).next_request() == Some(
        ListRequestView {
            continuation_token: if i == 0 {
                None
            } else {
                cursor_of(responses[i - 1])
            },
            ..listing.request
        },
    ) by {
        lemma_listing_prefix(listing, responses, n, i);
        if i >= 1 {
            assert(cursor_of(responses[i - 1]) is Some);
        }
    }
}

impl View for ListObjects {
    type V = ListObjectsView;

    closed spec fn view(&self) -> ListObjectsView {
        ListObjectsView {
            config: Config {
                copy_parallelization: self.copy_parallelization,
                request: self.speed.config(),
            },
            bucket: self.bucket@,
            request: self.request@,
            pager: self.pager@,
            pages: self.pages.deep_view(),
        }
    }
}

impl ListObjects {
    /// The bucket that is listed.
    pub fn bucket(&self) -> (bucket: &String)
        ensures
            bucket@ == self@.bucket,
    {
        &self.bucket
    }

    /// The parameters of the run.
    pub fn config(&self) -> (config: Config)
        ensures
            config == self@.config,
            config.request.valid(),
    {
        Config {
            copy_parallelization: self.copy_parallelization,
            request: self.speed.get_config(),
        }
    }

    /// The pages fetched so far.
    pub fn pages(&self) -> (pages: &Vec<Page>)
        ensures
            pages.deep_view() == self@.pages,
    {
        &self.pages
    }

    /// The request for the next page, or none when the listing is at its
    /// end.
    pub fn next_request(&self) -> (request: Option<ListRequest>)
        ensures
            request.deep_view() == self@.next_request(),
    {
        if self.pager.is_exhausted() {
            None
        } else {
            Some(
                ListRequest {
                    bucket: self.request.bucket.clone(),
                    prefix: clone_option(&self.request.prefix),
                    continuation_token: self.pager.continuation_token(),
                },
            )
        }
    }

    /// Takes in the store's answer to the request for the next page. The
    /// error of a fetch that failed comes back as the error of the listing.
    pub fn receive<E>(&mut self, response: Result<Page, E>) -> (result: Result<(), Error<E>>)
        ensures
            final(self)@ == old(self)@.received(response),
            match response {
                Err(cause) if !old(self)@.pager.exhausted() => result == Err::<(), Error<E>>(
                    Error::Listing { cause },
                ),
                _ => result is Ok,
            },
    {
        if self.pager.is_exhausted() {
            return Ok(());
        }
        self.pager.advance(&response);
        match response {
            Ok(page) => {
                let ghost before = self.pages.deep_view();
                self.pages.push(page);
                assert(self.pages.deep_view() =~= before.push(page@));
                Ok(())
            },
            Err(cause) => Err(Error::Listing { cause }),
        }
    }

    /// The objects of the pages fetched so far, in the order of the listing.
    pub fn flatten(&self) -> (objects: Vec<Object>)
        ensures
            objects.deep_view() == objects_of(self@.pages),
    {
        let mut objects: Vec<Object> = Vec::new();
        let mut i: usize = 0;
        assert(self@.pages.take(0) =~= Seq::<PageView>::empty());
        assert(objects.deep_view() =~= objects_of(self@.pages.take(0)));
        while i < self.pages.len()
            invariant
                i <= self.pages.len(),
                objects.deep_view() == objects_of(self@.pages.take(i as int)),
            decreases self.pages.len() - i,
        {
            let page = &self.pages[i];
            let ghost before = objects.deep_view();
            let mut j: usize = 0;
            while j < page.objects.len()
                invariant
                    j <= page.objects.len(),
                    objects.deep_view() == before + page@.objects.take(j as int),
                decreases page.objects.len() - j,
            {
                let ghost so_far = objects.deep_view();
                objects.push(page.objects[j].clone());
                assert(objects.deep_view() =~= so_far.push(page.objects[j as int]@));
                assert(page@.objects.take(j + 1) =~= page@.objects.take(j as int).push(
                    page.objects[j as int]@,
                ));
                j += 1;
            }
            proof {
                assert(page@.objects.take(j as int) =~= page@.objects);
                lemma_objects_of_push(self@.pages.take(i as int), page@);
                assert(self@.pages.take(i as int).push(page@) =~= self@.pages.take(i + 1));
            }
            i += 1;
        }
        assert(self@.pages.take(i as int) =~= self@.pages);
        objects
    }

    /// The items of the pages fetched so far, in the order of the listing.
    /// Objects that lack a key or a size are left out.
    pub fn items(&self) -> (items: Vec<Item>)
        ensures
            items.deep_view() == items_of(objects_of(self@.pages)),
    {
        let mut items: Vec<Item> = Vec::new();
        let mut i: usize = 0;
        assert(self@.pages.take(0) =~= Seq::<PageView>::empty());
        assert(items.deep_view() =~= items_of(objects_of(self@.pages.take(0))));
        while i < self.pages.len()
            invariant
                i <= self.pages.len(),
                items.deep_view() == items_of(objects_of(self@.pages.take(i as int))),
            decreases self.pages.len() - i,
        {
            let ghost before = items.deep_view();
            let mut more = self.pages[i].items();
            let ghost added = more.deep_view();
            items.append(&mut more);
            proof {
                assert(items.deep_view() =~= before + added);
                lemma_objects_of_push(self@.pages.take(i as int), self.pages[i as int]@);
                lemma_items_of_add(
                    objects_of(self@.pages.take(i as int)),
                    self.pages[i as int]@.objects,
                );
                assert(self@.pages.take(i as int).push(self.pages[i as int]@) =~= self@.pages.take(
                    i + 1,
                ));
            }
            i += 1;
        }
        assert(self@.pages.take(i as int) =~= self@.pages);
        items
    }

    /// The requests that delete the items fetched so far: one batch for each
    /// page that has items, in the order of the pages. Together they delete
    /// each item once; where there is no item, there is no request.
    pub fn delete_all(&self) -> (batches: Vec<DeleteBatch>)
        ensures
            batches.deep_view() == batches_of(self@.bucket, self@.pages),
            deleted_by(batches.deep_view()) == keys_of(items_of(objects_of(self@.pages))),
            items_of(objects_of(self@.pages)).len() == 0 ==> batches.len() == 0,
    {
        let mut batches: Vec<DeleteBatch> = Vec::new();
        let mut i: usize = 0;
        assert(self@.pages.take(0) =~= Seq::<PageView>::empty());
        assert(batches.deep_view() =~= batches_of(self@.bucket, self@.pages.take(0)));
        while i < self.pages.len()
            invariant
                i <= self.pages.len(),
                batches.deep_view() == batches_of(self@.bucket, self@.pages.take(i as int)),
            decreases self.pages.len() - i,
        {
            proof {
                lemma_batches_of_push(self@.bucket, self@.pages.take(i as int), self.pages[i as int]@);
                assert(self@.pages.take(i as int).push(self.pages[i as int]@) =~= self@.pages.take(
                    i + 1,
                ));
            }
            let ghost before = batches.deep_view();
            if let Some(batch) = delete_batch(self.bucket.as_str(), &self.pages[i]) {
                batches.push(batch);
                assert(batches.deep_view() =~= before.push(batch@));
            }
            i += 1;
        }
        proof {
            assert(self@.pages.take(i as int) =~= self@.pages);
            lemma_batches_delete_items(self@.bucket, self@.pages);
            if items_of(objects_of(self@.pages)).len() == 0 {
                lemma_nothing_to_delete(self@.bucket, self@.pages);
            }
        }
        batches
    }

    /// The transfers that copy the items fetched so far, one each and in the
    /// order of the listing, to the key that `mapping` gives for the item's
    /// key, in `dest_bucket` or else in the bucket of the listing.
    pub fn copy_all<F: Fn(&str) -> String>(&self, mapping: F, dest_bucket: Option<String>) -> (copies:
        Vec<Transfer>)
        requires
            accepts_keys(mapping, items_of(objects_of(self@.pages))),
        ensures
            transfers_of(
                self@.bucket,
                destination(self@.bucket, dest_bucket),
                mapping,
                false,
                items_of(objects_of(self@.pages)),
                copies@,
            ),
    {
        let items = self.items();
        let dest = destination_bucket(self.bucket.as_str(), dest_bucket);
        transfers(self.bucket.as_str(), dest.as_str(), &mapping, false, &items)
    }

    /// The transfers that move the items fetched so far: as
    /// [`ListObjects::copy_all`], and each deletes its source once the copy
    /// went well.
    pub fn move_all<F: Fn(&str) -> String>(&self, mapping: F, dest_bucket: Option<String>) -> (moves:
        Vec<Transfer>)
        requires
            accepts_keys(mapping, items_of(objects_of(self@.pages))),
        ensures
            transfers_of(
                self@.bucket,
                destination(self@.bucket, dest_bucket),
                mapping,
                true,
                items_of(objects_of(self@.pages)),
                moves@,
            ),
    {
        let items = self.items();
        let dest = destination_bucket(self.bucket.as_str(), dest_bucket);
        transfers(self.bucket.as_str(), dest.as_str(), &mapping, true, &items)
    }

    /// The speed estimate for a run over this listing, which all requests of
    /// the run share. It also holds how often a request of the run is
    /// retried, see [`crate::transfer::item_request`].
    pub fn timeout_state(&self) -> (speed: TimeoutState)
        ensures
            speed.config() == self@.config.request,
            speed.estimate() == self@.config.request.expected_upload_speed,
    {
        TimeoutState::new(self.speed.get_config())
    }
}

/// The entry to listings, with the parameters that their runs use.
#[derive(Clone, Copy, Debug, PartialEq, Eq)]
pub struct S3Algo {
    config: Config,
}

impl S3Algo {
    #[verifier::type_invariant]
    spec fn inv(self) -> bool {
        self.config.request.valid()
    }

    /// The parameters that runs use.
    pub closed spec fn config(&self) -> Config {
        self.config
    }

    /// With the default parameters.
    pub fn new() -> (algo: S3Algo)
        ensures
            algo.config() == (Config {
                copy_parallelization: 20,
                request: crate::config::RequestConfig {
                    timeout_fraction: 1_500_000,
                    backoff: 1_500_000,
                    n_retries: 8,
                    expected_upload_speed: 1_000_000,
                    avg_power: 700_000,
                    avg_min_bytes: 1_000_000,
                    min_timeout: 500_000,
                },
            }),
    {
        S3Algo { config: Config::default() }
    }

    /// With the parameters `config`.
    pub fn with_config(config: Config) -> (algo: S3Algo)
        requires
            config.request.valid(),
        ensures
            algo.config() == config,
    {
        S3Algo { config }
    }

    /// A listing of all objects of `bucket` whose keys begin with `prefix`,
    /// before its first page.
    pub fn list_prefix(&self, bucket: String, prefix: String) -> (listing: ListObjects)
        ensures
            listing@.fresh(),
            listing@.config == self.config(),
            listing@.bucket == bucket@,
            listing@.request == (ListRequestView {
                bucket: bucket@,
                prefix: Some(prefix@),
                continuation_token: None,
            }),
    {
        let request = ListRequest {
            bucket: bucket.clone(),
            prefix: Some(prefix),
            continuation_token: None,
        };
        self.list_objects(bucket, request)
    }

    /// A listing by the request `request`, before its first page. Paging is
    /// taken care of: a cursor in `request` is not used. `bucket` is the
    /// bucket that deletions and copies of the listing read from.
    pub fn list_objects(&self, bucket: String, request: ListRequest) -> (listing: ListObjects)
        ensures
            listing@.fresh(),
            listing@.config == self.config(),
            listing@.bucket == bucket@,
            listing@.request == request@,
    {
        proof {
            use_type_invariant(self);
        }
        let listing = ListObjects {
            copy_parallelization: self.config.copy_parallelization,
            speed: TimeoutState::new(self.config.request),
            bucket,
            request,
            pager: Pager::new(),
            pages: Vec::new(),
        };
        assert(listing.pages.deep_view() =~= Seq::<PageView>::empty());
        listing
    }
}

} // verus!
