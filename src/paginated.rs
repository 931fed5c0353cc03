//! A list of items that the API returns in pages, fetched one page at a time
//! as the items are consumed.

use vstd::prelude::*;
use crate::ApiError;

verus! {

/// The endpoint that lists all games; the only one that accepts bulk pages.
pub const LIST_URL: &'static str = "/games?_bulk=yes";

/// The page size of a new list.
pub const DEFAULT_PAGE_SIZE: u16 = 20;

/// The largest page size of an ordinary list.
pub const MAX_PAGE_SIZE: u16 = 200;

/// The largest page size of the list of all games.
pub const MAX_BULK_PAGE_SIZE: u16 = 1000;

/// The largest page size that the endpoint `uri` accepts.
pub open spec fn max_page_size_of(uri: Seq<char>) -> u16 {
    if uri == LIST_URL@ {
        MAX_BULK_PAGE_SIZE
    } else {
        MAX_PAGE_SIZE
    }
}

/// Whether a page of `size` items out of at most `max` ends a list whose end
/// was `end_seen` before: only a short page does. A full page leaves open
/// whether more items exist.
pub open spec fn page_ends_list(end_seen: bool, size: u16, max: u16) -> bool {
    end_seen || size < max
}

/// What the list does when asked for its next item.
pub enum ListStep<T> {
    /// The next item, taken from the current page.
    Item(T),
    /// The list is exhausted.
    End,
    /// The current page is used up: fetch the page of at most `max` items
    /// starting at `offset`, then hand it to `accept_page`.
    Fetch { offset: usize, max: u16 },
}

/// A list of items returned by the API in pages.
#[derive(Debug)]
pub struct PaginatedList<T> {
    uri: String,
    prefix_len: usize,
    buffer: Vec<T>,
    end_seen: bool,
    page_size: u16,
}

impl<T> PaginatedList<T> {
    /// The endpoint of the list.
    pub closed spec fn uri_spec(&self) -> Seq<char> {
        self.uri@
    }

    /// The number of items on the pages fetched so far.
    pub closed spec fn offset(&self) -> nat {
        self.prefix_len as nat
    }

    /// The items of the current page not yet handed out, in order.
    pub closed spec fn pending(&self) -> Seq<T> {
        self.buffer@.reverse()
    }

    /// Whether a page has shown that no more items exist.
    pub closed spec fn end_seen_spec(&self) -> bool {
        self.end_seen
    }

    /// The page size for future requests.
    pub closed spec fn page_size_spec(&self) -> u16 {
        self.page_size
    }

    /// The internal invariant: the page size suits the endpoint.
    pub closed spec fn wf(&self) -> bool {
        1 <= self.page_size <= max_page_size_of(self.uri@)
    }

    /// A fresh list over the endpoint `uri`: nothing fetched, default page size.
    pub fn new(uri: String) -> (r: PaginatedList<T>)
        ensures
            r.wf(),
            r.uri_spec() == uri@,
            r.offset() == 0,
            r.pending() == Seq::<T>::empty(),
            !r.end_seen_spec(),
            r.page_size_spec() == DEFAULT_PAGE_SIZE,
    {
        let r = PaginatedList { uri, prefix_len: 0, buffer: Vec::new(), end_seen: false, page_size: DEFAULT_PAGE_SIZE };
        proof {
            assert(r.buffer@.reverse() =~= Seq::<T>::empty());
        }
        r
    }

    /// Whether this is the list of all games.
    fn is_bulk(&self) -> (r: bool)
        ensures
            r == (self.uri@ == LIST_URL@),
    {
        let bulk = String::from_str(LIST_URL);
        self.uri == bulk
    }

    /// The largest page size that this list's endpoint accepts.
    pub fn max_page_size(&self) -> (r: u16)
        ensures
            r == max_page_size_of(self.uri_spec()),
    {
        if self.is_bulk() {
            MAX_BULK_PAGE_SIZE
        } else {
            MAX_PAGE_SIZE
        }
    }

    /// The endpoint of the list.
    pub fn uri(&self) -> (r: &String)
        ensures
            r@ == self.uri_spec(),
    {
        &self.uri
    }

    /// The number of items requested per page.
    pub fn page_size(&self) -> (r: u16)
        ensures
            r == self.page_size_spec(),
    {
        self.page_size
    }

    /// Sets the page size for future requests. A size outside `1..=200`, or
    /// `1..=1000` for the list of all games, is refused and changes nothing.
    pub fn set_page_size(&mut self, page_size: u16) -> (r: Result<(), ApiError>)
        requires
            old(self).wf(),
        ensures
            final(self).wf(),
            r is Ok <==> 1 <= page_size <= max_page_size_of(old(self).uri_spec()),
            r matches Err(e) ==> e is InvalidPageSize,
            final(self).page_size_spec() == if r is Ok {
                page_size
            } else {
                old(self).page_size_spec()
            },
            final(self).uri_spec() == old(self).uri_spec(),
            final(self).offset() == old(self).offset(),
            final(self).pending() == old(self).pending(),
            final(self).end_seen_spec() == old(self).end_seen_spec(),
    {
        let max = self.max_page_size();
        if page_size < 1 || page_size > max {
            return Err(ApiError::InvalidPageSize);
        }
        self.page_size = page_size;
        Ok(())
    }

    /// The next step of iteration: an item of the current page, the end of the
    /// list, or a request for the next page.
    pub fn next_step(&mut self) -> (r: ListStep<T>)
        ensures
            final(self).uri_spec() == old(self).uri_spec(),
            final(self).offset() == old(self).offset(),
            final(self).end_seen_spec() == old(self).end_seen_spec(),
            final(self).page_size_spec() == old(self).page_size_spec(),
            old(self).wf() ==> final(self).wf(),
            old(self).pending().len() > 0 ==> r == ListStep::Item(old(self).pending()[0])
                && final(self).pending() == old(self).pending().drop_first(),
            old(self).pending().len() == 0 ==> final(self).pending() == old(self).pending(),
            old(self).pending().len() == 0 && old(self).end_seen_spec() ==> (r is End),
            old(self).pending().len() == 0 && !old(self).end_seen_spec() ==> (r matches ListStep::Fetch { offset, max } && offset == old(self).offset() && max == old(self).page_size_spec()),
    {
        match self.buffer.pop() {
            Some(item) => {
                proof {
                    assert(self.buffer@.reverse() =~= old(self).buffer@.reverse().drop_first());
                }
                ListStep::Item(item)
            },
            None => {
                if self.end_seen {
                    ListStep::End
                } else {
                    ListStep::Fetch { offset: self.prefix_len, max: self.page_size }
                }
            },
        }
    }

    /// Takes in a fetched page: `data` with the reported `size` and `max`. A
    /// size that differs from the number of items is refused and changes
    /// nothing; otherwise the items become the current page, the offset moves
    /// on by `size`, and a short page marks the end of the list.
    pub fn accept_page(&mut self, data: Vec<T>, size: u16, max: u16) -> (r: Result<(), ApiError>)
        requires
            old(self).offset() + size <= usize::MAX,
        ensures
            r is Ok <==> size as nat == data@.len(),
            r matches Err(e) ==> e is PageSizeMismatch,
            r is Err ==> *final(self) == *old(self),
            r is Ok ==> final(self).pending() == data@,
            r is Ok ==> final(self).offset() == old(self).offset() + size,
            r is Ok ==> final(self).end_seen_spec() == page_ends_list(
                old(self).end_seen_spec(),
                size,
                max,
            ),
            final(self).uri_spec() == old(self).uri_spec(),
            final(self).page_size_spec() == old(self).page_size_spec(),
            old(self).wf() ==> final(self).wf(),
    {
        if size as usize != data.len() {
            return Err(ApiError::PageSizeMismatch);
        }
        if size < max {
            self.end_seen = true;
        }
        let mut data = data;
        let ghost items = data@;
        let mut buffer: Vec<T> = Vec::new();
        while data.len() > 0
            invariant
                data@ + buffer@.reverse() == items,
            decreases data@.len(),
        {
            let ghost before = buffer@;
            let ghost rest = data@;
            let item = data.pop().unwrap();
            buffer.push(item);
            proof {
                assert(buffer@.reverse() =~= seq![item] + before.reverse());
                assert(rest =~= data@.push(item));
                assert(data@ + buffer@.reverse() =~= rest + before.reverse());
            }
        }
        proof {
            assert(buffer@.reverse() =~= items);
        }
        self.buffer = buffer;
        self.prefix_len = self.prefix_len + size as usize;
        Ok(())
    }

    /// Hands out the next item of the current page, if any is left.
    pub fn take_buffered(&mut self) -> (r: Option<T>)
        ensures
            old(self).pending().len() > 0 ==> r == Some(old(self).pending()[0])
                && final(self).pending() == old(self).pending().drop_first(),
            old(self).pending().len() == 0 ==> r is None && final(self).pending()
                == old(self).pending(),
            final(self).uri_spec() == old(self).uri_spec(),
            final(self).offset() == old(self).offset(),
            final(self).end_seen_spec() == old(self).end_seen_spec(),
            final(self).page_size_spec() == old(self).page_size_spec(),
            old(self).wf() ==> final(self).wf(),
    {
        let r = self.buffer.pop();
        proof {
            if old(self).buffer@.len() > 0 {
                assert(self.buffer@.reverse() =~= old(self).buffer@.reverse().drop_first());
            }
        }
        r
    }

    /// Bounds on the number of items left: the current page is certain, and
    /// it is all once the end has been seen.
    pub fn size_hint(&self) -> (r: (usize, Option<usize>))
        ensures
            r.0 == self.pending().len(),
            r.1 == if self.end_seen_spec() {
                Some(self.pending().len() as usize)
            } else {
                None
            },
    {
        let len = self.buffer.len();
        (len, if self.end_seen { Some(len) } else { None })
    }
}

/// A full page, one with as many items as the server allows, never ends the
/// list: one more page is fetched before the list can end.
pub proof fn lemma_full_page_fetches_again(size: u16, max: u16)
    requires
        size == max,
    ensures
        !page_ends_list(false, size, max),
{
}

} // verus!
