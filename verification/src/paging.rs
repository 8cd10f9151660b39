//! Serving a directory snapshot in pages that fit the kernel's reply buffer.

use crate::abi::{DirEntry, DirEntryV};
use crate::bytes::copy_bytes;
use crate::dirent::numbered_from_one;
use crate::tables::listing_view;
use vstd::prelude::*;

verus! {

/// Per-entry byte cost the guest kernel charges for one `readdir` dirent
/// (`fuse_dirent` is 24 bytes and the name, 8-byte aligned; rounded up to 32 for
/// margin). Deliberately an over-estimate: the page must never exceed the
/// kernel's reply buffer, since entries that overflow it are dropped silently,
/// and `readdirplus` has already taken a lookup reference for each.
pub const FUSE_DIRENT_HEADER: u64 = 32;

/// Per-entry byte cost for one `readdirplus` dirent (`fuse_entry_out` of 128
/// bytes and a `fuse_dirent`; rounded up to 160 for margin).
pub const FUSE_DIRENTPLUS_HEADER: u64 = 160;

/// The bytes an entry takes in a reply buffer: header and name, rounded up to a
/// multiple of eight.
pub open spec fn entry_cost(header: u64, entry: DirEntryV) -> int {
    (header + entry.name.len() + 7) / 8 * 8
}

/// The bytes the entries from `start` up to `end` take.
pub open spec fn page_cost(header: u64, entries: Seq<DirEntryV>, start: int, end: int) -> int
    decreases end - start,
{
    if end <= start {
        0
    } else {
        page_cost(header, entries, start, end - 1) + entry_cost(header, entries[end - 1])
    }
}

/// The index of the first entry whose cookie is past `offset`.
pub open spec fn page_start(entries: Seq<DirEntryV>, offset: u64) -> int
    decreases entries.len(),
{
    if entries.len() == 0 || entries[0].offset > offset {
        0
    } else {
        1 + page_start(entries.skip(1), offset)
    }
}

/// Whether the entries from `start` up to `end` are the page to serve: at least
/// one entry where there is one, then as many as fit into `size` bytes.
pub open spec fn is_page(
    header: u64,
    entries: Seq<DirEntryV>,
    size: u32,
    start: int,
    end: int,
) -> bool {
    &&& start <= end <= entries.len()
    &&& start < entries.len() ==> start < end
    &&& start + 1 < end ==> page_cost(header, entries, start, end) <= size
    &&& start < end < entries.len() ==> page_cost(header, entries, start, end + 1) > size
}

/// Costs add up: a longer page costs more.
proof fn lemma_page_cost_grows(
    header: u64,
    entries: Seq<DirEntryV>,
    start: int,
    mid: int,
    end: int,
)
    requires
        start <= mid <= end,
    ensures
        0 <= page_cost(header, entries, start, mid) <= page_cost(header, entries, start, end),
    decreases end - start,
{
    if end > start {
        if mid < end {
            lemma_page_cost_grows(header, entries, start, mid, end - 1);
        } else {
            lemma_page_cost_grows(header, entries, start, mid - 1, end - 1);
        }
    }
}

/// The page to serve is determined.
pub proof fn pages_are_determined(
    header: u64,
    entries: Seq<DirEntryV>,
    size: u32,
    start: int,
    a: int,
    b: int,
)
    requires
        is_page(header, entries, size, start, a),
        is_page(header, entries, size, start, b),
    ensures
        a == b,
{
    if start < a < b {
        lemma_page_cost_grows(header, entries, start, a + 1, b);
    }
    if start < b < a {
        lemma_page_cost_grows(header, entries, start, b + 1, a);
    }
}

/// A page never exceeds the reply buffer, unless it is a single entry.
pub proof fn pages_fit_the_buffer(
    header: u64,
    entries: Seq<DirEntryV>,
    size: u32,
    start: int,
    end: int,
)
    requires
        is_page(header, entries, size, start, end),
    ensures
        page_cost(header, entries, start, end) <= size || end == start + 1,
{
}

/// The first entry past a cookie is past it, and none before it is.
proof fn lemma_page_start(entries: Seq<DirEntryV>, offset: u64)
    ensures
        0 <= page_start(entries, offset) <= entries.len(),
        page_start(entries, offset) < entries.len() ==> entries[page_start(
            entries,
            offset,
        )].offset > offset,
        forall|i: int|
            0 <= i < page_start(entries, offset) ==> (#[trigger] entries[i]).offset <= offset,
    decreases entries.len(),
{
    if entries.len() > 0 && entries[0].offset <= offset {
        let rest = entries.skip(1);
        lemma_page_start(rest, offset);
        assert forall|i: int| 0 <= i < page_start(entries, offset) implies (
        #[trigger] entries[i]).offset <= offset by {
            if i > 0 {
                assert(rest[i - 1] == entries[i]);
            }
        }
    }
}

/// The cost of one entry, saturating.
fn saturating_cost(header: u64, name_len: usize) -> (r: u64)
    ensures
        r == (header + name_len + 7) / 8 * 8 || (r > u32::MAX && (header + name_len + 7) / 8 * 8
            > u32::MAX),
{
    let sum = header.saturating_add(name_len as u64).saturating_add(7);
    sum / 8 * 8
}

/// The index one past the last snapshot entry that fits in a `size`-byte reply
/// buffer, scanning entries whose cookie is strictly greater than `offset`.
/// Always includes at least one entry past `offset` (the kernel guarantees room
/// for one), so that a non-empty directory never stalls.
pub fn page_end(entries: &[DirEntry], offset: u64, size: u32, header_bytes: u64) -> (end: usize)
    ensures
        is_page(
            header_bytes,
            listing_view(entries@),
            size,
            page_start(listing_view(entries@), offset),
            end as int,
        ),
{
    let ghost all = listing_view(entries@);
    let mut start: usize = 0;
    assert(all.skip(0) =~= all);
    while start < entries.len() && entries[start].offset <= offset
        invariant
            start <= entries.len(),
            all == listing_view(entries@),
            page_start(all, offset) == start + page_start(all.skip(start as int), offset),
        decreases entries.len() - start,
    {
        assert(all.skip(start as int).skip(1) =~= all.skip(start + 1));
        assert(all.skip(start as int)[0] == entries@[start as int]@);
        start += 1;
    }
    proof {
        if start < entries.len() {
            assert(all.skip(start as int)[0] == entries@[start as int]@);
        }
    }
    if start == entries.len() {
        return start;
    }
    let budget = size as u64;
    let mut used: u64 = saturating_cost(header_bytes, entries[start].name.len());
    let mut end: usize = start + 1;
    assert(page_cost(header_bytes, all, start as int, start as int) == 0);
    assert(page_cost(header_bytes, all, start as int, start + 1) == entry_cost(
        header_bytes,
        all[start as int],
    ));
    while end < entries.len()
        invariant
            start < end <= entries.len(),
            all == listing_view(entries@),
            budget == size,
            start == page_start(all, offset),
            used == page_cost(header_bytes, all, start as int, end as int) || (used > u32::MAX
                && page_cost(header_bytes, all, start as int, end as int) > u32::MAX),
            start + 1 < end ==> page_cost(header_bytes, all, start as int, end as int) <= size,
        decreases entries.len() - end,
    {
        let cost = saturating_cost(header_bytes, entries[end].name.len());
        let total = used.saturating_add(cost);
        proof {
            lemma_page_cost_grows(header_bytes, all, start as int, start as int, end as int);
            assert(page_cost(header_bytes, all, start as int, end + 1) == page_cost(
                header_bytes,
                all,
                start as int,
                end as int,
            ) + entry_cost(header_bytes, all[end as int]));
        }
        if total > budget {
            return end;
        }
        used = total;
        end += 1;
    }
    end
}

/// The entries whose cookie is past `offset`.
pub open spec fn entries_past(entries: Seq<DirEntryV>, offset: u64) -> Seq<DirEntryV>
    decreases entries.len(),
{
    if entries.len() == 0 {
        Seq::empty()
    } else {
        let before = entries_past(entries.drop_last(), offset);
        if entries.last().offset > offset {
            before.push(entries.last())
        } else {
            before
        }
    }
}

/// The entries of a snapshot past a cookie.
pub fn serve_snapshot_entries(entries: &[DirEntry], end: usize, offset: u64) -> (r: Vec<DirEntry>)
    requires
        end <= entries.len(),
    ensures
        listing_view(r@) == entries_past(listing_view(entries@).take(end as int), offset),
        forall|j: int|
            0 <= j < r@.len() ==> listing_view(entries@).contains(
                #[trigger] listing_view(r@)[j],
            ),
{
    let ghost all = listing_view(entries@);
    let mut r: Vec<DirEntry> = Vec::new();
    let mut i: usize = 0;
    assert(listing_view(r@) =~= entries_past(all.take(0), offset));
    while i < end
        invariant
            i <= end <= entries.len(),
            all == listing_view(entries@),
            listing_view(r@) == entries_past(all.take(i as int), offset),
            forall|j: int|
                0 <= j < r@.len() ==> all.contains(#[trigger] listing_view(r@)[j]),
        decreases end - i,
    {
        let e = &entries[i];
        assert(all[i as int] == e@);
        assert(all.take(i + 1).drop_last() =~= all.take(i as int));
        assert(all.take(i + 1).last() == e@);
        if e.offset > offset {
            let ghost before = listing_view(r@);
            let copy = DirEntry {
                ino: e.ino,
                offset: e.offset,
                type_: e.type_,
                name: copy_bytes(e.name.as_slice()),
            };
            r.push(copy);
            assert(listing_view(r@) =~= before.push(e@));
        }
        i += 1;
    }
    r
}

/// The page of a snapshot past a cookie, for a buffer of `size` bytes.
pub open spec fn page_of(
    header: u64,
    entries: Seq<DirEntryV>,
    offset: u64,
    size: u32,
) -> Seq<DirEntryV> {
    let end = choose|end: int| is_page(header, entries, size, page_start(entries, offset), end);
    entries_past(entries.take(end), offset)
}

/// One page of a snapshot: the entries past the cookie `offset` that fit into
/// `size` bytes.
pub fn serve_page(entries: &[DirEntry], offset: u64, size: u32, header_bytes: u64) -> (r: Vec<
    DirEntry,
>)
    ensures
        listing_view(r@) == page_of(header_bytes, listing_view(entries@), offset, size),
        forall|j: int|
            0 <= j < r@.len() ==> listing_view(entries@).contains(
                #[trigger] listing_view(r@)[j],
            ),
{
    let end = page_end(entries, offset, size, header_bytes);
    proof {
        let all = listing_view(entries@);
        let start = page_start(all, offset);
        let chosen = choose|end: int| is_page(header_bytes, all, size, start, end);
        pages_are_determined(header_bytes, all, size, start, end as int, chosen);
    }
    serve_snapshot_entries(entries, end, offset)
}

/// In a snapshot whose cookies count from one, the entries past a cookie are
/// those from its position on.
proof fn lemma_entries_past(entries: Seq<DirEntryV>, offset: u64, end: int)
    requires
        numbered_from_one(entries),
        0 <= end <= entries.len(),
    ensures
        offset <= end ==> entries_past(entries.take(end), offset) == entries.subrange(
            offset as int,
            end,
        ),
        offset > end ==> entries_past(entries.take(end), offset).len() == 0,
    decreases end,
{
    if end > 0 {
        assert(entries.take(end).drop_last() =~= entries.take(end - 1));
        lemma_entries_past(entries, offset, end - 1);
        assert(entries[end - 1].offset == end);
        if offset < end {
            assert(entries.subrange(offset as int, end) =~= entries.subrange(
                offset as int,
                end - 1,
            ).push(entries[end - 1]));
        } else if offset == end {
            assert(entries.subrange(end, end) =~= Seq::empty());
        }
    } else {
        if offset == 0 {
            assert(entries.subrange(0, 0) =~= Seq::empty());
        }
    }
}

/// A page exists for every start: the greedy one.
proof fn lemma_page_exists(header: u64, entries: Seq<DirEntryV>, size: u32, start: int, end: int)
    requires
        0 <= start <= end <= entries.len(),
        start < entries.len() ==> start < end,
        start + 1 < end ==> page_cost(header, entries, start, end) <= size,
    ensures
        exists|e: int| is_page(header, entries, size, start, e),
    decreases entries.len() - end,
{
    if start < end < entries.len() && page_cost(header, entries, start, end + 1) <= size {
        lemma_page_exists(header, entries, size, start, end + 1);
    } else {
        assert(is_page(header, entries, size, start, end));
    }
}

/// Each page is the stretch of the listing that starts right after the cookie.
/// It makes progress as long as anything is left, it fits the buffer unless it
/// is a single entry, the entry after it would not fit as well, and its last
/// cookie tells where the next page starts.
pub proof fn pages_are_stretches(
    header: u64,
    entries: Seq<DirEntryV>,
    offset: u64,
    size: u32,
)
    requires
        numbered_from_one(entries),
        offset <= entries.len(),
    ensures
        offset + page_of(header, entries, offset, size).len() <= entries.len(),
        page_of(header, entries, offset, size) == entries.subrange(
            offset as int,
            offset + page_of(header, entries, offset, size).len(),
        ),
        offset < entries.len() ==> page_of(header, entries, offset, size).len() > 0,
        page_of(header, entries, offset, size).len() > 0 ==> page_of(
            header,
            entries,
            offset,
            size,
        ).last().offset == offset + page_of(header, entries, offset, size).len(),
        page_of(header, entries, offset, size).len() > 1 ==> page_cost(
            header,
            entries,
            offset as int,
            offset + page_of(header, entries, offset, size).len(),
        ) <= size,
        offset + page_of(header, entries, offset, size).len() < entries.len() ==> page_cost(
            header,
            entries,
            offset as int,
            offset + page_of(header, entries, offset, size).len() + 1,
        ) > size,
{
    let start = page_start(entries, offset);
    lemma_page_start(entries, offset);
    assert(start == offset) by {
        if start < offset {
            assert(entries[start].offset == start + 1);
        }
        if start > offset {
            assert(entries[offset as int].offset == offset + 1);
        }
    }
    if start < entries.len() {
        lemma_page_exists(header, entries, size, start, start + 1);
    } else {
        lemma_page_exists(header, entries, size, start, start);
    }
    let end = choose|end: int| is_page(header, entries, size, start, end);
    lemma_entries_past(entries, offset, end);
}

/// The entries a reader collects who asks for page after page, from the cookie
/// `from` on, with a buffer of `size` bytes.
pub open spec fn all_pages(
    header: u64,
    entries: Seq<DirEntryV>,
    from: u64,
    size: u32,
) -> Seq<DirEntryV>
    decreases entries.len() - from,
{
    let page = page_of(header, entries, from, size);
    if page.len() == 0 || from >= entries.len() || page.last().offset <= from
        || page.last().offset > entries.len() {
        Seq::empty()
    } else {
        page + all_pages(header, entries, page.last().offset, size)
    }
}

/// Page after page, a reader gets every entry of the listing exactly once and in
/// order, whatever the size of the buffer.
pub proof fn paging_returns_every_entry_once(
    header: u64,
    entries: Seq<DirEntryV>,
    from: u64,
    size: u32,
)
    requires
        numbered_from_one(entries),
        from <= entries.len(),
    ensures
        all_pages(header, entries, from, size) == entries.skip(from as int),
    decreases entries.len() - from,
{
    pages_are_stretches(header, entries, from, size);
    let page = page_of(header, entries, from, size);
    if from < entries.len() {
        let next = page.last().offset;
        paging_returns_every_entry_once(header, entries, next, size);
        assert(entries.skip(from as int) =~= entries.subrange(from as int, next as int)
            + entries.skip(next as int));
    } else {
        assert(entries.skip(from as int) =~= Seq::empty());
    }
}

} // verus!
