//! The site index: an exact-match mapping from full request URLs (path plus
//! literal query string) to response metadata. String fields of every entry
//! are stored as interner identifiers, so equal content types, redirect
//! targets and filenames are stored once no matter how many entries share
//! them. Built in one pass from a serialized source; if a URL key occurs
//! more than once in the source, the last occurrence wins.

use vstd::prelude::*;

use crate::lookup::{LookupId, StringLookup, StringLookupBuilder};

verus! {

/// One index entry as callers see it: plain strings, resolved from the
/// interner. Also the shape in which entries are handed to
/// [`ArchiveSitemap::build`].
pub struct ParsedSiteEntry {
    /// HTTP status code served for the URL, verbatim (200, 301, 404, ...).
    pub status: u16,
    /// Redirect target, present only for redirect-class entries.
    pub location: Option<String>,
    /// MIME type, if one was authored for the entry.
    pub content_type: Option<String>,
    /// Archive member name, relative, without the fixed storage prefix.
    pub filename: String,
}

/// The mathematical value of one entry: the same four fields over
/// character sequences.
pub ghost struct SiteEntryView {
    pub status: u16,
    pub location: Option<Seq<char>>,
    pub content_type: Option<Seq<char>>,
    pub filename: Seq<char>,
}

impl View for ParsedSiteEntry {
    type V = SiteEntryView;

    open spec fn view(&self) -> SiteEntryView {
        SiteEntryView {
            status: self.status,
            location: match self.location {
                Some(s) => Some(s@),
                None => None,
            },
            content_type: match self.content_type {
                Some(s) => Some(s@),
                None => None,
            },
            filename: self.filename@,
        }
    }
}

/// The value of a serialized source, entry by entry in source order: URL
/// key paired with the entry's plain-string value.
pub open spec fn entry_views(entries: Seq<(String, ParsedSiteEntry)>) -> Seq<
    (Seq<char>, SiteEntryView),
> {
    entries.map_values(|p: (String, ParsedSiteEntry)| (p.0@, p.1@))
}

/// The entry a source maps `url` to: the last pair whose key equals `url`,
/// if any — a later occurrence of a key overwrites an earlier one.
pub open spec fn last_entry(entries: Seq<(Seq<char>, SiteEntryView)>, url: Seq<char>) -> Option<
    SiteEntryView,
>
    decreases entries.len(),
{
    if entries.len() == 0 {
        None
    } else if entries.last().0 == url {
        Some(entries.last().1)
    } else {
        last_entry(entries.drop_last(), url)
    }
}

/// Law: when position `i` holds the last occurrence of its URL key in the
/// source, the source maps that URL to exactly the entry at `i`. In
/// particular a key inserted once round-trips unchanged, and of two entries
/// inserted under the same key the later one wins.
pub proof fn lemma_last_entry_wins(entries: Seq<(Seq<char>, SiteEntryView)>, i: int)
    requires
        0 <= i < entries.len(),
        forall|j: int| i < j < entries.len() ==> entries[j].0 != entries[i].0,
    ensures
        last_entry(entries, entries[i].0) == Some(entries[i].1),
    decreases entries.len(),
{
    if i == entries.len() - 1 {
    } else {
        assert(entries.last().0 != entries[i].0);
        assert(entries.drop_last()[i] == entries[i]);
        lemma_last_entry_wins(entries.drop_last(), i);
    }
}

/// Law: a URL that occurs under no key of the source is mapped to nothing.
pub proof fn lemma_last_entry_absent(entries: Seq<(Seq<char>, SiteEntryView)>, url: Seq<char>)
    requires
        forall|j: int| 0 <= j < entries.len() ==> entries[j].0 != url,
    ensures
        last_entry(entries, url) is None,
    decreases entries.len(),
{
    if entries.len() > 0 {
        lemma_last_entry_absent(entries.drop_last(), url);
    }
}

/// One stored entry: the same record with every string replaced by its
/// interner identifier.
pub struct CompressedSiteEntry {
    status: u16,
    location: Option<LookupId>,
    content_type: Option<LookupId>,
    filename: LookupId,
}

/// All identifiers of one stored entry were minted for the given tables.
spec fn entry_valid(
    e: CompressedSiteEntry,
    loc: Seq<Seq<char>>,
    ct: Seq<Seq<char>>,
    fnames: Seq<Seq<char>>,
) -> bool {
    &&& match e.location {
        Some(id) => 1 <= id@ && id@ <= loc.len(),
        None => true,
    }
    &&& match e.content_type {
        Some(id) => 1 <= id@ && id@ <= ct.len(),
        None => true,
    }
    &&& 1 <= e.filename@ && e.filename@ <= fnames.len()
}

/// The plain-string value of a stored entry, read back through the tables.
spec fn entry_resolve(
    e: CompressedSiteEntry,
    loc: Seq<Seq<char>>,
    ct: Seq<Seq<char>>,
    fnames: Seq<Seq<char>>,
) -> SiteEntryView {
    SiteEntryView {
        status: e.status,
        location: match e.location {
            Some(id) => Some(loc[id@ as int - 1]),
            None => None,
        },
        content_type: match e.content_type {
            Some(id) => Some(ct[id@ as int - 1]),
            None => None,
        },
        filename: fnames[e.filename@ as int - 1],
    }
}

/// Every stored row holds only identifiers minted for the tables.
spec fn rows_valid(
    rows: Seq<(String, CompressedSiteEntry)>,
    loc: Seq<Seq<char>>,
    ct: Seq<Seq<char>>,
    fnames: Seq<Seq<char>>,
) -> bool {
    forall|i: int| 0 <= i < rows.len() ==> entry_valid(#[trigger] rows[i].1, loc, ct, fnames)
}

/// The stored row a row sequence maps `url` to: the last row whose key
/// equals `url`, mirroring [`last_entry`].
spec fn row_get_last(rows: Seq<(String, CompressedSiteEntry)>, url: Seq<char>) -> Option<
    CompressedSiteEntry,
>
    decreases rows.len(),
{
    if rows.len() == 0 {
        None
    } else if rows.last().0@ == url {
        Some(rows.last().1)
    } else {
        row_get_last(rows.drop_last(), url)
    }
}

/// The stored row under `url`, resolved back to plain strings.
spec fn row_resolved(
    rows: Seq<(String, CompressedSiteEntry)>,
    loc: Seq<Seq<char>>,
    ct: Seq<Seq<char>>,
    fnames: Seq<Seq<char>>,
    url: Seq<char>,
) -> Option<SiteEntryView> {
    match row_get_last(rows, url) {
        Some(e) => Some(entry_resolve(e, loc, ct, fnames)),
        None => None,
    }
}

/// A row returned by [`row_get_last`] stands somewhere in the sequence
/// under the queried key.
proof fn lemma_row_get_last_member(rows: Seq<(String, CompressedSiteEntry)>, url: Seq<char>)
    requires
        row_get_last(rows, url) is Some,
    ensures
        exists|i: int|
            0 <= i < rows.len() && rows[i].1 == row_get_last(rows, url).unwrap() && rows[i].0@
                == url,
    decreases rows.len(),
{
    if rows.last().0@ == url {
        assert(rows[rows.len() - 1].1 == row_get_last(rows, url).unwrap());
    } else {
        lemma_row_get_last_member(rows.drop_last(), url);
        let i = choose|i: int|
            0 <= i < rows.drop_last().len() && rows.drop_last()[i].1 == row_get_last(
                rows.drop_last(),
                url,
            ).unwrap() && rows.drop_last()[i].0@ == url;
        assert(rows[i].1 == row_get_last(rows, url).unwrap() && rows[i].0@ == url);
    }
}

/// An entry valid for some tables is valid for any extension of them, and
/// resolves there to the same strings: minted identifiers never change
/// meaning as the tables grow.
proof fn lemma_entry_valid_extend(
    e: CompressedSiteEntry,
    loc1: Seq<Seq<char>>,
    ct1: Seq<Seq<char>>,
    fn1: Seq<Seq<char>>,
    loc2: Seq<Seq<char>>,
    ct2: Seq<Seq<char>>,
    fn2: Seq<Seq<char>>,
)
    requires
        entry_valid(e, loc1, ct1, fn1),
        loc1.is_prefix_of(loc2),
        ct1.is_prefix_of(ct2),
        fn1.is_prefix_of(fn2),
    ensures
        entry_valid(e, loc2, ct2, fn2),
        entry_resolve(e, loc2, ct2, fn2) == entry_resolve(e, loc1, ct1, fn1),
{
}

/// Rows valid for some tables stay valid for any extension of them.
proof fn lemma_rows_valid_extend(
    rows: Seq<(String, CompressedSiteEntry)>,
    loc1: Seq<Seq<char>>,
    ct1: Seq<Seq<char>>,
    fn1: Seq<Seq<char>>,
    loc2: Seq<Seq<char>>,
    ct2: Seq<Seq<char>>,
    fn2: Seq<Seq<char>>,
)
    requires
        rows_valid(rows, loc1, ct1, fn1),
        loc1.is_prefix_of(loc2),
        ct1.is_prefix_of(ct2),
        fn1.is_prefix_of(fn2),
    ensures
        rows_valid(rows, loc2, ct2, fn2),
{
    assert forall|i: int| 0 <= i < rows.len() implies entry_valid(
        #[trigger] rows[i].1,
        loc2,
        ct2,
        fn2,
    ) by {
        lemma_entry_valid_extend(rows[i].1, loc1, ct1, fn1, loc2, ct2, fn2);
    }
}

/// Extending the tables changes no resolution of rows already stored.
proof fn lemma_resolved_stable(
    rows: Seq<(String, CompressedSiteEntry)>,
    loc1: Seq<Seq<char>>,
    ct1: Seq<Seq<char>>,
    fn1: Seq<Seq<char>>,
    loc2: Seq<Seq<char>>,
    ct2: Seq<Seq<char>>,
    fn2: Seq<Seq<char>>,
)
    requires
        rows_valid(rows, loc1, ct1, fn1),
        loc1.is_prefix_of(loc2),
        ct1.is_prefix_of(ct2),
        fn1.is_prefix_of(fn2),
    ensures
        forall|url: Seq<char>|
            #[trigger] row_resolved(rows, loc2, ct2, fn2, url) == row_resolved(
                rows,
                loc1,
                ct1,
                fn1,
                url,
            ),
{
    assert forall|url: Seq<char>|
        #[trigger] row_resolved(rows, loc2, ct2, fn2, url) == row_resolved(
            rows,
            loc1,
            ct1,
            fn1,
            url,
        ) by {
        if row_get_last(rows, url) is Some {
            let e = row_get_last(rows, url).unwrap();
            lemma_row_get_last_member(rows, url);
            let i = choose|i: int|
                0 <= i < rows.len() && rows[i].1 == e && rows[i].0@ == url;
            assert(entry_valid(rows[i].1, loc1, ct1, fn1));
            lemma_entry_valid_extend(e, loc1, ct1, fn1, loc2, ct2, fn2);
        }
    }
}

/// Interns the string behind an optional field, returning the matching
/// optional identifier. The table only ever grows, by at most one string.
fn intern_opt(builder: &mut StringLookupBuilder, field: &Option<String>) -> (r: Option<LookupId>)
    requires
        old(builder).wf(),
        old(builder)@.len() + 1 < u32::MAX as nat,
    ensures
        final(builder).wf(),
        old(builder)@.is_prefix_of(final(builder)@),
        final(builder)@.len() <= old(builder)@.len() + 1,
        match field {
            Some(s) => r matches Some(id) && 1 <= id@ && id@ <= final(builder)@.len()
                && final(builder)@[id@ as int - 1] == s@,
            None => r is None,
        },
{
    let r = match field {
        Some(s) => Some(builder.get_id(s.as_str())),
        None => None,
    };
    proof {
        assert(old(builder)@ =~= builder@.subrange(0, old(builder)@.len() as int));
    }
    r
}

/// The URL-to-entry index. Keys are byte-exact full URLs; values hold
/// identifiers into the three string tables. Immutable after construction.
pub struct ArchiveSitemap {
    location_lookup: StringLookup,
    content_type_lookup: StringLookup,
    filename_lookup: StringLookup,
    sitemap: Vec<(String, CompressedSiteEntry)>,
}

impl ArchiveSitemap {
    /// Every stored identifier was minted by the matching table's builder,
    /// so resolution never escapes a table.
    pub closed spec fn wf(&self) -> bool {
        rows_valid(
            self.sitemap@,
            self.location_lookup@,
            self.content_type_lookup@,
            self.filename_lookup@,
        )
    }

    /// The entry stored under `url`, as plain strings; what [`Self::get`]
    /// returns.
    pub closed spec fn spec_get(&self, url: Seq<char>) -> Option<SiteEntryView> {
        row_resolved(
            self.sitemap@,
            self.location_lookup@,
            self.content_type_lookup@,
            self.filename_lookup@,
            url,
        )
    }

    /// Exact-match lookup: no normalization, case- and byte-sensitive,
    /// query string included. An absent key is an ordinary miss, not an
    /// error. String fields of the result are resolved back from their
    /// identifiers.
    pub fn get(&self, url: &str) -> (r: Option<ParsedSiteEntry>)
        requires
            self.wf(),
        ensures
            match r {
                Some(e) => self.spec_get(url@) == Some(e@),
                None => self.spec_get(url@) is None,
            },
    {
        let owned: String = url.to_owned();
        let ghost rows = self.sitemap@;
        let mut i: usize = self.sitemap.len();
        proof {
            assert(rows.subrange(0, rows.len() as int) =~= rows);
        }
        while i > 0
            invariant
                owned@ == url@,
                rows == self.sitemap@,
                i <= rows.len(),
                self.wf(),
                row_get_last(rows, url@) == row_get_last(rows.subrange(0, i as int), url@),
            decreases i,
        {
            i = i - 1;
            let ghost prefix = rows.subrange(0, i as int + 1);
            if self.sitemap[i].0 == owned {
                let found = &self.sitemap[i].1;
                proof {
                    assert(prefix.last() == rows[i as int]);
                    assert(row_get_last(prefix, url@) == Some(rows[i as int].1));
                    assert(entry_valid(
                        rows[i as int].1,
                        self.location_lookup@,
                        self.content_type_lookup@,
                        self.filename_lookup@,
                    ));
                }
                let r = ParsedSiteEntry {
                    status: found.status,
                    location: match found.location {
                        Some(id) => Some(self.location_lookup.get(id).to_owned()),
                        None => None,
                    },
                    content_type: match found.content_type {
                        Some(id) => Some(self.content_type_lookup.get(id).to_owned()),
                        None => None,
                    },
                    filename: self.filename_lookup.get(found.filename).to_owned(),
                };
                proof {
                    assert(r@ == entry_resolve(
                        rows[i as int].1,
                        self.location_lookup@,
                        self.content_type_lookup@,
                        self.filename_lookup@,
                    ));
                }
                return Some(r);
            }
            proof {
                assert(prefix.last() == rows[i as int]);
                assert(prefix.last().0@ != url@);
                assert(prefix.drop_last() =~= rows.subrange(0, i as int));
                assert(row_get_last(prefix, url@) == row_get_last(
                    rows.subrange(0, i as int),
                    url@,
                ));
            }
        }
        proof {
            assert(rows.subrange(0, 0) =~= Seq::<(String, CompressedSiteEntry)>::empty());
            assert(row_get_last(rows, url@) is None);
        }
        None
    }

    /// Consumes the serialized source, interning every string field, and
    /// produces the immutable index. For every URL the built index maps it
    /// to exactly what the source maps it to: the last entry under that
    /// key, with all string fields round-tripping through the interner
    /// unchanged. The length bound keeps the identifier space of the three
    /// tables from being exhausted, which would be a fatal construction
    /// failure, never a per-request one.
    pub fn build(entries: Vec<(String, ParsedSiteEntry)>) -> (r: ArchiveSitemap)
        requires
            entries@.len() + 1 < u32::MAX as nat,
        ensures
            r.wf(),
            forall|url: Seq<char>|
                #[trigger] r.spec_get(url) == last_entry(entry_views(entries@), url),
    {
        let mut location_builder = StringLookupBuilder::new();
        let mut content_type_builder = StringLookupBuilder::new();
        let mut filename_builder = StringLookupBuilder::new();
        let mut sitemap: Vec<(String, CompressedSiteEntry)> = Vec::new();
        let n = entries.len();
        let mut i: usize = 0;
        while i < n
            invariant
                n == entries@.len(),
                entries@.len() + 1 < u32::MAX as nat,
                i <= n,
                location_builder.wf(),
                content_type_builder.wf(),
                filename_builder.wf(),
                location_builder@.len() <= i,
                content_type_builder@.len() <= i,
                filename_builder@.len() <= i,
                rows_valid(sitemap@, location_builder@, content_type_builder@, filename_builder@),
                forall|url: Seq<char>|
                    #[trigger] row_resolved(
                        sitemap@,
                        location_builder@,
                        content_type_builder@,
                        filename_builder@,
                        url,
                    ) == last_entry(entry_views(entries@).subrange(0, i as int), url),
            decreases n - i,
        {
            let ghost loc0 = location_builder@;
            let ghost ct0 = content_type_builder@;
            let ghost fn0 = filename_builder@;
            let ghost rows0 = sitemap@;
            let key = entries[i].0.clone();
            let value = &entries[i].1;
            let location = intern_opt(&mut location_builder, &value.location);
            let content_type = intern_opt(&mut content_type_builder, &value.content_type);
            let filename = filename_builder.get_id(value.filename.as_str());
            proof {
                assert(fn0 =~= filename_builder@.subrange(0, fn0.len() as int));
            }
            let compressed = CompressedSiteEntry {
                status: value.status,
                location,
                content_type,
                filename,
            };
            proof {
                lemma_rows_valid_extend(
                    rows0,
                    loc0,
                    ct0,
                    fn0,
                    location_builder@,
                    content_type_builder@,
                    filename_builder@,
                );
                lemma_resolved_stable(
                    rows0,
                    loc0,
                    ct0,
                    fn0,
                    location_builder@,
                    content_type_builder@,
                    filename_builder@,
                );
            }
            let ghost key_view = key@;
            let ghost entry_view = entries@[i as int].1@;
            sitemap.push((key, compressed));
            proof {
                let locn = location_builder@;
                let ctn = content_type_builder@;
                let fnn = filename_builder@;
                let prefix = entry_views(entries@).subrange(0, i as int);
                let next = entry_views(entries@).subrange(0, i as int + 1);
                assert(key_view == entries@[i as int].0@);
                assert(next.last() == (key_view, entry_view));
                assert(next.drop_last() =~= prefix);
                assert(sitemap@.drop_last() =~= rows0);
                assert(sitemap@.last().1 == compressed);
                assert(sitemap@.last().0@ == key_view);
                assert(entry_valid(compressed, locn, ctn, fnn));
                assert(entry_resolve(compressed, locn, ctn, fnn) == entry_view);
                assert forall|url: Seq<char>|
                    #[trigger] row_resolved(sitemap@, locn, ctn, fnn, url) == last_entry(
                        next,
                        url,
                    ) by {
                    if url == key_view {
                        assert(row_get_last(sitemap@, url) == Some(compressed));
                        assert(last_entry(next, url) == Some(entry_view));
                    } else {
                        assert(row_get_last(sitemap@, url) == row_get_last(rows0, url));
                        assert(last_entry(next, url) == last_entry(prefix, url));
                        assert(row_resolved(rows0, locn, ctn, fnn, url) == row_resolved(
                            rows0,
                            loc0,
                            ct0,
                            fn0,
                            url,
                        ));
                        assert(row_resolved(rows0, loc0, ct0, fn0, url) == last_entry(
                            prefix,
                            url,
                        ));
                    }
                }
            }
            i = i + 1;
        }
        let r = ArchiveSitemap {
            location_lookup: location_builder.build(),
            content_type_lookup: content_type_builder.build(),
            filename_lookup: filename_builder.build(),
            sitemap,
        };
        proof {
            assert(entry_views(entries@).subrange(0, n as int) =~= entry_views(entries@));
        }
        r
    }
}

} // verus!
