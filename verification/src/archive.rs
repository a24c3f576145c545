//! The archive reader and the request resolver. The reader pairs the packed
//! zip archive with the site index and serves one URL at a time; extraction
//! goes through the zip crate behind a single trusted wrapper. The caller
//! owns the serialization: the whole reader sits behind one mutual-exclusion
//! primitive, so at most one extraction runs at a time.

use vstd::prelude::*;

use std::io::Read;
use std::io::Seek;

use crate::response::{
    assemble_response, member_path, missing_file_response, not_found_response,
    read_failure_response, response_for, not_found_view, read_failure_view, Response,
    ResponseView,
};
use crate::sitemap::{ArchiveSitemap, ParsedSiteEntry, SiteEntryView};

verus! {

#[verifier::external_type_specification]
#[verifier::external_body]
#[verifier::reject_recursive_types(R)]
pub struct ExZipArchive<R>(zip::ZipArchive<R>);

/// Relies on zip::ZipArchive::by_name and std::io::Read::read_to_end: looks
/// the member up by its exact name and decompresses it whole into a buffer
/// pre-sized by the member's declared size. What comes back depends on the
/// bytes behind the reader, so nothing is promised of the outcome; `None`
/// covers both an absent member and a failed read.
#[verifier::external_body]
fn extract_member<R: Read + Seek>(archive: &mut zip::ZipArchive<R>, name: &str) -> (r: Option<
    Vec<u8>,
>) {
    let mut file = match archive.by_name(name) {
        Ok(f) => f,
        Err(_) => return None,
    };
    let mut bytes = Vec::with_capacity(file.size() as usize);
    match file.read_to_end(&mut bytes) {
        Ok(_) => Some(bytes),
        Err(_) => None,
    }
}

/// The packed archive and the site index, joined once at startup and then
/// shared read-mostly for the process lifetime. Extraction needs exclusive
/// access (the underlying reader keeps seek and decompression state), so
/// callers serialize every request through `&mut` — one holder at a time.
#[verifier::reject_recursive_types(R)]
pub struct StaticZipArchive<R> {
    archive: zip::ZipArchive<R>,
    sitemap: ArchiveSitemap,
}

impl<R: Read + Seek> StaticZipArchive<R> {
    /// The index is intact: lookups resolve exactly what was built.
    pub closed spec fn wf(&self) -> bool {
        self.sitemap.wf()
    }

    /// What the index maps `url` to; delegates to [`ArchiveSitemap::spec_get`].
    pub closed spec fn spec_get(&self, url: Seq<char>) -> Option<SiteEntryView> {
        self.sitemap.spec_get(url)
    }

    /// Joins an opened archive with a built index. The two loads happen
    /// before this call — concurrently if the caller likes — and serving
    /// begins only on the joined pair.
    pub fn new(archive: zip::ZipArchive<R>, sitemap: ArchiveSitemap) -> (r: Self)
        requires
            sitemap.wf(),
        ensures
            r.wf(),
            forall|url: Seq<char>| #[trigger] r.spec_get(url) == sitemap.spec_get(url),
    {
        StaticZipArchive { archive, sitemap }
    }

    /// Resolves one URL against the index and, on a hit, extracts the
    /// entry's member from under the fixed storage prefix. A URL the index
    /// does not know yields `None` — the caller picks the not-found
    /// fallback. A known URL always yields a response: the entry's own
    /// metadata over the extracted bytes, or the distinct missing-member
    /// fallback when the archive does not hold what the index names.
    pub fn get_response_from_uri(&mut self, url: &str) -> (r: Option<Response>)
        requires
            old(self).wf(),
        ensures
            final(self).wf(),
            forall|u: Seq<char>|
                #[trigger] final(self).spec_get(u) == old(self).spec_get(u),
            match old(self).spec_get(url@) {
                None => r is None,
                Some(e) => r matches Some(resp) && (exists|extraction: Option<Seq<u8>>|
                    resp@ == response_for(e, extraction)),
            },
    {
        let entry = match self.sitemap.get(url) {
            Some(e) => e,
            None => {
                return None;
            },
        };
        Some(self.respond_for_entry(&entry))
    }

    /// Serves one index entry, wherever its lookup came from — the
    /// in-process index or an external store with the same four columns:
    /// extracts the member named by the entry from under the fixed storage
    /// prefix and assembles the entry's response over the bytes, or serves
    /// the distinct missing-member fallback when the archive does not hold
    /// what the entry names.
    pub fn respond_for_entry(&mut self, entry: &ParsedSiteEntry) -> (r: Response)
        requires
            old(self).wf(),
        ensures
            final(self).wf(),
            forall|u: Seq<char>|
                #[trigger] final(self).spec_get(u) == old(self).spec_get(u),
            exists|extraction: Option<Seq<u8>>| r@ == response_for(entry@, extraction),
    {
        let path = member_path(entry.filename.as_str());
        match extract_member(&mut self.archive, path.as_str()) {
            Some(bytes) => {
                let ghost bytes_view = bytes@;
                let resp = assemble_response(entry, bytes);
                proof {
                    assert(resp@ == response_for(entry@, Some(bytes_view)));
                }
                resp
            },
            None => {
                let resp = missing_file_response();
                proof {
                    assert(resp@ == response_for(entry@, None::<Seq<u8>>));
                }
                resp
            },
        }
    }
}

/// What the override collaborator reported for the request's path before
/// the index is consulted: the file's bytes (with a content type guessed
/// from its name), a failed read of an existing file, or no override file.
pub enum OverrideOutcome {
    Found { body: Vec<u8>, content_type: Option<String> },
    ReadFailed,
    Absent,
}

/// The response serving an override file verbatim.
pub open spec fn override_view(body: Seq<u8>, content_type: Option<Seq<char>>) -> ResponseView {
    ResponseView { status: 200, content_type, location: None, body }
}

/// The optional header value, as a character sequence.
pub open spec fn opt_string_view(o: Option<String>) -> Option<Seq<char>> {
    match o {
        Some(s) => Some(s@),
        None => None,
    }
}

/// The per-request state machine, terminal at the first matching branch:
/// an existing override file is served as-is with status 200 (the index is
/// never consulted); an unreadable override file yields the fixed 500; with
/// no override, an index miss yields the fixed not-found 404, and an index
/// hit serves the entry over its extracted member or the distinct
/// missing-member 404. Every failure is terminal for the one request; no
/// retries.
pub fn resolve_request<R: Read + Seek>(
    outcome: OverrideOutcome,
    server: &mut StaticZipArchive<R>,
    url: &str,
) -> (r: Response)
    requires
        old(server).wf(),
    ensures
        final(server).wf(),
        forall|u: Seq<char>|
            #[trigger] final(server).spec_get(u) == old(server).spec_get(u),
        match outcome {
            OverrideOutcome::Found { body, content_type } => r@ == override_view(
                body@,
                opt_string_view(content_type),
            ),
            OverrideOutcome::ReadFailed => r@ == read_failure_view(),
            OverrideOutcome::Absent => match old(server).spec_get(url@) {
                None => r@ == not_found_view(),
                Some(e) => exists|extraction: Option<Seq<u8>>| r@ == response_for(e, extraction),
            },
        },
{
    match outcome {
        OverrideOutcome::Found { body, content_type } => Response {
            status: 200,
            content_type,
            location: None,
            body,
        },
        OverrideOutcome::ReadFailed => read_failure_response(),
        OverrideOutcome::Absent => match server.get_response_from_uri(url) {
            Some(resp) => resp,
            None => not_found_response(),
        },
    }
}

} // verus!
