//! Documents: how an upload becomes a stored document with its chunks, and
//! how documents become the context of a prompt.

use crate::models::{
    chunk_views, document_views, fresh_id, AppSettings, ChunkView, Document, DocumentChunk,
    DocumentContextMode, DocumentView,
};
use crate::text::{
    contains, contains_chars, count_words, decimal, decimal_chars, decode_lossy, from_chars,
    lemma_contains_self, lemma_contains_within, lowercased, push_chars, replace_all, replace_chars, slice_chars, text_eq, texts, to_chars,
    to_lowercase, utf8_lossy, word_count,
};
use vstd::prelude::*;

verus! {

/// The most characters that a chunk holds.
pub const CHUNK_SIZE: usize = 1000;

/// The characters that a chunk shares with the one before it.
pub const CHUNK_OVERLAP: usize = 200;

/// Where the last segment of a dotted name starts: directly after the last
/// full stop before `to`, or at the start of the name.
pub open spec fn segment_start(name: Seq<char>, to: int) -> int
    decreases to,
{
    if 0 < to <= name.len() && name[to - 1] != '.' {
        segment_start(name, to - 1)
    } else {
        to
    }
}

/// What follows the last full stop of a name; the whole name where it has
/// none.
pub open spec fn extension(name: Seq<char>) -> Seq<char> {
    name.skip(segment_start(name, name.len() as int))
}

/// The chunks of a text from `start` on: windows of [`CHUNK_SIZE`]
/// characters, each starting [`CHUNK_OVERLAP`] characters before the end of
/// the one before it, the last one reaching the end of the text.
pub open spec fn chunks_from(text: Seq<char>, start: int) -> Seq<Seq<char>>
    decreases text.len() - start,
{
    if 0 <= start && start + CHUNK_SIZE < text.len() {
        seq![text.subrange(start, start + CHUNK_SIZE)] + chunks_from(
            text,
            start + CHUNK_SIZE - CHUNK_OVERLAP,
        )
    } else {
        seq![text.subrange(start, text.len() as int)]
    }
}

/// The chunks of a text. A text of no more than [`CHUNK_SIZE`] characters is
/// its own single chunk.
pub open spec fn chunked(text: Seq<char>) -> Seq<Seq<char>> {
    chunks_from(text, 0)
}

/// The number of tokens that the `cl100k_base` encoding of `tiktoken_rs`
/// makes of a text, with no special token allowed; `None` where the encoder
/// cannot be built or refuses the text.
pub uninterp spec fn cl100k_count(text: Seq<char>) -> Option<usize>;

/// Counts the tokens of a text under the `cl100k_base` encoding. Trusted:
/// `tiktoken_rs::cl100k_base` builds the encoder from data compiled into the
/// crate and `CoreBPE::encode` is a function of the text alone, so the count
/// depends on the text alone, and [`cl100k_count`] is its name. An error of
/// either call is reported as `None`. `encode` unwraps the search for
/// special tokens, which is a search for fixed strings and has no failing
/// case.
#[verifier::external_body]
fn cl100k_token_count(text: &str) -> (count: Option<usize>)
    ensures
        count == cl100k_count(text@),
{
    let encoder = tiktoken_rs::cl100k_base().ok()?;
    let (tokens, _) = encoder.encode(text, &std::collections::HashSet::new()).ok()?;
    Some(tokens.len())
}

/// The token count of a text, given what the encoder said: its count where
/// it gave one, and the number of words otherwise.
pub open spec fn token_count(text: Seq<char>, encoded: Option<usize>) -> nat {
    match encoded {
        Some(n) => n as nat,
        None => word_count(text),
    }
}

/// The mathematical content of a [`DocumentService`].
pub ghost struct ServiceView {
    pub documents: Seq<DocumentView>,
    pub chunks: Seq<ChunkView>,
    pub mode: DocumentContextMode,
}

/// The first index at or after `from` whose document bears `id`, or the
/// number of documents.
pub open spec fn document_position(documents: Seq<DocumentView>, id: Seq<char>, from: int) -> int
    decreases documents.len() - from,
{
    if 0 <= from < documents.len() && documents[from].id != id {
        document_position(documents, id, from + 1)
    } else {
        from
    }
}

/// The first document that bears `id`.
pub open spec fn document_by_id(documents: Seq<DocumentView>, id: Seq<char>) -> Option<
    DocumentView,
> {
    let i = document_position(documents, id, 0);
    if 0 <= i < documents.len() {
        Some(documents[i])
    } else {
        None
    }
}

/// The documents that do not bear `id`, in order.
pub open spec fn documents_without(documents: Seq<DocumentView>, id: Seq<char>) -> Seq<
    DocumentView,
>
    decreases documents.len(),
{
    if documents.len() == 0 {
        documents
    } else if documents.last().id == id {
        documents_without(documents.drop_last(), id)
    } else {
        documents_without(documents.drop_last(), id).push(documents.last())
    }
}

/// The chunks that belong to the document `id` (`keep`), or those that do
/// not, in order.
pub open spec fn chunks_where(chunks: Seq<ChunkView>, id: Seq<char>, keep: bool) -> Seq<ChunkView>
    decreases chunks.len(),
{
    if chunks.len() == 0 {
        chunks
    } else if (chunks.last().document_id == id) == keep {
        chunks_where(chunks.drop_last(), id, keep).push(chunks.last())
    } else {
        chunks_where(chunks.drop_last(), id, keep)
    }
}

/// An index before which no document bears the identifier, and which bears
/// it or is the end, is where `document_position` arrives.
pub proof fn lemma_document_found(documents: Seq<DocumentView>, id: Seq<char>, from: int, at: int)
    requires
        0 <= from <= at <= documents.len(),
        forall|j: int| from <= j < at ==> documents[j].id != id,
        at < documents.len() ==> documents[at].id == id,
    ensures
        document_position(documents, id, from) == at,
    decreases at - from,
{
    if from < at {
        lemma_document_found(documents, id, from + 1, at);
    }
}

/// The documents of the application, their chunks, and the way they reach
/// the prompt.
#[derive(Debug)]
pub struct DocumentService {
    pub documents: Vec<Document>,
    pub chunks: Vec<DocumentChunk>,
    pub mode: DocumentContextMode,
}

impl View for DocumentService {
    type V = ServiceView;

    open spec fn view(&self) -> ServiceView {
        ServiceView {
            documents: document_views(self.documents@),
            chunks: chunk_views(self.chunks@),
            mode: self.mode,
        }
    }
}

/// Finds the first document that bears `id`.
fn find_document(documents: &Vec<Document>, id: &str) -> (found: Option<usize>)
    ensures
        match found {
            Some(i) => i < documents.len() && i == document_position(
                document_views(documents@),
                id@,
                0,
            ),
            None => document_position(document_views(documents@), id@, 0) == documents.len(),
        },
{
    let n: usize = documents.len();
    let mut i: usize = 0;
    let ghost views = document_views(documents@);
    while i < n
        invariant
            n == documents.len(),
            i <= n,
            views == document_views(documents@),
            forall|j: int| 0 <= j < i ==> views[j].id != id@,
        decreases n - i,
    {
        if text_eq(documents[i].id.as_str(), id) {
            proof {
                lemma_document_found(views, id@, 0, i as int);
            }
            return Some(i);
        }
        i += 1;
    }
    proof {
        lemma_document_found(views, id@, 0, n as int);
    }
    None
}

impl DocumentService {
    /// A service over the given documents and chunks. The mode is the one
    /// of the settings, and [`DocumentContextMode::RAG`] where there are
    /// none.
    pub fn new(
        documents: Vec<Document>,
        chunks: Vec<DocumentChunk>,
        settings: Option<&AppSettings>,
    ) -> (service: DocumentService)
        ensures
            service@.documents == document_views(documents@),
            service@.chunks == chunk_views(chunks@),
            service@.mode == match settings {
                Some(s) => s@.document_context_mode,
                None => DocumentContextMode::RAG,
            },
    {
        let mode = match settings {
            Some(s) => s.document_context_mode,
            None => DocumentContextMode::RAG,
        };
        DocumentService { documents, chunks, mode }
    }

    /// The type of a file, from its name: what follows the last full stop,
    /// in lower case.
    pub fn get_file_type(filename: &str) -> (file_type: String)
        ensures
            file_type@ == lowercased(extension(filename@)),
    {
        let chars = to_chars(filename);
        let n: usize = chars.len();
        let mut start: usize = n;
        while start > 0 && chars[start - 1] != '.'
            invariant
                n == chars.len(),
                start <= n,
                segment_start(chars@, start as int) == segment_start(chars@, n as int),
            decreases start,
        {
            start -= 1;
        }
        let tail = slice_chars(&chars, start, n);
        assert(tail@ =~= chars@.skip(start as int));
        let last = from_chars(tail.as_slice());
        to_lowercase(last.as_str())
    }

    /// Cuts a text into overlapping chunks.
    pub fn chunk_text(text: &str) -> (chunks: Vec<String>)
        ensures
            texts(chunks@) == chunked(text@),
    {
        let chars = to_chars(text);
        let n: usize = chars.len();
        let mut chunks: Vec<String> = Vec::new();
        let mut start: usize = 0;
        assert(texts(chunks@) + chunks_from(chars@, 0) =~= chunked(chars@));
        while n - start > CHUNK_SIZE
            invariant
                n == chars.len(),
                start <= n,
                texts(chunks@) + chunks_from(chars@, start as int) == chunked(chars@),
            decreases n - start,
        {
            let ghost before = texts(chunks@);
            let piece = slice_chars(&chars, start, start + CHUNK_SIZE);
            chunks.push(from_chars(piece.as_slice()));
            proof {
                let next = start + CHUNK_SIZE - CHUNK_OVERLAP;
                assert(texts(chunks@) =~= before.push(piece@));
                assert(before.push(piece@) + chunks_from(chars@, next) =~= before + (seq![piece@]
                    + chunks_from(chars@, next)));
            }
            start = start + CHUNK_SIZE - CHUNK_OVERLAP;
        }
        let ghost before = texts(chunks@);
        let piece = slice_chars(&chars, start, n);
        chunks.push(from_chars(piece.as_slice()));
        proof {
            assert(texts(chunks@) =~= before.push(piece@));
            assert(before.push(piece@) =~= before + seq![piece@]);
        }
        chunks
    }

    /// The token count of a text, given what the encoder said.
    pub fn count_tokens_given(text: &str, encoded: Option<usize>) -> (count: usize)
        ensures
            count == token_count(text@, encoded),
    {
        match encoded {
            Some(n) => n,
            None => {
                let chars = to_chars(text);
                count_words(&chars)
            },
        }
    }

    /// Counts the tokens of a text: by the `cl100k_base` encoding, and by
    /// words where the encoder is not to be had.
    pub fn count_tokens(text: &str) -> (count: usize)
        ensures
            count == token_count(text@, cl100k_count(text@)),
    {
        DocumentService::count_tokens_given(text, cl100k_token_count(text))
    }

    /// A copy of every document, in order.
    pub fn get_documents(&self) -> (documents: Vec<Document>)
        ensures
            document_views(documents@) == self@.documents,
    {
        let documents = self.documents.clone();
        assert(documents@ =~= self.documents@);
        documents
    }

    /// The way documents reach the prompt.
    pub fn get_context_mode(&self) -> (mode: DocumentContextMode)
        ensures
            mode == self@.mode,
    {
        self.mode
    }

    /// A copy of the chunks of the document `document_id`, in order.
    pub fn get_document_chunks(&self, document_id: &str) -> (chunks: Vec<DocumentChunk>)
        ensures
            chunk_views(chunks@) == chunks_where(self@.chunks, document_id@, true),
    {
        let n: usize = self.chunks.len();
        let mut kept: Vec<DocumentChunk> = Vec::new();
        let mut i: usize = 0;
        let ghost views = chunk_views(self.chunks@);
        assert(views.take(0) =~= Seq::<ChunkView>::empty());
        while i < n
            invariant
                n == self.chunks.len(),
                i <= n,
                views == chunk_views(self.chunks@),
                chunk_views(kept@) == chunks_where(views.take(i as int), document_id@, true),
            decreases n - i,
        {
            proof {
                assert(views.take(i + 1).drop_last() =~= views.take(i as int));
                assert(views.take(i + 1).last() == views[i as int]);
            }
            if text_eq(self.chunks[i].document_id.as_str(), document_id) {
                let ghost before = chunk_views(kept@);
                kept.push(self.chunks[i].clone());
                assert(chunk_views(kept@) =~= before.push(views[i as int]));
            }
            i += 1;
        }
        assert(views.take(n as int) =~= views);
        kept
    }

    /// Removes the documents that bear `document_id`, and their chunks.
    pub fn delete_document(&mut self, document_id: &str)
        ensures
            final(self)@.documents == documents_without(old(self)@.documents, document_id@),
            final(self)@.chunks == chunks_where(old(self)@.chunks, document_id@, false),
            final(self)@.mode == old(self)@.mode,
    {
        let n: usize = self.documents.len();
        let mut documents: Vec<Document> = Vec::new();
        let mut i: usize = 0;
        let ghost views = document_views(self.documents@);
        assert(views.take(0) =~= Seq::<DocumentView>::empty());
        while i < n
            invariant
                n == self.documents.len(),
                i <= n,
                *self == *old(self),
                views == document_views(self.documents@),
                document_views(documents@) == documents_without(views.take(i as int), document_id@),
            decreases n - i,
        {
            proof {
                assert(views.take(i + 1).drop_last() =~= views.take(i as int));
                assert(views.take(i + 1).last() == views[i as int]);
            }
            if !text_eq(self.documents[i].id.as_str(), document_id) {
                let ghost before = document_views(documents@);
                documents.push(self.documents[i].clone());
                assert(document_views(documents@) =~= before.push(views[i as int]));
            }
            i += 1;
        }
        assert(views.take(n as int) =~= views);
        let m: usize = self.chunks.len();
        let mut chunks: Vec<DocumentChunk> = Vec::new();
        let mut j: usize = 0;
        let ghost pieces = chunk_views(self.chunks@);
        assert(pieces.take(0) =~= Seq::<ChunkView>::empty());
        while j < m
            invariant
                m == self.chunks.len(),
                j <= m,
                *self == *old(self),
                pieces == chunk_views(self.chunks@),
                chunk_views(chunks@) == chunks_where(pieces.take(j as int), document_id@, false),
            decreases m - j,
        {
            proof {
                assert(pieces.take(j + 1).drop_last() =~= pieces.take(j as int));
                assert(pieces.take(j + 1).last() == pieces[j as int]);
            }
            if !text_eq(self.chunks[j].document_id.as_str(), document_id) {
                let ghost before = chunk_views(chunks@);
                chunks.push(self.chunks[j].clone());
                assert(chunk_views(chunks@) =~= before.push(pieces[j as int]));
            }
            j += 1;
        }
        assert(pieces.take(m as int) =~= pieces);
        self.documents = documents;
        self.chunks = chunks;
    }

    /// The full content of the first document that bears `document_id`.
    pub fn get_document_content_by_id(&self, document_id: &str) -> (content: Option<String>)
        ensures
            crate::models::opt_text(content) == match document_by_id(
                self@.documents,
                document_id@,
            ) {
                Some(d) => Some(d.full_content),
                None => None,
            },
    {
        match find_document(&self.documents, document_id) {
            Some(i) => Some(self.documents[i].full_content.clone()),
            None => None,
        }
    }
}

/// The heading under which a document stands in a context.
pub open spec fn section_header(d: DocumentView) -> Seq<char> {
    "=== Document: "@ + d.filename + " (Type: "@ + d.file_type + ", Chunks: "@ + decimal(
        d.chunk_count,
    ) + ") ===\n"@
}

/// A document as it stands in a context: its heading, its full content and a
/// blank line.
pub open spec fn section(d: DocumentView) -> Seq<char> {
    section_header(d) + d.full_content + "\n\n"@
}

/// The sections of a list of documents, one after the other.
pub open spec fn sections(documents: Seq<DocumentView>) -> Seq<char>
    decreases documents.len(),
{
    if documents.len() == 0 {
        Seq::empty()
    } else {
        sections(documents.drop_last()) + section(documents.last())
    }
}

/// The context that holds every document; empty where there is none.
pub open spec fn all_documents_text(documents: Seq<DocumentView>) -> Seq<char> {
    if documents.len() == 0 {
        Seq::empty()
    } else {
        "Relevant documents:\n\n"@ + sections(documents)
    }
}

/// The line that tells how a document is referred to.
pub open spec fn reference_line(d: DocumentView) -> Seq<char> {
    "- @"@ + d.id + ": "@ + d.filename + " (Type: "@ + d.file_type + ", "@ + decimal(d.chunk_count)
        + " chunks)\n"@
}

/// The reference lines of a list of documents, one after the other.
pub open spec fn reference_lines(documents: Seq<DocumentView>) -> Seq<char>
    decreases documents.len(),
{
    if documents.len() == 0 {
        Seq::empty()
    } else {
        reference_lines(documents.drop_last()) + reference_line(documents.last())
    }
}

/// The list that tells how each document is referred to; empty where there
/// is none.
pub open spec fn reference_list(documents: Seq<DocumentView>) -> Seq<char> {
    if documents.len() == 0 {
        Seq::empty()
    } else {
        "Available documents for reference:\n\n"@ + reference_lines(documents)
    }
}

/// How a message refers to a document: an at sign and the identifier.
pub open spec fn mention(id: Seq<char>) -> Seq<char> {
    "@"@ + id
}

/// What stands for a reference in the text that the user sees.
pub open spec fn placeholder(filename: Seq<char>) -> Seq<char> {
    "[Document: "@ + filename + "]"@
}

/// The identifiers of the documents that a query refers to, each once, in
/// the order of the documents.
pub open spec fn referenced_ids(documents: Seq<DocumentView>, query: Seq<char>) -> Seq<Seq<char>>
    decreases documents.len(),
{
    if documents.len() == 0 {
        Seq::empty()
    } else {
        let earlier = referenced_ids(documents.drop_last(), query);
        let d = documents.last();
        if contains(query, mention(d.id)) && !earlier.contains(d.id) {
            earlier.push(d.id)
        } else {
            earlier
        }
    }
}

/// The query as the user sees it: for each document that it refers to, in
/// the order of the documents, every reference replaced by the document's
/// placeholder.
pub open spec fn display_text(documents: Seq<DocumentView>, query: Seq<char>) -> Seq<char>
    decreases documents.len(),
{
    if documents.len() == 0 {
        query
    } else {
        let earlier = display_text(documents.drop_last(), query);
        let d = documents.last();
        if contains(query, mention(d.id)) && !referenced_ids(documents.drop_last(), query).contains(
            d.id,
        ) {
            replace_all(earlier, mention(d.id), placeholder(d.filename))
        } else {
            earlier
        }
    }
}

/// The sections of the documents that bear the given identifiers, in the
/// order of the identifiers; an identifier that no document bears adds
/// nothing.
pub open spec fn sections_of(documents: Seq<DocumentView>, ids: Seq<Seq<char>>) -> Seq<char>
    decreases ids.len(),
{
    if ids.len() == 0 {
        Seq::empty()
    } else {
        sections_of(documents, ids.drop_last()) + match document_by_id(documents, ids.last()) {
            Some(d) => section(d),
            None => Seq::empty(),
        }
    }
}

/// The context of a query in manual mode, and the query as the user sees it.
/// A query that refers to no document has no context and is shown as it is.
pub open spec fn manual_context(documents: Seq<DocumentView>, query: Seq<char>) -> (
    Seq<char>,
    Seq<char>,
) {
    let ids = referenced_ids(documents, query);
    if ids.len() == 0 {
        (Seq::empty(), query)
    } else {
        ("Document context:\n\n"@ + sections_of(documents, ids), display_text(documents, query))
    }
}

/// The context that a query gets in the given mode.
pub open spec fn context_for(service: ServiceView, query: Seq<char>) -> Seq<char> {
    match service.mode {
        DocumentContextMode::RAG => all_documents_text(service.documents),
        DocumentContextMode::Manual => manual_context(service.documents, query).0,
    }
}

/// The user's message as the transcript shows it and as the server gets it.
/// In [`DocumentContextMode::RAG`] both are the message with the context of
/// all documents before it. In [`DocumentContextMode::Manual`] the transcript
/// shows the message with placeholders for its references, and the server
/// gets the message with the context of the referenced documents before it.
pub open spec fn augmented(service: ServiceView, raw: Seq<char>) -> (Seq<char>, Seq<char>) {
    match service.mode {
        DocumentContextMode::RAG => {
            let both = all_documents_text(service.documents) + raw;
            (both, both)
        },
        DocumentContextMode::Manual => {
            let (context, display) = manual_context(service.documents, raw);
            (display, context + raw)
        },
    }
}

/// Writes the section of a document.
fn write_section(target: &mut String, d: &Document)
    ensures
        final(target)@ == old(target)@ + section(d@),
{
    let count = decimal_chars(d.chunk_count);
    let mut part = String::from_str("=== Document: ");
    part.append(d.filename.as_str());
    part.append(" (Type: ");
    part.append(d.file_type.as_str());
    part.append(", Chunks: ");
    part.append(from_chars(count.as_slice()).as_str());
    part.append(") ===\n");
    part.append(d.full_content.as_str());
    part.append("\n\n");
    target.append(part.as_str());
}

/// Tests whether an identifier is in a list.
fn id_listed(ids: &Vec<String>, id: &str) -> (listed: bool)
    ensures
        listed == texts(ids@).contains(id@),
{
    let n: usize = ids.len();
    let mut i: usize = 0;
    while i < n
        invariant
            n == ids.len(),
            i <= n,
            forall|j: int| 0 <= j < i ==> texts(ids@)[j] != id@,
        decreases n - i,
    {
        if text_eq(ids[i].as_str(), id) {
            assert(texts(ids@)[i as int] == id@);
            return true;
        }
        i += 1;
    }
    false
}

impl DocumentService {
    /// The context that holds every document.
    pub fn get_all_documents_text(&self) -> (context: String)
        ensures
            context@ == all_documents_text(self@.documents),
    {
        let n: usize = self.documents.len();
        if n == 0 {
            return String::new();
        }
        let mut context = String::from_str("Relevant documents:\n\n");
        let ghost views = document_views(self.documents@);
        let ghost prefix = context@;
        let mut i: usize = 0;
        assert(views.take(0) =~= Seq::<DocumentView>::empty());
        assert(prefix + sections(views.take(0)) =~= prefix);
        while i < n
            invariant
                n == self.documents.len(),
                i <= n,
                views == document_views(self.documents@),
                context@ == prefix + sections(views.take(i as int)),
            decreases n - i,
        {
            proof {
                assert(views.take(i + 1).drop_last() =~= views.take(i as int));
                assert(views.take(i + 1).last() == views[i as int]);
                assert((prefix + sections(views.take(i as int))) + section(views[i as int])
                    =~= prefix + (sections(views.take(i as int)) + section(views[i as int])));
            }
            write_section(&mut context, &self.documents[i]);
            i += 1;
        }
        assert(views.take(n as int) =~= views);
        context
    }

    /// The list that tells how each document is referred to.
    pub fn get_document_list_for_reference(&self) -> (list: String)
        ensures
            list@ == reference_list(self@.documents),
    {
        let n: usize = self.documents.len();
        if n == 0 {
            return String::new();
        }
        let mut list = String::from_str("Available documents for reference:\n\n");
        let ghost views = document_views(self.documents@);
        let ghost prefix = list@;
        let mut i: usize = 0;
        assert(views.take(0) =~= Seq::<DocumentView>::empty());
        assert(prefix + reference_lines(views.take(0)) =~= prefix);
        while i < n
            invariant
                n == self.documents.len(),
                i <= n,
                views == document_views(self.documents@),
                list@ == prefix + reference_lines(views.take(i as int)),
            decreases n - i,
        {
            proof {
                assert(views.take(i + 1).drop_last() =~= views.take(i as int));
                assert(views.take(i + 1).last() == views[i as int]);
                assert((prefix + reference_lines(views.take(i as int))) + reference_line(
                    views[i as int],
                ) =~= prefix + (reference_lines(views.take(i as int)) + reference_line(
                    views[i as int],
                )));
            }
            let d = &self.documents[i];
            let count = decimal_chars(d.chunk_count);
            let mut line = String::from_str("- @");
            line.append(d.id.as_str());
            line.append(": ");
            line.append(d.filename.as_str());
            line.append(" (Type: ");
            line.append(d.file_type.as_str());
            line.append(", ");
            line.append(from_chars(count.as_slice()).as_str());
            line.append(" chunks)\n");
            list.append(line.as_str());
            i += 1;
        }
        assert(views.take(n as int) =~= views);
        list
    }

    /// The context of a query in manual mode, and the query as the user
    /// sees it.
    pub fn build_manual_context_with_display(&self, query: &str) -> (result: (String, String))
        ensures
            (result.0@, result.1@) == manual_context(self@.documents, query@),
    {
        let n: usize = self.documents.len();
        let asked = to_chars(query);
        let mut ids: Vec<String> = Vec::new();
        let mut shown = to_chars(query);
        let ghost views = document_views(self.documents@);
        let mut i: usize = 0;
        assert(views.take(0) =~= Seq::<DocumentView>::empty());
        assert(texts(ids@) =~= Seq::<Seq<char>>::empty());
        while i < n
            invariant
                n == self.documents.len(),
                i <= n,
                asked@ == query@,
                views == document_views(self.documents@),
                texts(ids@) == referenced_ids(views.take(i as int), query@),
                shown@ == display_text(views.take(i as int), query@),
            decreases n - i,
        {
            proof {
                assert(views.take(i + 1).drop_last() =~= views.take(i as int));
                assert(views.take(i + 1).last() == views[i as int]);
            }
            let d = &self.documents[i];
            let mut reference = to_chars("@");
            let id_chars = to_chars(d.id.as_str());
            push_chars(&mut reference, &id_chars);
            if contains_chars(&asked, &reference) && !id_listed(&ids, d.id.as_str()) {
                let ghost before = texts(ids@);
                ids.push(d.id.clone());
                assert(texts(ids@) =~= before.push(d.id@));
                let mut stand_in = to_chars("[Document: ");
                let name = to_chars(d.filename.as_str());
                push_chars(&mut stand_in, &name);
                let closing = to_chars("]");
                push_chars(&mut stand_in, &closing);
                shown = replace_chars(&shown, &reference, &stand_in);
            }
            i += 1;
        }
        assert(views.take(n as int) =~= views);
        if ids.len() == 0 {
            return (String::new(), String::from_str(query));
        }
        let mut context = String::from_str("Document context:\n\n");
        let ghost prefix = context@;
        let m: usize = ids.len();
        let mut k: usize = 0;
        assert(texts(ids@).take(0) =~= Seq::<Seq<char>>::empty());
        assert(prefix + sections_of(views, texts(ids@).take(0)) =~= prefix);
        while k < m
            invariant
                m == ids.len(),
                k <= m,
                views == document_views(self.documents@),
                context@ == prefix + sections_of(views, texts(ids@).take(k as int)),
            decreases m - k,
        {
            let ghost names = texts(ids@);
            proof {
                assert(names.take(k + 1).drop_last() =~= names.take(k as int));
                assert(names.take(k + 1).last() == ids@[k as int]@);
            }
            match find_document(&self.documents, ids[k].as_str()) {
                Some(at) => {
                    proof {
                        assert((prefix + sections_of(views, names.take(k as int))) + section(
                            views[at as int],
                        ) =~= prefix + (sections_of(views, names.take(k as int)) + section(
                            views[at as int],
                        )));
                    }
                    write_section(&mut context, &self.documents[at]);
                },
                None => {
                    proof {
                        assert(sections_of(views, names.take(k as int)) + Seq::<char>::empty()
                            =~= sections_of(views, names.take(k as int)));
                    }
                },
            }
            k += 1;
        }
        assert(texts(ids@).take(m as int) =~= texts(ids@));
        (context, from_chars(shown.as_slice()))
    }

    /// The context of a query in manual mode.
    pub fn build_manual_context(&self, query: &str) -> (context: String)
        ensures
            context@ == manual_context(self@.documents, query@).0,
    {
        let (context, _) = self.build_manual_context_with_display(query);
        context
    }

    /// The context of a query in the mode of the service.
    pub fn build_context(&self, query: &str, _limit: usize) -> (context: String)
        ensures
            context@ == context_for(self@, query@),
    {
        match self.mode {
            DocumentContextMode::RAG => self.get_all_documents_text(),
            DocumentContextMode::Manual => self.build_manual_context(query),
        }
    }

    /// Prepares a user's message for sending: the text that the transcript
    /// shows and the text that the server gets.
    pub fn augment(&self, raw: &str) -> (result: (String, String))
        ensures
            (result.0@, result.1@) == augmented(self@, raw@),
    {
        match self.mode {
            DocumentContextMode::RAG => {
                let mut both = self.get_all_documents_text();
                both.append(raw);
                let copy = both.clone();
                (both, copy)
            },
            DocumentContextMode::Manual => {
                let (context, display) = self.build_manual_context_with_display(raw);
                let mut outbound = context;
                outbound.append(raw);
                (display, outbound)
            },
        }
    }
}

/// A query that refers to no document has no context in manual mode and is
/// shown unchanged.
pub proof fn law_no_reference_no_context(documents: Seq<DocumentView>, query: Seq<char>)
    requires
        forall|i: int| 0 <= i < documents.len() ==> !contains(query, mention(documents[i].id)),
    ensures
        referenced_ids(documents, query).len() == 0,
        manual_context(documents, query) == (Seq::<char>::empty(), query),
    decreases documents.len(),
{
    if documents.len() > 0 {
        law_no_reference_no_context(documents.drop_last(), query);
    }
}

/// `document_position` stays within the documents, passes over none that
/// bears the identifier and stops at one that does.
pub proof fn lemma_document_position(documents: Seq<DocumentView>, id: Seq<char>, from: int)
    requires
        0 <= from <= documents.len(),
    ensures
        from <= document_position(documents, id, from) <= documents.len(),
        forall|j: int|
            from <= j < document_position(documents, id, from) ==> documents[j].id != id,
        document_position(documents, id, from) < documents.len() ==> documents[document_position(
            documents,
            id,
            from,
        )].id == id,
    decreases documents.len() - from,
{
    if from < documents.len() && documents[from].id != id {
        lemma_document_position(documents, id, from + 1);
    }
}

/// The identifier of each document that a query refers to is among the
/// referenced ones.
pub proof fn lemma_referenced(documents: Seq<DocumentView>, query: Seq<char>, i: int)
    requires
        0 <= i < documents.len(),
        contains(query, mention(documents[i].id)),
    ensures
        referenced_ids(documents, query).contains(documents[i].id),
    decreases documents.len(),
{
    let earlier = referenced_ids(documents.drop_last(), query);
    let all = referenced_ids(documents, query);
    if i == documents.len() - 1 {
        if earlier.contains(documents[i].id) {
            assert(all == earlier);
        } else {
            assert(all == earlier.push(documents[i].id));
            assert(all[earlier.len() as int] == documents[i].id);
        }
    } else {
        lemma_referenced(documents.drop_last(), query, i);
        let at = choose|k: int| 0 <= k < earlier.len() && earlier[k] == documents[i].id;
        assert(all[at] == documents[i].id);
    }
}

/// The sections of a list of identifiers hold the full content of the
/// document behind each of them.
pub proof fn lemma_sections_hold_content(
    documents: Seq<DocumentView>,
    ids: Seq<Seq<char>>,
    id: Seq<char>,
)
    requires
        ids.contains(id),
        document_by_id(documents, id) is Some,
    ensures
        contains(sections_of(documents, ids), document_by_id(documents, id)->0.full_content),
    decreases ids.len(),
{
    let d = document_by_id(documents, id)->0;
    let earlier = sections_of(documents, ids.drop_last());
    let none = Seq::<char>::empty();
    if ids.last() == id {
        lemma_contains_self(d.full_content);
        lemma_contains_within(section_header(d), d.full_content, "\n\n"@, d.full_content);
        lemma_contains_within(earlier, section(d), none, d.full_content);
        assert(earlier + section(d) + none =~= earlier + section(d));
    } else {
        let at = choose|k: int| 0 <= k < ids.len() && ids[k] == id;
        assert(ids.drop_last()[at] == id);
        lemma_sections_hold_content(documents, ids.drop_last(), id);
        let last = match document_by_id(documents, ids.last()) {
            Some(other) => section(other),
            None => none,
        };
        lemma_contains_within(none, earlier, last, d.full_content);
        assert(none + earlier + last =~= earlier + last);
    }
}

/// A query that refers to a document gets, in manual mode, a context that
/// holds the full content of the document that bears the identifier.
pub proof fn law_reference_brings_content(documents: Seq<DocumentView>, query: Seq<char>, i: int)
    requires
        0 <= i < documents.len(),
        contains(query, mention(documents[i].id)),
    ensures
        document_by_id(documents, documents[i].id) is Some,
        contains(
            manual_context(documents, query).0,
            document_by_id(documents, documents[i].id)->0.full_content,
        ),
{
    let id = documents[i].id;
    let ids = referenced_ids(documents, query);
    lemma_referenced(documents, query, i);
    lemma_document_position(documents, id, 0);
    lemma_sections_hold_content(documents, ids, id);
    let none = Seq::<char>::empty();
    let body = sections_of(documents, ids);
    lemma_contains_within(
        "Document context:\n\n"@,
        body,
        none,
        document_by_id(documents, id)->0.full_content,
    );
    assert("Document context:\n\n"@ + body + none =~= "Document context:\n\n"@ + body);
}

/// What the service can do with a file of a given type.
#[derive(Clone, Copy, PartialEq, Eq, Debug, Structural)]
pub enum FileKind {
    Pdf,
    Text,
    Unsupported,
}

/// The kind of a file type: `pdf` is a PDF, `txt` and `md` are text, and
/// nothing else is supported.
pub open spec fn file_kind(file_type: Seq<char>) -> FileKind {
    if file_type == "pdf"@ {
        FileKind::Pdf
    } else if file_type == "txt"@ || file_type == "md"@ {
        FileKind::Text
    } else {
        FileKind::Unsupported
    }
}

/// The most bytes of a PDF that its stand-in text shows.
pub const PDF_PREVIEW_BYTES: usize = 500;

/// The most characters of a document that its preview shows.
pub const PREVIEW_CHARS: usize = 200;

/// The first `limit` items of a sequence, or all of them where it is
/// shorter.
pub open spec fn head<T>(s: Seq<T>, limit: int) -> Seq<T> {
    if limit < s.len() {
        s.take(limit)
    } else {
        s
    }
}

/// The text that stands for a PDF: a notice, the size of the file and the
/// start of its bytes read as text.
pub open spec fn pdf_markdown(content: Seq<u8>) -> Seq<char> {
    "[PDF Document - Text extraction from PDF bytes]\n\nFile size: "@ + decimal(content.len())
        + " bytes\nNote: Full PDF parsing requires backend processing.\n\nRaw content preview:\n"@
        + utf8_lossy(head(content, PDF_PREVIEW_BYTES as int))
}

/// The text of a file of the given kind.
pub open spec fn markdown_of(kind: FileKind, content: Seq<u8>) -> Seq<char> {
    match kind {
        FileKind::Pdf => pdf_markdown(content),
        FileKind::Text => utf8_lossy(content),
        FileKind::Unsupported => Seq::empty(),
    }
}

/// The document that an upload makes.
pub open spec fn built_document(
    id: Seq<char>,
    filename: Seq<char>,
    file_type: Seq<char>,
    markdown: Seq<char>,
    total_tokens: nat,
    upload_date: u64,
) -> DocumentView {
    DocumentView {
        id,
        filename,
        file_type,
        upload_date,
        chunk_count: chunked(markdown).len(),
        total_tokens,
        content_preview: head(markdown, PREVIEW_CHARS as int),
        full_content: markdown,
    }
}

/// Whether `records` are the chunks of the document `document_id`, in
/// order, each under its index; their own identifiers are left open.
pub open spec fn records_of(
    records: Seq<ChunkView>,
    document_id: Seq<char>,
    chunks: Seq<Seq<char>>,
    created_at: u64,
) -> bool {
    &&& records.len() == chunks.len()
    &&& forall|i: int|
        0 <= i < records.len() ==> {
            &&& (#[trigger] records[i]).document_id == document_id
            &&& records[i].chunk_index == i
            &&& records[i].content == chunks[i]
            &&& records[i].created_at == created_at
        }
}

/// Why an upload was refused.
#[derive(Debug)]
pub enum DocumentError {
    /// The file is of a type that the service cannot read.
    UnsupportedFileType(String),
}

impl DocumentError {
    /// The refusal in words.
    pub fn message(&self) -> (text: String)
        ensures
            match self {
                DocumentError::UnsupportedFileType(t) => text@ == "Unsupported file type: "@ + t@,
            },
    {
        match self {
            DocumentError::UnsupportedFileType(t) => {
                let mut text = String::from_str("Unsupported file type: ");
                text.append(t.as_str());
                text
            },
        }
    }
}

/// The first `limit` bytes of a slice, or all of them where it is shorter.
fn head_bytes(content: &[u8], limit: usize) -> (part: Vec<u8>)
    ensures
        part@ == head(content@, limit as int),
{
    let n: usize = if limit < content.len() {
        limit
    } else {
        content.len()
    };
    let mut part: Vec<u8> = Vec::new();
    let mut i: usize = 0;
    while i < n
        invariant
            n <= content.len(),
            i <= n,
            part@ == content@.take(i as int),
        decreases n - i,
    {
        part.push(content[i]);
        i += 1;
        assert(part@ =~= content@.take(i as int));
    }
    assert(content@.take(content@.len() as int) =~= content@);
    part
}

/// Tells what the service can do with a file type.
pub fn classify_file_type(file_type: &str) -> (kind: FileKind)
    ensures
        kind == file_kind(file_type@),
{
    if text_eq(file_type, "pdf") {
        FileKind::Pdf
    } else if text_eq(file_type, "txt") || text_eq(file_type, "md") {
        FileKind::Text
    } else {
        FileKind::Unsupported
    }
}

impl DocumentService {
    /// The text that stands for a PDF.
    pub fn pdf_to_markdown(content: &[u8]) -> (markdown: String)
        ensures
            markdown@ == pdf_markdown(content@),
    {
        let size = decimal_chars(content.len());
        let start = head_bytes(content, PDF_PREVIEW_BYTES);
        let mut markdown = String::from_str(
            "[PDF Document - Text extraction from PDF bytes]\n\nFile size: ",
        );
        markdown.append(from_chars(size.as_slice()).as_str());
        markdown.append(
            " bytes\nNote: Full PDF parsing requires backend processing.\n\nRaw content preview:\n",
        );
        markdown.append(decode_lossy(start.as_slice()).as_str());
        markdown
    }

    /// Stores the chunks of a document, each under its index and a new
    /// random identifier, after the chunks already held.
    pub fn store_chunks(&mut self, document_id: &str, chunks: &Vec<String>, created_at: u64)
        ensures
            final(self)@.documents == old(self)@.documents,
            final(self)@.mode == old(self)@.mode,
            final(self)@.chunks.len() == old(self)@.chunks.len() + chunks.len(),
            final(self)@.chunks.take(old(self)@.chunks.len() as int) == old(self)@.chunks,
            records_of(
                final(self)@.chunks.skip(old(self)@.chunks.len() as int),
                document_id@,
                texts(chunks@),
                created_at,
            ),
    {
        let n: usize = chunks.len();
        let ghost held = old(self)@.chunks;
        let mut i: usize = 0;
        assert(self@.chunks.take(held.len() as int) =~= held);
        while i < n
            invariant
                n == chunks.len(),
                i <= n,
                held == old(self)@.chunks,
                self.documents == old(self).documents,
                self.mode == old(self).mode,
                self@.chunks.len() == held.len() + i,
                self@.chunks.take(held.len() as int) == held,
                records_of(
                    self@.chunks.skip(held.len() as int),
                    document_id@,
                    texts(chunks@).take(i as int),
                    created_at,
                ),
            decreases n - i,
        {
            let ghost before = self@.chunks;
            let record = DocumentChunk {
                id: fresh_id(),
                document_id: String::from_str(document_id),
                chunk_index: i,
                content: chunks[i].clone(),
                created_at,
            };
            self.chunks.push(record);
            i += 1;
            proof {
                assert(self@.chunks =~= before.push(record@));
                assert(self@.chunks.take(held.len() as int) =~= before.take(held.len() as int));
                let tail = self@.chunks.skip(held.len() as int);
                assert(tail =~= before.skip(held.len() as int).push(record@));
                assert forall|k: int| 0 <= k < tail.len() implies {
                    &&& (#[trigger] tail[k]).document_id == document_id@
                    &&& tail[k].chunk_index == k
                    &&& tail[k].content == texts(chunks@).take(i as int)[k]
                    &&& tail[k].created_at == created_at
                } by {
                    if k < tail.len() - 1 {
                        assert(tail[k] == before.skip(held.len() as int)[k]);
                    }
                }
            }
        }
        assert(texts(chunks@).take(n as int) =~= texts(chunks@));
    }

    /// Takes in a document whose text, type and token count are known:
    /// records it after the documents already held and stores its chunks.
    /// Returns a copy of the record.
    pub fn add_document(
        &mut self,
        id: String,
        filename: &str,
        file_type: String,
        markdown: String,
        total_tokens: usize,
        upload_date: u64,
    ) -> (document: Document)
        ensures
            document@ == built_document(
                id@,
                filename@,
                file_type@,
                markdown@,
                total_tokens as nat,
                upload_date,
            ),
            final(self)@.documents == old(self)@.documents.push(document@),
            final(self)@.mode == old(self)@.mode,
            final(self)@.chunks.len() == old(self)@.chunks.len() + chunked(markdown@).len(),
            final(self)@.chunks.take(old(self)@.chunks.len() as int) == old(self)@.chunks,
            records_of(
                final(self)@.chunks.skip(old(self)@.chunks.len() as int),
                id@,
                chunked(markdown@),
                upload_date,
            ),
    {
        let chunks = DocumentService::chunk_text(markdown.as_str());
        let chars = to_chars(markdown.as_str());
        let shown: usize = if PREVIEW_CHARS < chars.len() {
            PREVIEW_CHARS
        } else {
            chars.len()
        };
        let preview = slice_chars(&chars, 0, shown);
        assert(preview@ =~= head(markdown@, PREVIEW_CHARS as int));
        assert(texts(chunks@).len() == chunks.len());
        let document = Document {
            id,
            filename: String::from_str(filename),
            file_type,
            upload_date,
            chunk_count: chunks.len(),
            total_tokens,
            content_preview: from_chars(preview.as_slice()),
            full_content: markdown,
        };
        let copy = document.clone();
        let ghost before = self@.documents;
        self.documents.push(document);
        assert(self@.documents =~= before.push(copy@));
        self.store_chunks(copy.id.as_str(), &chunks, upload_date);
        copy
    }

    /// Takes in an uploaded file: reads it as text according to its type,
    /// counts its tokens, and records it with its chunks under a new random
    /// identifier. A file of a type that cannot be read is refused and
    /// changes nothing.
    pub fn process_document(&mut self, filename: &str, content: &[u8], upload_date: u64) -> (result:
        Result<Document, DocumentError>)
        ensures
            ({
                let file_type = lowercased(extension(filename@));
                let kind = file_kind(file_type);
                let markdown = markdown_of(kind, content@);
                match result {
                    Err(DocumentError::UnsupportedFileType(refused)) => {
                        &&& kind == FileKind::Unsupported
                        &&& refused@ == file_type
                        &&& final(self)@ == old(self)@
                    },
                    Ok(document) => {
                        &&& kind != FileKind::Unsupported
                        &&& document@ == built_document(
                            document.id@,
                            filename@,
                            file_type,
                            markdown,
                            token_count(markdown, cl100k_count(markdown)),
                            upload_date,
                        )
                        &&& final(self)@.documents == old(self)@.documents.push(document@)
                        &&& final(self)@.mode == old(self)@.mode
                        &&& final(self)@.chunks.len() == old(self)@.chunks.len() + chunked(
                            markdown,
                        ).len()
                        &&& final(self)@.chunks.take(old(self)@.chunks.len() as int) == old(
                            self,
                        )@.chunks
                        &&& records_of(
                            final(self)@.chunks.skip(old(self)@.chunks.len() as int),
                            document.id@,
                            chunked(markdown),
                            upload_date,
                        )
                    },
                }
            }),
    {
        let file_type = DocumentService::get_file_type(filename);
        let markdown = match classify_file_type(file_type.as_str()) {
            FileKind::Pdf => DocumentService::pdf_to_markdown(content),
            FileKind::Text => decode_lossy(content),
            FileKind::Unsupported => {
                return Err(DocumentError::UnsupportedFileType(file_type));
            },
        };
        let total_tokens = DocumentService::count_tokens(markdown.as_str());
        Ok(self.add_document(fresh_id(), filename, file_type, markdown, total_tokens, upload_date))
    }
}

/// The chunks of a text are windows that advance by the chunk size less the
/// overlap: the chunk at index `k` starts at `k` times that step, holds
/// [`CHUNK_SIZE`] characters unless the text ends before, and only the last
/// chunk reaches the end of the text.
pub proof fn law_chunk_windows(text: Seq<char>, start: int, k: int)
    requires
        0 <= start <= text.len(),
        0 <= k < chunks_from(text, start).len(),
    ensures
        ({
            let from = start + k * (CHUNK_SIZE - CHUNK_OVERLAP);
            let last = k == chunks_from(text, start).len() - 1;
            &&& from <= text.len()
            &&& last <==> from + CHUNK_SIZE >= text.len()
            &&& chunks_from(text, start)[k] == if last {
                text.subrange(from, text.len() as int)
            } else {
                text.subrange(from, from + CHUNK_SIZE)
            }
        }),
    decreases k,
{
    if start + CHUNK_SIZE < text.len() {
        let next = start + CHUNK_SIZE - CHUNK_OVERLAP;
        let first = seq![text.subrange(start, start + CHUNK_SIZE)];
        let rest = chunks_from(text, next);
        lemma_chunks_not_empty(text, next);
        assert(chunks_from(text, start) == first + rest);
        if k > 0 {
            law_chunk_windows(text, next, k - 1);
            assert(next + (k - 1) * 800 == start + k * 800);
            assert((first + rest)[k] == rest[k - 1]);
        }
    }
}

/// Every text has at least one chunk.
pub proof fn lemma_chunks_not_empty(text: Seq<char>, start: int)
    ensures
        chunks_from(text, start).len() >= 1,
{
}

/// A text of no more than [`CHUNK_SIZE`] characters is its own single chunk.
pub proof fn law_short_text_is_one_chunk(text: Seq<char>)
    requires
        text.len() <= CHUNK_SIZE,
    ensures
        chunked(text) == seq![text],
{
    assert(text.subrange(0, text.len() as int) =~= text);
}

} // verus!
