use llm_chat::models::{AppSettings, Document, DocumentContextMode};
use llm_chat::services::document_service::{
    classify_file_type, DocumentError, DocumentService, FileKind, CHUNK_OVERLAP, CHUNK_SIZE,
};

fn doc(id: &str, filename: &str, content: &str) -> Document {
    Document {
        id: id.to_string(),
        filename: filename.to_string(),
        file_type: "txt".to_string(),
        upload_date: 7,
        chunk_count: 3,
        total_tokens: 11,
        content_preview: content.chars().take(200).collect(),
        full_content: content.to_string(),
    }
}

fn service(mode: DocumentContextMode) -> DocumentService {
    DocumentService {
        documents: vec![doc("doc123", "notes.txt", "alpha beta"), doc("d2", "b.md", "gamma")],
        chunks: Vec::new(),
        mode,
    }
}

#[test]
fn manual_reference_is_replaced_and_brings_the_content() {
    let s = service(DocumentContextMode::Manual);
    let (context, display) = s.build_manual_context_with_display("Summarize @doc123");
    assert_eq!(display, "Summarize [Document: notes.txt]");
    assert!(context.contains("alpha beta"));
    assert_eq!(
        context,
        "Document context:\n\n=== Document: notes.txt (Type: txt, Chunks: 3) ===\nalpha beta\n\n"
    );
    assert_eq!(s.build_manual_context("Summarize @doc123"), context);
}

#[test]
fn manual_without_reference_adds_nothing() {
    let s = service(DocumentContextMode::Manual);
    let (context, display) = s.build_manual_context_with_display("Summarize this");
    assert_eq!(context, "");
    assert_eq!(display, "Summarize this");
    let (context, display) = s.build_manual_context_with_display("mail me @ doc123 or @nobody");
    assert_eq!(context, "");
    assert_eq!(display, "mail me @ doc123 or @nobody");
    assert_eq!(s.build_manual_context("nothing"), "");
}

#[test]
fn manual_without_documents_adds_nothing() {
    let s = DocumentService::new(Vec::new(), Vec::new(), None);
    let (context, display) = s.build_manual_context_with_display("see @doc123");
    assert_eq!(context, "");
    assert_eq!(display, "see @doc123");
}

#[test]
fn manual_handles_several_and_repeated_references() {
    let s = service(DocumentContextMode::Manual);
    let (context, display) = s.build_manual_context_with_display("@d2 vs @doc123 vs @d2!");
    assert_eq!(display, "[Document: b.md] vs [Document: notes.txt] vs [Document: b.md]!");
    assert_eq!(
        context,
        "Document context:\n\n=== Document: notes.txt (Type: txt, Chunks: 3) ===\nalpha beta\n\n\
=== Document: b.md (Type: txt, Chunks: 3) ===\ngamma\n\n"
    );
}

#[test]
fn manual_counts_an_identifier_once() {
    let mut s = service(DocumentContextMode::Manual);
    s.documents.push(doc("d2", "copy.md", "delta"));
    let (context, display) = s.build_manual_context_with_display("read @d2");
    assert_eq!(display, "read [Document: b.md]");
    assert_eq!(context, "Document context:\n\n=== Document: b.md (Type: txt, Chunks: 3) ===\ngamma\n\n");
}

#[test]
fn rag_context_holds_every_document() {
    let s = service(DocumentContextMode::RAG);
    let all = "Relevant documents:\n\n=== Document: notes.txt (Type: txt, Chunks: 3) ===\nalpha beta\n\n\
=== Document: b.md (Type: txt, Chunks: 3) ===\ngamma\n\n";
    assert_eq!(s.get_all_documents_text(), all);
    assert_eq!(s.build_context("whatever", 5), all);
    let empty = DocumentService::new(Vec::new(), Vec::new(), None);
    assert_eq!(empty.get_all_documents_text(), "");
    assert_eq!(empty.build_context("q", 0), "");
}

#[test]
fn build_context_follows_the_mode() {
    let s = service(DocumentContextMode::Manual);
    assert_eq!(s.build_context("nothing named", 1), "");
    assert!(s.build_context("look at @d2", 1).ends_with("gamma\n\n"));
}

#[test]
fn augment_in_rag_mode_stores_the_combination() {
    let s = service(DocumentContextMode::RAG);
    let (display, outbound) = s.augment("Why?");
    assert_eq!(display, outbound);
    assert_eq!(display, format!("{}Why?", s.get_all_documents_text()));
    let empty = DocumentService::new(Vec::new(), Vec::new(), None);
    assert_eq!(empty.augment("Why?"), ("Why?".to_string(), "Why?".to_string()));
}

#[test]
fn augment_in_manual_mode_keeps_a_clean_display_copy() {
    let s = service(DocumentContextMode::Manual);
    let (display, outbound) = s.augment("Summarize @doc123");
    assert_eq!(display, "Summarize [Document: notes.txt]");
    assert_eq!(
        outbound,
        "Document context:\n\n=== Document: notes.txt (Type: txt, Chunks: 3) ===\nalpha beta\n\nSummarize @doc123"
    );
    assert_eq!(s.augment("plain"), ("plain".to_string(), "plain".to_string()));
}

#[test]
fn reference_list_names_every_document() {
    let s = service(DocumentContextMode::Manual);
    assert_eq!(
        s.get_document_list_for_reference(),
        "Available documents for reference:\n\n- @doc123: notes.txt (Type: txt, 3 chunks)\n- @d2: b.md (Type: txt, 3 chunks)\n"
    );
    assert_eq!(DocumentService::new(Vec::new(), Vec::new(), None).get_document_list_for_reference(), "");
}

#[test]
fn file_type_is_the_lowercased_extension() {
    assert_eq!(DocumentService::get_file_type("Report.PDF"), "pdf");
    assert_eq!(DocumentService::get_file_type("a.b.Md"), "md");
    assert_eq!(DocumentService::get_file_type("README"), "readme");
    assert_eq!(DocumentService::get_file_type("trailing."), "");
    assert_eq!(DocumentService::get_file_type(""), "");
    assert_eq!(DocumentService::get_file_type(".hidden"), "hidden");
    assert_eq!(classify_file_type("pdf"), FileKind::Pdf);
    assert_eq!(classify_file_type("txt"), FileKind::Text);
    assert_eq!(classify_file_type("md"), FileKind::Text);
    assert_eq!(classify_file_type("docx"), FileKind::Unsupported);
    assert_eq!(classify_file_type("PDF"), FileKind::Unsupported);
    assert_eq!(classify_file_type(""), FileKind::Unsupported);
}

#[test]
fn short_text_is_one_chunk() {
    assert_eq!(DocumentService::chunk_text("hello"), vec!["hello".to_string()]);
    assert_eq!(DocumentService::chunk_text(""), vec![String::new()]);
    let exact: String = "x".repeat(CHUNK_SIZE);
    assert_eq!(DocumentService::chunk_text(&exact), vec![exact.clone()]);
}

#[test]
fn long_text_is_cut_into_overlapping_windows() {
    let text: String = (0..2500u32).map(|i| char::from_u32(0x4e00 + i).unwrap()).collect();
    let chars: Vec<char> = text.chars().collect();
    let chunks = DocumentService::chunk_text(&text);
    assert_eq!(chunks.len(), 3);
    let step = CHUNK_SIZE - CHUNK_OVERLAP;
    assert_eq!(step, 800);
    assert_eq!(chunks[0], chars[0..1000].iter().collect::<String>());
    assert_eq!(chunks[1], chars[800..1800].iter().collect::<String>());
    assert_eq!(chunks[2], chars[1600..2500].iter().collect::<String>());
    let one_more: String = "y".repeat(1001);
    let chunks = DocumentService::chunk_text(&one_more);
    assert_eq!(chunks.len(), 2);
    assert_eq!(chunks[0].len(), 1000);
    assert_eq!(chunks[1].len(), 201);
    let edge: String = "z".repeat(1800);
    let chunks = DocumentService::chunk_text(&edge);
    assert_eq!(chunks.iter().map(|c| c.len()).collect::<Vec<usize>>(), vec![1000, 1000]);
}

#[test]
fn tokens_are_counted_by_the_encoder() {
    assert_eq!(DocumentService::count_tokens("hello world"), 2);
    assert_eq!(DocumentService::count_tokens(""), 0);
    assert_eq!(DocumentService::count_tokens("tiktoken is great!"), 6);
}

#[test]
fn tokens_fall_back_to_words() {
    assert_eq!(DocumentService::count_tokens_given("any text here", Some(9)), 9);
    assert_eq!(DocumentService::count_tokens_given("  two\twords \n", None), 2);
    assert_eq!(DocumentService::count_tokens_given("", None), 0);
    assert_eq!(DocumentService::count_tokens_given("a\u{a0}b\u{3000}c", None), 3);
}

#[test]
fn pdf_stand_in_shows_size_and_start() {
    assert_eq!(
        DocumentService::pdf_to_markdown(b"%PDF-1.4"),
        "[PDF Document - Text extraction from PDF bytes]\n\nFile size: 8 bytes\nNote: Full PDF parsing requires backend processing.\n\nRaw content preview:\n%PDF-1.4"
    );
    let long = vec![b'a'; 1203];
    let text = DocumentService::pdf_to_markdown(&long);
    assert!(text.contains("File size: 1203 bytes"));
    assert!(text.ends_with(&format!("preview:\n{}", "a".repeat(500))));
    assert!(DocumentService::pdf_to_markdown(b"").ends_with("File size: 0 bytes\nNote: Full PDF parsing requires backend processing.\n\nRaw content preview:\n"));
}

#[test]
fn process_document_records_document_and_chunks() {
    let mut s = service(DocumentContextMode::RAG);
    let text = "w".repeat(1900);
    let document = s.process_document("Big.TXT", text.as_bytes(), 123).unwrap();
    assert_eq!(document.id.len(), 36);
    assert_eq!(document.filename, "Big.TXT");
    assert_eq!(document.file_type, "txt");
    assert_eq!(document.upload_date, 123);
    assert_eq!(document.chunk_count, 3);
    assert_eq!(document.total_tokens, DocumentService::count_tokens(&text));
    assert_eq!(document.content_preview, "w".repeat(200));
    assert_eq!(document.full_content, text);
    assert_eq!(s.documents.len(), 3);
    assert_eq!(s.documents[2].id, document.id);
    assert_eq!(s.get_documents().len(), 3);
    let chunks = s.get_document_chunks(&document.id);
    assert_eq!(chunks.len(), 3);
    for (i, chunk) in chunks.iter().enumerate() {
        assert_eq!(chunk.document_id, document.id);
        assert_eq!(chunk.chunk_index, i);
        assert_eq!(chunk.created_at, 123);
        assert_eq!(chunk.id.len(), 36);
    }
    assert_eq!(chunks[0].content.len(), 1000);
    assert_eq!(chunks[2].content.len(), 300);
    assert_eq!(s.get_document_content_by_id(&document.id), Some(text));
}

#[test]
fn process_document_reads_bytes_lossily() {
    let mut s = DocumentService::new(Vec::new(), Vec::new(), None);
    let document = s.process_document("n.md", b"ok\xff!", 1).unwrap();
    assert_eq!(document.full_content, "ok\u{fffd}!");
    assert_eq!(document.content_preview, "ok\u{fffd}!");
    assert_eq!(document.chunk_count, 1);
    let pdf = s.process_document("p.pdf", b"%PDF", 2).unwrap();
    assert_eq!(pdf.file_type, "pdf");
    assert!(pdf.full_content.starts_with("[PDF Document"));
    assert!(pdf.full_content.ends_with("%PDF"));
    assert_eq!(s.chunks.len(), 2);
}

#[test]
fn process_document_refuses_unknown_types() {
    let mut s = service(DocumentContextMode::RAG);
    let refused = s.process_document("table.XLSX", b"data", 1).unwrap_err();
    assert!(matches!(&refused, DocumentError::UnsupportedFileType(t) if t == "xlsx"));
    assert_eq!(refused.message(), "Unsupported file type: xlsx");
    assert_eq!(s.documents.len(), 2);
    assert!(s.chunks.is_empty());
    let bare = s.process_document("Makefile", b"all:", 1).unwrap_err();
    assert_eq!(bare.message(), "Unsupported file type: makefile");
}

#[test]
fn store_chunks_appends_in_order() {
    let mut s = service(DocumentContextMode::RAG);
    s.store_chunks("doc123", &vec!["a".to_string(), "b".to_string()], 4);
    s.store_chunks("d2", &vec!["c".to_string()], 5);
    s.store_chunks("d2", &Vec::new(), 6);
    assert_eq!(s.chunks.len(), 3);
    assert_eq!(s.chunks[1].content, "b");
    assert_eq!(s.chunks[1].chunk_index, 1);
    assert_eq!(s.chunks[2].document_id, "d2");
    assert_eq!(s.chunks[2].chunk_index, 0);
    assert_eq!(s.get_document_chunks("doc123").len(), 2);
    assert!(s.get_document_chunks("none").is_empty());
}

#[test]
fn delete_document_removes_document_and_chunks() {
    let mut s = service(DocumentContextMode::Manual);
    s.store_chunks("doc123", &vec!["a".to_string(), "b".to_string()], 4);
    s.store_chunks("d2", &vec!["c".to_string()], 5);
    s.delete_document("doc123");
    assert_eq!(s.documents.len(), 1);
    assert_eq!(s.documents[0].id, "d2");
    assert_eq!(s.chunks.len(), 1);
    assert_eq!(s.chunks[0].content, "c");
    assert_eq!(s.get_context_mode(), DocumentContextMode::Manual);
    s.delete_document("unknown");
    assert_eq!(s.documents.len(), 1);
    assert_eq!(s.get_document_content_by_id("doc123"), None);
    assert_eq!(s.get_document_content_by_id("d2"), Some("gamma".to_string()));
}

#[test]
fn mode_comes_from_the_settings() {
    let mut settings = AppSettings::default();
    assert_eq!(
        DocumentService::new(Vec::new(), Vec::new(), Some(&settings)).get_context_mode(),
        DocumentContextMode::RAG
    );
    settings.document_context_mode = DocumentContextMode::Manual;
    assert_eq!(
        DocumentService::new(Vec::new(), Vec::new(), Some(&settings)).get_context_mode(),
        DocumentContextMode::Manual
    );
    assert_eq!(
        DocumentService::new(Vec::new(), Vec::new(), None).get_context_mode(),
        DocumentContextMode::RAG
    );
}
